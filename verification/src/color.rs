//! The five colours of a colour identity, their one-letter codes and the
//! fill that a diagram gives each of them.

use vstd::prelude::*;

verus! {

/// One colour of a colour identity.
#[derive(Clone, Copy, Debug, PartialEq, Eq, Structural)]
pub enum Color {
    White,
    Blue,
    Black,
    Red,
    Green,
}

/// The one-letter code that data files and the statistics site use for a colour.
pub open spec fn color_code(c: Color) -> Seq<char> {
    match c {
        Color::White => seq!['W'],
        Color::Blue => seq!['U'],
        Color::Black => seq!['B'],
        Color::Red => seq!['R'],
        Color::Green => seq!['G'],
    }
}

/// The colour whose code is `s`, if there is one.
pub open spec fn color_of_code(s: Seq<char>) -> Option<Color> {
    if s.len() != 1 {
        None
    } else if s[0] == 'W' {
        Some(Color::White)
    } else if s[0] == 'U' {
        Some(Color::Blue)
    } else if s[0] == 'B' {
        Some(Color::Black)
    } else if s[0] == 'R' {
        Some(Color::Red)
    } else if s[0] == 'G' {
        Some(Color::Green)
    } else {
        None
    }
}

/// The CSS fill of a colour in a diagram.
pub open spec fn color_css(c: Color) -> Seq<char> {
    match c {
        Color::White => "rgb(245, 241, 237)"@,
        Color::Blue => "rgb(0, 107, 167)"@,
        Color::Black => "rgb(60, 55, 52)"@,
        Color::Red => "rgb(229, 65, 43)"@,
        Color::Green => "rgb(0, 108, 71)"@,
    }
}

/// The CSS fill of a colour identity with no colour at all.
pub open spec fn colorless_css() -> Seq<char> {
    "rgb(204.0, 194.0, 192.0)"@
}

/// The fill of a colourless identity.
pub fn colorless_color() -> (s: &'static str)
    ensures
        s@ == colorless_css(),
{
    "rgb(204.0, 194.0, 192.0)"
}

impl Color {
    /// The CSS colour of `self`, as the diagram draws it.
    pub fn as_str(&self) -> (s: &'static str)
        ensures
            s@ == color_css(*self),
    {
        match self {
            Color::White => "rgb(245, 241, 237)",
            Color::Blue => "rgb(0, 107, 167)",
            Color::Black => "rgb(60, 55, 52)",
            Color::Red => "rgb(229, 65, 43)",
            Color::Green => "rgb(0, 108, 71)",
        }
    }

    /// Reads a colour from its one-letter code; anything else is refused.
    pub fn from_code(s: &str) -> (res: Option<Color>)
        ensures
            res == color_of_code(s@),
    {
        if s.unicode_len() != 1 {
            return None;
        }
        let c = s.get_char(0);
        if c == 'W' {
            Some(Color::White)
        } else if c == 'U' {
            Some(Color::Blue)
        } else if c == 'B' {
            Some(Color::Black)
        } else if c == 'R' {
            Some(Color::Red)
        } else if c == 'G' {
            Some(Color::Green)
        } else {
            None
        }
    }
}

impl std::str::FromStr for Color {
    type Err = ();

    fn from_str(s: &str) -> (res: Result<Self, Self::Err>)
        ensures
            match color_of_code(s@) {
                Some(c) => res == Ok::<Color, ()>(c),
                None => res == Err::<Color, ()>(()),
            },
    {
        match Color::from_code(s) {
            Some(c) => Ok(c),
            None => Err(()),
        }
    }
}

/// Different colours are drawn with different fills, and none with the
/// colourless fill.
pub proof fn lemma_css_distinct(a: Color, b: Color)
    ensures
        a != b ==> color_css(a) != color_css(b),
        color_css(a) != colorless_css(),
{
    reveal_strlit("rgb(245, 241, 237)");
    reveal_strlit("rgb(0, 107, 167)");
    reveal_strlit("rgb(60, 55, 52)");
    reveal_strlit("rgb(229, 65, 43)");
    reveal_strlit("rgb(0, 108, 71)");
    reveal_strlit("rgb(204.0, 194.0, 192.0)");
    assert(color_css(a).len() != colorless_css().len());
    if a != b && color_css(a).len() == color_css(b).len() {
        assert(color_css(a)[4] != color_css(b)[4] || color_css(a)[6] != color_css(b)[6]);
    }
}

/// Reading back the code of a colour gives that colour.
pub proof fn lemma_code_round_trip(c: Color)
    ensures
        color_of_code(color_code(c)) == Some(c),
{
}

/// A code names at most one colour, and each colour's code reads back as it.
pub proof fn lemma_code_of_parsed(s: Seq<char>)
    ensures
        color_of_code(s) matches Some(c) ==> color_code(c) == s,
{
    if let Some(c) = color_of_code(s) {
        assert(color_code(c) =~= s);
    }
}

} // verus!
