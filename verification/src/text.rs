//! Text rules: the slug that the statistics site gives a partner's name, and
//! the address of a pair's page.

use vstd::prelude::*;
use vstd::string::StringExecFns;

verus! {

/// What `str::to_lowercase` makes of a text: Unicode lowercase mapping,
/// which may change a text's length and, for a final sigma, depends on
/// where in a word a letter stands.
pub uninterp spec fn lowercase_of(s: Seq<char>) -> Seq<char>;

/// Whether every character of a text is ASCII.
pub open spec fn all_ascii(s: Seq<char>) -> bool {
    forall|k: int| 0 <= k < s.len() ==> (#[trigger] s[k] as int) < 128
}

/// Whether a character is an ASCII capital letter.
pub open spec fn is_ascii_upper(c: char) -> bool {
    'A' <= c <= 'Z'
}

/// The lowercase form of an ASCII character: a capital letter becomes its
/// small letter, anything else stays.
pub open spec fn ascii_lower_char(c: char) -> char {
    if is_ascii_upper(c) {
        ((c as int) + 32) as char
    } else {
        c
    }
}

/// The lowercase form of an ASCII text, character by character.
pub open spec fn ascii_lowered(s: Seq<char>) -> Seq<char> {
    s.map_values(|c: char| ascii_lower_char(c))
}

/// Lowercases a text with `str::to_lowercase`. On ASCII text, Unicode
/// lowercasing maps each capital letter to its small letter and leaves every
/// other character as it is.
#[verifier::external_body]
fn to_lowercase(s: &str) -> (res: String)
    ensures
        res@ == lowercase_of(s@),
        all_ascii(s@) ==> res@ == ascii_lowered(s@),
{
    s.to_lowercase()
}

/// Appends a character with `String::push`.
#[verifier::external_body]
fn push_char(s: &mut String, c: char)
    ensures
        final(s)@ == old(s)@.push(c),
{
    s.push(c)
}

/// The characters with the Unicode `White_Space` property, those that
/// `char::is_whitespace` accepts.
pub open spec fn is_white_space(c: char) -> bool {
    ||| '\u{9}' <= c <= '\u{d}'
    ||| c == ' '
    ||| c == '\u{85}'
    ||| c == '\u{a0}'
    ||| c == '\u{1680}'
    ||| '\u{2000}' <= c <= '\u{200a}'
    ||| c == '\u{2028}'
    ||| c == '\u{2029}'
    ||| c == '\u{202f}'
    ||| c == '\u{205f}'
    ||| c == '\u{3000}'
}

/// Whether `c` is white space in the sense of Unicode.
pub fn is_whitespace(c: char) -> (res: bool)
    ensures
        res == is_white_space(c),
{
    ('\u{9}' <= c && c <= '\u{d}') || c == ' ' || c == '\u{85}' || c == '\u{a0}' || c == '\u{1680}'
        || ('\u{2000}' <= c && c <= '\u{200a}') || c == '\u{2028}' || c == '\u{2029}' || c == '\u{202f}'
        || c == '\u{205f}' || c == '\u{3000}'
}

/// The characters that a slug drops.
pub open spec fn is_dropped(c: char) -> bool {
    c == ',' || c == '\''
}

/// A lowercased text as a slug: each white-space character becomes a
/// hyphen, commas and apostrophes go.
pub open spec fn slug_chars(s: Seq<char>) -> Seq<char>
    decreases s.len(),
{
    if s.len() == 0 {
        Seq::empty()
    } else {
        let rest = slug_chars(s.drop_last());
        let c = s.last();
        if is_white_space(c) {
            rest.push('-')
        } else if is_dropped(c) {
            rest
        } else {
            rest.push(c)
        }
    }
}

/// The slug of a name: its lowercase form, with white space as hyphens and
/// without commas or apostrophes.
pub open spec fn slug_of(name: Seq<char>) -> Seq<char> {
    slug_chars(lowercase_of(name))
}

/// The slug of an ASCII name: its ASCII lowercase form, with white space
/// as hyphens and without commas or apostrophes.
pub open spec fn ascii_slug(name: Seq<char>) -> Seq<char> {
    slug_chars(ascii_lowered(name))
}

/// The number of commas and apostrophes in a text.
pub open spec fn dropped_count(s: Seq<char>) -> int
    decreases s.len(),
{
    if s.len() == 0 {
        0
    } else {
        dropped_count(s.drop_last()) + if is_dropped(s.last()) {
            1int
        } else {
            0int
        }
    }
}

/// The slug that the statistics site uses for a name.
pub fn slugify(s: &str) -> (res: String)
    ensures
        res@ == slug_of(s@),
        all_ascii(s@) ==> res@ == ascii_slug(s@),
{
    let lower = to_lowercase(s);
    let ghost low = lower@;
    let text = lower.as_str();
    let n = text.unicode_len();
    let mut out = String::new();
    for i in 0..n
        invariant
            n == low.len(),
            text@ == low,
            out@ == slug_chars(low.take(i as int)),
    {
        let c = text.get_char(i);
        proof {
            assert(low.take(i + 1).drop_last() =~= low.take(i as int));
            assert(low.take(i + 1).last() == c);
        }
        if is_whitespace(c) {
            push_char(&mut out, '-');
        } else if c != ',' && c != '\'' {
            push_char(&mut out, c);
        }
    }
    proof {
        assert(low.take(n as int) =~= low);
    }
    out
}

/// The address of the statistics page of the pair with slugs `a` and `b`.
pub fn commander_url(a: &str, b: &str) -> (res: String)
    ensures
        res@ == "https://edhrec.com/commanders/"@ + a@ + "-"@ + b@,
{
    let mut url = String::from_str("https://edhrec.com/commanders/");
    url.append(a);
    url.append("-");
    url.append(b);
    url
}

/// The character of a decimal digit.
pub open spec fn digit_char(d: nat) -> char {
    (48 + d) as char
}

/// The decimal text of a number, without leading zeros.
pub open spec fn decimal_of(n: nat) -> Seq<char>
    decreases n,
{
    if n < 10 {
        seq![digit_char(n)]
    } else {
        decimal_of(n / 10).push(digit_char(n % 10))
    }
}

/// The decimal text of a number.
pub fn decimal_text(n: u64) -> (res: String)
    ensures
        res@ == decimal_of(n as nat),
    decreases n,
{
    let digit = ((48 + n % 10) as u8) as char;
    if n < 10 {
        let mut s = String::new();
        push_char(&mut s, digit);
        proof {
            assert(s@ =~= seq![digit_char(n as nat)]);
        }
        s
    } else {
        let mut s = decimal_text(n / 10);
        push_char(&mut s, digit);
        s
    }
}

/// The identifier of the `i`th element of a kind: its prefix, then `i` in decimal.
pub fn element_id(prefix: &str, i: u64) -> (res: String)
    ensures
        res@ == prefix@ + decimal_of(i as nat),
{
    let mut id = String::from_str(prefix);
    let digits = decimal_text(i);
    id.append(digits.as_str());
    id
}

/// The paint or clip reference to the element with identifier `id`.
pub fn element_reference(id: &str) -> (res: String)
    ensures
        res@ == "url(#"@ + id@ + ")"@,
{
    let mut r = String::from_str("url(#");
    r.append(id);
    r.append(")");
    r
}

/// A decimal text is never empty.
pub proof fn lemma_decimal_nonempty(n: nat)
    ensures
        decimal_of(n).len() >= 1,
        n >= 10 ==> decimal_of(n).len() >= 2,
    decreases n,
{
    if n >= 10 {
        lemma_decimal_nonempty(n / 10);
    }
}

/// Different numbers have different decimal texts.
pub proof fn lemma_decimal_injective(a: nat, b: nat)
    requires
        decimal_of(a) == decimal_of(b),
    ensures
        a == b,
    decreases a,
{
    lemma_decimal_nonempty(a);
    lemma_decimal_nonempty(b);
    assert(a < 10 ==> decimal_of(a).len() == 1);
    assert(b < 10 ==> decimal_of(b).len() == 1);
    if a >= 10 && b >= 10 {
        let da = decimal_of(a);
        assert(da.drop_last() =~= decimal_of(a / 10));
        assert(decimal_of(b).drop_last() =~= decimal_of(b / 10));
        assert(decimal_of(a).last() == digit_char(a % 10));
        assert(decimal_of(b).last() == digit_char(b % 10));
        assert(digit_char(a % 10) as int == 48 + a % 10);
        assert(digit_char(b % 10) as int == 48 + b % 10);
        lemma_decimal_injective(a / 10, b / 10);
        assert(a == 10 * (a / 10) + a % 10 && b == 10 * (b / 10) + b % 10) by (nonlinear_arith);
        assert(a % 10 == b % 10);
        assert(a / 10 == b / 10);
    } else if a < 10 && b < 10 {
        assert(decimal_of(a)[0] == digit_char(a));
        assert(decimal_of(b)[0] == digit_char(b));
        assert(digit_char(a) as int == 48 + a);
        assert(digit_char(b) as int == 48 + b);
        assert(a == b);
    } else {
        assert(decimal_of(a).len() != decimal_of(b).len());
    }
}

/// Elements of one kind with different numbers have different identifiers.
pub proof fn lemma_element_ids_distinct(prefix: Seq<char>, a: nat, b: nat)
    requires
        a != b,
    ensures
        prefix + decimal_of(a) != prefix + decimal_of(b),
{
    if prefix + decimal_of(a) == prefix + decimal_of(b) {
        assert((prefix + decimal_of(a)).skip(prefix.len() as int) =~= decimal_of(a));
        assert((prefix + decimal_of(b)).skip(prefix.len() as int) =~= decimal_of(b));
        lemma_decimal_injective(a, b);
    }
}

/// The ASCII slug of an ASCII name is ASCII, holds no capital letter, white
/// space, comma or apostrophe, and is as long as the name without its
/// commas and apostrophes.
pub proof fn lemma_ascii_slug_shape(s: Seq<char>)
    requires
        all_ascii(s),
    ensures
        all_ascii(ascii_slug(s)),
        forall|k: int|
            0 <= k < ascii_slug(s).len() ==> !is_ascii_upper(#[trigger] ascii_slug(s)[k]) && !is_white_space(
                ascii_slug(s)[k],
            ) && !is_dropped(ascii_slug(s)[k]),
        ascii_slug(s).len() == s.len() - dropped_count(s),
    decreases s.len(),
{
    lemma_slug_chars_clean(ascii_lowered(s));
    if s.len() > 0 {
        let init = s.drop_last();
        assert(ascii_lowered(s).drop_last() =~= ascii_lowered(init));
        assert(ascii_lowered(s).last() == ascii_lower_char(s.last()));
        assert((s.last() as int) < 128);
        lemma_ascii_slug_shape(init);
        let rest = ascii_slug(init);
        assert forall|k: int| 0 <= k < ascii_slug(s).len() implies (#[trigger] ascii_slug(s)[k] as int) < 128
            && !is_ascii_upper(ascii_slug(s)[k]) by {
            if k < rest.len() {
                assert(ascii_slug(s)[k] == rest[k]);
            }
        }
    }
}

/// Slugging an ASCII name twice gives the same slug as slugging it once.
pub proof fn lemma_ascii_slug_idempotent(s: Seq<char>)
    requires
        all_ascii(s),
    ensures
        ascii_slug(ascii_slug(s)) == ascii_slug(s),
{
    let t = ascii_slug(s);
    lemma_ascii_slug_shape(s);
    assert(ascii_lowered(t) =~= t);
    lemma_slug_chars_fixed(t);
}

/// A slug holds no white space, comma or apostrophe.
pub proof fn lemma_slug_chars_clean(s: Seq<char>)
    ensures
        forall|k: int|
            0 <= k < slug_chars(s).len() ==> !is_white_space(#[trigger] slug_chars(s)[k]) && !is_dropped(
                slug_chars(s)[k],
            ),
    decreases s.len(),
{
    if s.len() > 0 {
        let rest = slug_chars(s.drop_last());
        lemma_slug_chars_clean(s.drop_last());
        assert forall|k: int| 0 <= k < slug_chars(s).len() implies !is_white_space(
            #[trigger] slug_chars(s)[k],
        ) && !is_dropped(slug_chars(s)[k]) by {
            if k < rest.len() {
                assert(slug_chars(s)[k] == rest[k]);
            }
        }
    }
}

/// A slug is no longer than the lowercased text it comes from.
pub proof fn lemma_slug_chars_length(s: Seq<char>)
    ensures
        slug_chars(s).len() <= s.len(),
    decreases s.len(),
{
    if s.len() > 0 {
        lemma_slug_chars_length(s.drop_last());
    }
}

/// A text that is already a lowercase slug, with no white space, comma or
/// apostrophe, is its own slug.
pub proof fn lemma_slug_chars_fixed(s: Seq<char>)
    requires
        forall|k: int| 0 <= k < s.len() ==> !is_white_space(#[trigger] s[k]) && !is_dropped(s[k]),
    ensures
        slug_chars(s) == s,
    decreases s.len(),
{
    if s.len() > 0 {
        lemma_slug_chars_fixed(s.drop_last());
        assert(s.drop_last().push(s.last()) =~= s);
    }
}

} // verus!
