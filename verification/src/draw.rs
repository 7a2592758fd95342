//! The plan of a diagram's grid: what each cell shows and how each colour
//! identity is filled. Coordinates and shades are drawn from this plan.

use crate::color::{color_css, colorless_color, colorless_css, Color};
use crate::decks::{
    count_bounds, deck_entries, lemma_pair_count_within_bounds, max_count, min_count, pair_count,
    pair_count_of, DeckEntry,
};
use crate::text::{decimal_of, decimal_text};
use indexmap::IndexMap;
use vstd::prelude::*;
use vstd::string::StringExecFns;

verus! {

/// Where a cell's count stands among all recorded counts.
#[derive(Clone, Copy, Debug, PartialEq, Eq, Structural)]
pub enum Shade {
    /// No decks: the cell takes the colour of missing data.
    Missing,
    /// The count lies `above_min` above the smallest count, in a range of `range`.
    Scaled { above_min: u64, range: u64 },
}

/// What one cell of the grid shows.
#[derive(Clone, Copy, Debug, PartialEq, Eq, Structural)]
pub enum CellKind {
    /// A partner paired with itself: an empty cell.
    Diagonal,
    /// The number of decks of the pair, and its shade.
    Count { value: u64, shade: Shade },
}

/// The shade of a count among counts from `min` to `max`.
pub open spec fn shade_of(min: u64, max: u64, value: u64) -> Shade {
    if value == 0 {
        Shade::Missing
    } else {
        Shade::Scaled { above_min: (value - min) as u64, range: (max - min) as u64 }
    }
}

/// The cell of the column partner `x` and the row partner `y`.
pub open spec fn cell_of(entries: Seq<DeckEntry>, x: Seq<char>, y: Seq<char>) -> CellKind {
    if x == y {
        CellKind::Diagonal
    } else {
        let v = pair_count_of(entries, x, y);
        CellKind::Count { value: v, shade: shade_of(min_count(entries), max_count(entries), v) }
    }
}

/// The shade of a count among counts from `min` to `max`; a count of zero
/// is missing data.
pub fn cell_shade(min: u64, max: u64, value: u64) -> (res: Shade)
    requires
        value != 0 ==> min <= value <= max,
    ensures
        res == shade_of(min, max, value),
        value == 0 ==> res == Shade::Missing,
        value != 0 ==> res == (Shade::Scaled { above_min: (value - min) as u64, range: (max - min) as u64 }),
{
    if value == 0 {
        Shade::Missing
    } else {
        Shade::Scaled { above_min: value - min, range: max - min }
    }
}

/// The cells of the grid, row by row: row `j` is the partner
/// `y_order[j]` of `y_names`, column `i` the partner `x_order[i]` of `x_names`.
pub fn plan_cells(
    x_names: &Vec<String>,
    x_order: &Vec<usize>,
    y_names: &Vec<String>,
    y_order: &Vec<usize>,
    decks: &IndexMap<(String, String), u64>,
) -> (res: Vec<Vec<CellKind>>)
    requires
        forall|i: int| 0 <= i < x_order@.len() ==> #[trigger] x_order@[i] < x_names@.len(),
        forall|j: int| 0 <= j < y_order@.len() ==> #[trigger] y_order@[j] < y_names@.len(),
    ensures
        res@.len() == y_order@.len(),
        forall|j: int| 0 <= j < res@.len() ==> (#[trigger] res@[j])@.len() == x_order@.len(),
        forall|j: int, i: int|
            #![trigger res@[j]@[i]]
            0 <= j < res@.len() && 0 <= i < x_order@.len() ==> res@[j]@[i] == cell_of(
                deck_entries(*decks),
                x_names@[x_order@[i] as int]@,
                y_names@[y_order@[j] as int]@,
            ),
{
    let ghost entries = deck_entries(*decks);
    let (min, max) = count_bounds(decks);
    let mut rows: Vec<Vec<CellKind>> = Vec::new();
    let ny = y_order.len();
    let nx = x_order.len();
    for j in 0..ny
        invariant
            ny == y_order@.len(),
            nx == x_order@.len(),
            entries == deck_entries(*decks),
            min == min_count(entries),
            max == max_count(entries),
            forall|i: int| 0 <= i < x_order@.len() ==> #[trigger] x_order@[i] < x_names@.len(),
            forall|j: int| 0 <= j < y_order@.len() ==> #[trigger] y_order@[j] < y_names@.len(),
            rows@.len() == j,
            forall|r: int| 0 <= r < j ==> (#[trigger] rows@[r])@.len() == nx,
            forall|r: int, i: int|
                #![trigger rows@[r]@[i]]
                0 <= r < j && 0 <= i < nx ==> rows@[r]@[i] == cell_of(
                    entries,
                    x_names@[x_order@[i] as int]@,
                    y_names@[y_order@[r] as int]@,
                ),
    {
        let y = &y_names[y_order[j]];
        let mut row: Vec<CellKind> = Vec::new();
        for i in 0..nx
            invariant
                nx == x_order@.len(),
                j < y_order@.len(),
                entries == deck_entries(*decks),
                min == min_count(entries),
                max == max_count(entries),
                forall|i: int| 0 <= i < x_order@.len() ==> #[trigger] x_order@[i] < x_names@.len(),
                *y == y_names@[y_order@[j as int] as int],
                row@.len() == i,
                forall|k: int|
                    0 <= k < i ==> #[trigger] row@[k] == cell_of(
                        entries,
                        x_names@[x_order@[k] as int]@,
                        y@,
                    ),
        {
            let x = &x_names[x_order[i]];
            if *x == *y {
                row.push(CellKind::Diagonal);
            } else {
                let value = pair_count(decks, x, y);
                proof {
                    lemma_pair_count_within_bounds(entries, x@, y@);
                }
                let shade = cell_shade(min, max, value);
                row.push(CellKind::Count { value, shade });
            }
        }
        rows.push(row);
    }
    rows
}

/// The CSS colour with the given red, green and blue components.
pub fn rgb_css(r: u8, g: u8, b: u8) -> (res: String)
    ensures
        res@ == "rgb("@ + decimal_of(r as nat) + ", "@ + decimal_of(g as nat) + ", "@ + decimal_of(b as nat)
            + ")"@,
{
    let mut css = String::from_str("rgb(");
    css.append(decimal_text(r as u64).as_str());
    css.append(", ");
    css.append(decimal_text(g as u64).as_str());
    css.append(", ");
    css.append(decimal_text(b as u64).as_str());
    css.append(")");
    css
}

/// How the box of a colour identity is filled.
pub enum Fill {
    /// One colour.
    Solid(String),
    /// A gradient through these colours, evenly spaced, in order.
    Gradient(Vec<String>),
}

/// Fills a colour identity's box: a single colour, the colourless fill for
/// an empty identity, or a gradient through all its colours.
pub fn box_fill(color_id: &[Color]) -> (res: Fill)
    ensures
        color_id@.len() == 0 ==> (res matches Fill::Solid(s) && s@ == colorless_css()),
        color_id@.len() == 1 ==> (res matches Fill::Solid(s) && s@ == color_css(color_id@[0])),
        color_id@.len() > 1 ==> (res matches Fill::Gradient(stops) && stops@.len() == color_id@.len()
            && forall|k: int| 0 <= k < stops@.len() ==> (#[trigger] stops@[k])@ == color_css(color_id@[k])),
{
    let n = color_id.len();
    if n == 0 {
        Fill::Solid(colorless_color().to_owned())
    } else if n == 1 {
        Fill::Solid(color_id[0].as_str().to_owned())
    } else {
        let mut stops: Vec<String> = Vec::new();
        for k in 0..n
            invariant
                n == color_id@.len(),
                stops@.len() == k,
                forall|m: int| 0 <= m < k ==> (#[trigger] stops@[m])@ == color_css(color_id@[m]),
        {
            stops.push(color_id[k].as_str().to_owned());
        }
        Fill::Gradient(stops)
    }
}

/// Only a count of zero is missing data; any other count is placed on the
/// scale, its distance above the smallest count out of the whole range.
pub proof fn lemma_only_zero_missing(min: u64, max: u64, value: u64)
    requires
        value != 0 ==> min <= value <= max,
    ensures
        (shade_of(min, max, value) == Shade::Missing) <==> value == 0,
        value != 0 ==> shade_of(min, max, value) == (Shade::Scaled {
            above_min: (value - min) as u64,
            range: (max - min) as u64,
        }),
        shade_of(min, max, value) matches Shade::Scaled { above_min, range } ==> min + above_min == value
            && min + range == max,
{
}

/// A cell of the grid shows missing data exactly when its pair has no decks.
pub proof fn lemma_cell_missing_iff_zero(entries: Seq<DeckEntry>, x: Seq<char>, y: Seq<char>)
    ensures
        cell_of(entries, x, y) matches CellKind::Count { value, shade } ==> ((shade == Shade::Missing) <==> value
            == 0),
{
    lemma_pair_count_within_bounds(entries, x, y);
}

/// Every shaded cell of a grid lies within the recorded counts: its count is
/// at least the smallest and at most the largest.
pub proof fn lemma_cells_within_bounds(entries: Seq<DeckEntry>, x: Seq<char>, y: Seq<char>)
    ensures
        cell_of(entries, x, y) matches CellKind::Count { value, shade: Shade::Scaled { above_min, range } }
            ==> min_count(entries) <= value <= max_count(entries) && above_min <= range && above_min
            == value - min_count(entries) && range == max_count(entries) - min_count(entries),
{
    lemma_pair_count_within_bounds(entries, x, y);
}

/// The cell of two partners shows the same count whichever of them is the
/// column and whichever the row.
pub proof fn lemma_cell_symmetric(entries: Seq<DeckEntry>, x: Seq<char>, y: Seq<char>)
    requires
        crate::decks::count_of(entries, x, y) is None || crate::decks::count_of(entries, y, x) is None
            || crate::decks::count_of(entries, x, y) == crate::decks::count_of(entries, y, x),
    ensures
        cell_of(entries, x, y) == cell_of(entries, y, x),
{
}

} // verus!
