//! Reading a pair's statistics page and deciding what of the stored data a
//! download changes.

use crate::color::{color_of_code, Color};
use crate::decks::{count_of, deck_entries, record_deck_count, deck_count, with_count};
use crate::json::{
    json_at, json_document_of, json_get, json_items, json_text, json_u64, path_view, read_document, Json,
};
use indexmap::IndexMap;
use vstd::prelude::*;
use vstd::string::StringExecFns;

verus! {

/// Which parts of the stored data to download, or which of them a download changes.
#[derive(Clone, Copy, Debug, PartialEq, Eq, Structural)]
pub struct WebParameters {
    /// The number of decks of the pair.
    pub deck_count: bool,
    /// The colour identity of the first partner.
    pub color_id_0: bool,
    /// The colour identity of the second partner.
    pub color_id_1: bool,
}

/// Whether parameters ask for any part.
pub open spec fn asks_any(p: WebParameters) -> bool {
    p.deck_count || p.color_id_0 || p.color_id_1
}

/// The parts that both parameters ask for.
pub open spec fn asks_both(a: WebParameters, b: WebParameters) -> WebParameters {
    WebParameters {
        deck_count: a.deck_count && b.deck_count,
        color_id_0: a.color_id_0 && b.color_id_0,
        color_id_1: a.color_id_1 && b.color_id_1,
    }
}

impl WebParameters {
    /// Parameters that ask for the deck count and, for both partners alike,
    /// the colour identity.
    pub fn new(deck_count: bool, color_id: bool) -> (res: Self)
        ensures
            res == (WebParameters { deck_count, color_id_0: color_id, color_id_1: color_id }),
    {
        WebParameters { deck_count, color_id_0: color_id, color_id_1: color_id }
    }

    /// Whether any part is asked for.
    pub fn any(self) -> (res: bool)
        ensures
            res == asks_any(self),
            res == (self.deck_count || self.color_id_0 || self.color_id_1),
    {
        self.deck_count || self.color_id_0 || self.color_id_1
    }

    /// The parts that both ask for.
    pub fn and(self, other: Self) -> (res: Self)
        ensures
            res == asks_both(self, other),
            res.deck_count == (self.deck_count && other.deck_count),
            res.color_id_0 == (self.color_id_0 && other.color_id_0),
            res.color_id_1 == (self.color_id_1 && other.color_id_1),
    {
        WebParameters {
            deck_count: self.deck_count && other.deck_count,
            color_id_0: self.color_id_0 && other.color_id_0,
            color_id_1: self.color_id_1 && other.color_id_1,
        }
    }
}

/// Why a pair's statistics could not be had.
#[derive(Clone, Copy, Debug, PartialEq, Eq, Structural)]
pub enum WebError {
    /// Neither order of the pair has a page.
    BadStatus,
    /// The page holds no data block.
    MissingData,
    /// The data block is not what a pair's page holds.
    ParseFail,
}

impl WebError {
    /// The message that reports the error.
    pub fn message(&self) -> (res: &'static str)
        ensures
            res@ == match *self {
                WebError::BadStatus => "Could not reach URL"@,
                WebError::MissingData => "Could not find data at URL"@,
                WebError::ParseFail => "Could not parse data"@,
            },
    {
        match self {
            WebError::BadStatus => "Could not reach URL",
            WebError::MissingData => "Could not find data at URL",
            WebError::ParseFail => "Could not parse data",
        }
    }
}

/// What a pair's page says of the pair, as plain values.
pub struct PageSummary {
    pub deck_count: u64,
    pub color_id_0: Seq<Color>,
    pub color_id_1: Seq<Color>,
    pub image_url_0: Seq<char>,
    pub image_url_1: Seq<char>,
}

/// What a pair's page says: the first partner's data first.
pub struct ParseData {
    pub deck_count: u64,
    pub color_id_0: Vec<Color>,
    pub color_id_1: Vec<Color>,
    pub image_url_0: String,
    pub image_url_1: String,
}

impl View for ParseData {
    type V = PageSummary;

    open spec fn view(&self) -> PageSummary {
        PageSummary {
            deck_count: self.deck_count,
            color_id_0: self.color_id_0@,
            color_id_1: self.color_id_1@,
            image_url_0: self.image_url_0@,
            image_url_1: self.image_url_1@,
        }
    }
}

/// The summary with the two partners' data exchanged.
pub open spec fn switched(p: PageSummary) -> PageSummary {
    PageSummary {
        deck_count: p.deck_count,
        color_id_0: p.color_id_1,
        color_id_1: p.color_id_0,
        image_url_0: p.image_url_1,
        image_url_1: p.image_url_0,
    }
}

/// Which stored values a page's data differs from.
pub open spec fn differences(p: PageSummary, count: u64, ids_0: Seq<Color>, ids_1: Seq<Color>) -> WebParameters {
    WebParameters {
        deck_count: p.deck_count != count,
        color_id_0: p.color_id_0 != ids_0,
        color_id_1: p.color_id_1 != ids_1,
    }
}

/// Whether two colour identities are the same list.
pub fn same_colors(a: &[Color], b: &[Color]) -> (res: bool)
    ensures
        res == (a@ == b@),
{
    if a.len() != b.len() {
        return false;
    }
    let n = a.len();
    for i in 0..n
        invariant
            n == a@.len(),
            n == b@.len(),
            forall|j: int| 0 <= j < i ==> a@[j] == b@[j],
    {
        if a[i] != b[i] {
            return false;
        }
    }
    proof {
        assert(a@ =~= b@);
    }
    true
}

impl ParseData {
    /// Which of the stored deck count and colour identities differ from this page's.
    pub fn diff(&self, other: (u64, &[Color], &[Color])) -> (res: WebParameters)
        ensures
            res == differences(self@, other.0, other.1@, other.2@),
            res.deck_count == (self.deck_count != other.0),
            res.color_id_0 == (self.color_id_0@ != other.1@),
            res.color_id_1 == (self.color_id_1@ != other.2@),
    {
        WebParameters {
            deck_count: self.deck_count != other.0,
            color_id_0: !same_colors(self.color_id_0.as_slice(), other.1),
            color_id_1: !same_colors(self.color_id_1.as_slice(), other.2),
        }
    }

    /// Exchanges the two partners' colour identities and images.
    pub fn switch(&mut self)
        ensures
            final(self)@ == switched(old(self)@),
            final(self).deck_count == old(self).deck_count,
            final(self).color_id_0@ == old(self).color_id_1@,
            final(self).color_id_1@ == old(self).color_id_0@,
            final(self).image_url_0@ == old(self).image_url_1@,
            final(self).image_url_1@ == old(self).image_url_0@,
    {
        std::mem::swap(&mut self.color_id_0, &mut self.color_id_1);
        std::mem::swap(&mut self.image_url_0, &mut self.image_url_1);
    }
}

/// The colours of a list of codes; nothing if one of them is no colour's code.
pub open spec fn colors_of(items: Seq<Json>) -> Option<Seq<Color>>
    decreases items.len(),
{
    if items.len() == 0 {
        Some(Seq::empty())
    } else {
        match colors_of(items.drop_last()) {
            Some(cs) => match json_text(items.last()) {
                Some(t) => match color_of_code(t) {
                    Some(c) => Some(cs.push(c)),
                    None => None,
                },
                None => None,
            },
            None => None,
        }
    }
}

/// The colour identity that a value holds: an array of colour codes.
pub open spec fn color_identity_of(v: Json) -> Option<Seq<Color>> {
    match json_items(v) {
        Some(items) => colors_of(items),
        None => None,
    }
}

/// A list of codes with a bad prefix is bad.
proof fn lemma_colors_of_prefix_fails(items: Seq<Json>, k: int)
    requires
        0 <= k <= items.len(),
        colors_of(items.take(k)) is None,
    ensures
        colors_of(items) is None,
    decreases items.len(),
{
    if k == items.len() {
        assert(items.take(k) =~= items);
    } else {
        assert(items.drop_last().take(k) =~= items.take(k));
        lemma_colors_of_prefix_fails(items.drop_last(), k);
    }
}

/// Reads a colour identity: an array of colour codes.
pub fn parse_color(v: &Json) -> (res: Option<Vec<Color>>)
    ensures
        match color_identity_of(*v) {
            Some(cs) => res matches Some(r) && r@ == cs,
            None => res is None,
        },
{
    let items = v.as_array()?;
    let n = items.len();
    let mut out: Vec<Color> = Vec::new();
    for i in 0..n
        invariant
            n == items@.len(),
            color_identity_of(*v) == colors_of(items@),
            colors_of(items@.take(i as int)) == Some(out@),
    {
        proof {
            assert(items@.take(i + 1).drop_last() =~= items@.take(i as int));
            assert(items@.take(i + 1).last() == items@[i as int]);
        }
        let code = match items[i].as_str() {
            Some(s) => s,
            None => {
                proof {
                    lemma_colors_of_prefix_fails(items@, i + 1);
                }
                return None;
            },
        };
        let c = match Color::from_code(code.as_str()) {
            Some(c) => c,
            None => {
                proof {
                    lemma_colors_of_prefix_fails(items@, i + 1);
                }
                return None;
            },
        };
        out.push(c);
    }
    proof {
        assert(items@.take(n as int) =~= items@);
    }
    Some(out)
}

/// The path of the pair's card in a page's data block.
pub open spec fn card_path() -> Seq<Seq<char>> {
    seq!["props"@, "pageProps"@, "data"@, "container"@, "json_dict"@, "card"@]
}

/// The text of the member `key` of `v`.
pub open spec fn text_member(v: Json, key: Seq<char>) -> Option<Seq<char>> {
    match json_get(v, key) {
        Some(w) => json_text(w),
        None => None,
    }
}

/// The colour identity in the member `color_id` of a card.
pub open spec fn card_colors(card: Json) -> Option<Seq<Color>> {
    match json_get(card, "color_id"@) {
        Some(w) => color_identity_of(w),
        None => None,
    }
}

/// The art of the two partners, in the member `image_uris` of the pair's
/// card: an array of exactly two entries, each with an `art_crop` text.
pub open spec fn card_images(card: Json) -> Option<(Seq<char>, Seq<char>)> {
    match json_get(card, "image_uris"@) {
        Some(w) => match json_items(w) {
            Some(imgs) => if imgs.len() == 2 {
                match (text_member(imgs[0], "art_crop"@), text_member(imgs[1], "art_crop"@)) {
                    (Some(u0), Some(u1)) => Some((u0, u1)),
                    _ => None,
                }
            } else {
                None
            },
            None => None,
        },
        None => None,
    }
}

/// What a page's data block says of the pair (`x`, `y`), in that order:
/// the pair's card must list exactly two cards named `x` and `y` in either
/// order, with colour identities, a deck count and two images.
pub open spec fn page_summary(v: Json, x: Seq<char>, y: Seq<char>) -> Option<PageSummary> {
    match json_at(v, card_path()) {
        None => None,
        Some(card) => match json_at(card, seq!["cards"@]) {
            None => None,
            Some(cards_value) => match json_items(cards_value) {
                None => None,
                Some(cards) => if cards.len() != 2 {
                    None
                } else {
                    match (text_member(cards[0], "name"@), text_member(cards[1], "name"@)) {
                        (Some(n0), Some(n1)) => if !((n0 == x && n1 == y) || (n1 == x && n0 == y)) {
                            None
                        } else {
                            match (
                                card_colors(cards[0]),
                                card_colors(cards[1]),
                                json_at(card, seq!["num_decks"@]),
                                card_images(card),
                            ) {
                                (Some(c0), Some(c1), Some(count_value), Some(urls)) => match json_u64(count_value) {
                                    Some(count) => {
                                        let read = PageSummary {
                                            deck_count: count,
                                            color_id_0: c0,
                                            color_id_1: c1,
                                            image_url_0: urls.0,
                                            image_url_1: urls.1,
                                        };
                                        if n0 == x && n1 == y {
                                            Some(read)
                                        } else {
                                            Some(switched(read))
                                        }
                                    },
                                    None => None,
                                },
                                _ => None,
                            }
                        },
                        _ => None,
                    }
                },
            },
        },
    }
}

/// The text of the member `key` of `v`.
fn text_member_of<'a>(v: &'a Json, key: &str) -> (res: Option<&'a String>)
    ensures
        match text_member(*v, key@) {
            Some(t) => res matches Some(r) && r@ == t,
            None => res is None,
        },
{
    match v.get(key) {
        Some(w) => w.as_str(),
        None => None,
    }
}

/// The colour identity of a card.
fn card_colors_of(card: &Json) -> (res: Option<Vec<Color>>)
    ensures
        match card_colors(*card) {
            Some(cs) => res matches Some(r) && r@ == cs,
            None => res is None,
        },
{
    match card.get("color_id") {
        Some(w) => parse_color(w),
        None => None,
    }
}

/// The art of the two partners of a pair's card.
fn card_images_of(card: &Json) -> (res: Option<(String, String)>)
    ensures
        match card_images(*card) {
            Some(urls) => res matches Some(r) && r.0@ == urls.0 && r.1@ == urls.1,
            None => res is None,
        },
{
    let w = card.get("image_uris")?;
    let imgs = w.as_array()?;
    if imgs.len() != 2 {
        return None;
    }
    let u0 = text_member_of(&imgs[0], "art_crop")?;
    let u1 = text_member_of(&imgs[1], "art_crop")?;
    Some((u0.clone(), u1.clone()))
}

/// Reads what a page's data block says of the pair (`x_name`, `y_name`):
/// the pair's card must list exactly two cards with these names, in either
/// order, with their colour identities, the pair's deck count and the two
/// partners' art; the result gives the first partner's data first.
pub fn parse_json(v: &Json, x_name: &str, y_name: &str) -> (res: Option<ParseData>)
    ensures
        match page_summary(*v, x_name@, y_name@) {
            Some(p) => res matches Some(r) && r@ == p,
            None => res is None,
        },
{
    let card_keys: [&str; 6] = ["props", "pageProps", "data", "container", "json_dict", "card"];
    proof {
        assert(path_view(card_keys@) =~= card_path());
    }
    let card = v.lookup(card_keys.as_slice())?;
    let cards_keys: [&str; 1] = ["cards"];
    proof {
        assert(path_view(cards_keys@) =~= seq!["cards"@]);
    }
    let cards = card.lookup(cards_keys.as_slice())?.as_array()?;
    if cards.len() != 2 {
        return None;
    }
    let name_0 = text_member_of(&cards[0], "name")?;
    let name_1 = text_member_of(&cards[1], "name")?;
    let x = x_name.to_owned();
    let y = y_name.to_owned();
    let switch = if *name_0 == x && *name_1 == y {
        false
    } else if *name_1 == x && *name_0 == y {
        true
    } else {
        return None;
    };
    let color_id_0 = card_colors_of(&cards[0])?;
    let color_id_1 = card_colors_of(&cards[1])?;
    let count_keys: [&str; 1] = ["num_decks"];
    proof {
        assert(path_view(count_keys@) =~= seq!["num_decks"@]);
    }
    let deck_count = card.lookup(count_keys.as_slice())?.as_u64()?;
    let (image_url_0, image_url_1) = card_images_of(card)?;
    let mut out = ParseData { deck_count, color_id_0, color_id_1, image_url_0, image_url_1 };
    if switch {
        out.switch();
    }
    Some(out)
}

/// The first capture group of the first match of `pattern` in `text`, as
/// the `regex` crate finds it; nothing if `pattern` is no valid expression
/// or does not match.
pub uninterp spec fn regex_group_one(pattern: Seq<char>, text: Seq<char>) -> Option<Seq<char>>;

/// Compiles `pattern` with `regex::Regex::new`, finds its first match in
/// `text` with `Regex::captures`, and hands out capture group 1 with
/// `Captures::get`.
#[verifier::external_body]
fn capture_group_one(pattern: &str, text: &str) -> (res: Option<String>)
    ensures
        match regex_group_one(pattern@, text@) {
            Some(g) => res matches Some(r) && r@ == g,
            None => res is None,
        },
{
    let re = regex::Regex::new(pattern).ok()?;
    let caps = re.captures(text)?;
    caps.get(1).map(|m| m.as_str().to_string())
}

/// The expression that finds the data block of a statistics page: the
/// contents of its `__NEXT_DATA__` script element.
pub open spec fn data_block_pattern() -> Seq<char> {
    "<script id=\"__NEXT_DATA__\" type=\"application/json\">(.+)</script>"@
}

/// The data block, if the page's search found one; else the page has no data.
pub fn data_block(capture: Option<String>) -> (res: Result<String, WebError>)
    ensures
        match capture {
            Some(b) => res matches Ok(r) && r@ == b@,
            None => res == Err::<String, WebError>(WebError::MissingData),
        },
{
    match capture {
        Some(b) => Ok(b),
        None => Err(WebError::MissingData),
    }
}

/// The data block of a statistics page: the contents of its `__NEXT_DATA__`
/// script element, or `MissingData`.
pub fn extract_data_block(content: &str) -> (res: Result<String, WebError>)
    ensures
        match regex_group_one(data_block_pattern(), content@) {
            Some(b) => res matches Ok(r) && r@ == b,
            None => res == Err::<String, WebError>(WebError::MissingData),
        },
{
    let pattern = "<script id=\"__NEXT_DATA__\" type=\"application/json\">(.+)</script>";
    data_block(capture_group_one(pattern, content))
}

/// What a page's document says of the pair (`x_name`, `y_name`): no
/// document, or one that does not describe the pair, fails to parse.
pub fn decode_page(document: Option<Json>, x_name: &str, y_name: &str) -> (res: Result<ParseData, WebError>)
    ensures
        match document {
            None => res == Err::<ParseData, WebError>(WebError::ParseFail),
            Some(v) => match page_summary(v, x_name@, y_name@) {
                Some(p) => res matches Ok(r) && r@ == p,
                None => res == Err::<ParseData, WebError>(WebError::ParseFail),
            },
        },
{
    match document {
        None => Err(WebError::ParseFail),
        Some(v) => match parse_json(&v, x_name, y_name) {
            Some(d) => Ok(d),
            None => Err(WebError::ParseFail),
        },
    }
}

/// Reads a statistics page for the pair (`x_name`, `y_name`): finds its data
/// block, reads the block as a JSON document, and reads the pair's data from it.
pub fn read_page(content: &str, x_name: &str, y_name: &str) -> (res: Result<ParseData, WebError>)
    ensures
        match regex_group_one(data_block_pattern(), content@) {
            None => res == Err::<ParseData, WebError>(WebError::MissingData),
            Some(b) => match json_document_of(b) {
                None => res == Err::<ParseData, WebError>(WebError::ParseFail),
                Some(v) => match page_summary(v, x_name@, y_name@) {
                    Some(p) => res matches Ok(r) && r@ == p,
                    None => res == Err::<ParseData, WebError>(WebError::ParseFail),
                },
            },
        },
{
    match extract_data_block(content) {
        Err(e) => Err(e),
        Ok(block) => decode_page(read_document(block.as_str()), x_name, y_name),
    }
}

/// The count stored for a pair, zero when none is.
pub open spec fn stored_count(entries: Seq<crate::decks::DeckEntry>, x: Seq<char>, y: Seq<char>) -> u64 {
    match count_of(entries, x, y) {
        Some(v) => v,
        None => 0,
    }
}

/// Applies a pair's downloaded data to the stored data: each part that is
/// asked for and differs from what is stored takes the downloaded value.
/// Returns the parts that changed and the deck count stored before.
pub fn apply_download(
    decks: &mut IndexMap<(String, String), u64>,
    x_name: &String,
    y_name: &String,
    x_ids: &mut Vec<Color>,
    y_ids: &mut Vec<Color>,
    downloaded: ParseData,
    to_download: WebParameters,
) -> (res: (WebParameters, u64))
    ensures
        res.1 == stored_count(deck_entries(*old(decks)), x_name@, y_name@),
        count_of(deck_entries(*old(decks)), x_name@, y_name@) matches Some(v) ==> res.1 == v,
        count_of(deck_entries(*old(decks)), x_name@, y_name@) is None ==> res.1 == 0,
        res.0 == asks_both(
            differences(downloaded@, res.1, old(x_ids)@, old(y_ids)@),
            to_download,
        ),
        res.0.deck_count == (downloaded.deck_count != res.1 && to_download.deck_count),
        res.0.color_id_0 == (downloaded.color_id_0@ != old(x_ids)@ && to_download.color_id_0),
        res.0.color_id_1 == (downloaded.color_id_1@ != old(y_ids)@ && to_download.color_id_1),
        deck_entries(*final(decks)) == if res.0.deck_count {
            with_count(deck_entries(*old(decks)), x_name@, y_name@, downloaded.deck_count)
        } else {
            deck_entries(*old(decks))
        },
        final(x_ids)@ == if res.0.color_id_0 {
            downloaded.color_id_0@
        } else {
            old(x_ids)@
        },
        final(y_ids)@ == if res.0.color_id_1 {
            downloaded.color_id_1@
        } else {
            old(y_ids)@
        },
{
    let old_count = match deck_count(decks, x_name, y_name) {
        Some(v) => v,
        None => 0,
    };
    let diff = downloaded.diff((old_count, x_ids.as_slice(), y_ids.as_slice()));
    let to_update = diff.and(to_download);
    let ParseData { deck_count: new_count, color_id_0, color_id_1, image_url_0: _, image_url_1: _ } =
        downloaded;
    if to_update.deck_count {
        record_deck_count(decks, x_name.clone(), y_name.clone(), new_count);
    }
    if to_update.color_id_0 {
        *x_ids = color_id_0;
    }
    if to_update.color_id_1 {
        *y_ids = color_id_1;
    }
    (to_update, old_count)
}

/// Once a download is applied, the same download asks for no further change.
pub proof fn lemma_download_settles(
    page: PageSummary,
    entries: Seq<crate::decks::DeckEntry>,
    x: Seq<char>,
    y: Seq<char>,
    ids_0: Seq<Color>,
    ids_1: Seq<Color>,
    wanted: WebParameters,
)
    ensures
        ({
            let changed = asks_both(differences(page, stored_count(entries, x, y), ids_0, ids_1), wanted);
            let entries_after = if changed.deck_count {
                with_count(entries, x, y, page.deck_count)
            } else {
                entries
            };
            let ids_0_after = if changed.color_id_0 {
                page.color_id_0
            } else {
                ids_0
            };
            let ids_1_after = if changed.color_id_1 {
                page.color_id_1
            } else {
                ids_1
            };
            !asks_any(
                asks_both(
                    differences(page, stored_count(entries_after, x, y), ids_0_after, ids_1_after),
                    wanted,
                ),
            )
        }),
{
    crate::decks::lemma_count_after_record(entries, x, y, page.deck_count);
}

/// A download differs from the stored data in a part exactly when that part's
/// downloaded value is not the stored one.
pub proof fn lemma_differences_are_inequalities(p: PageSummary, count: u64, ids_0: Seq<Color>, ids_1: Seq<Color>)
    ensures
        differences(p, count, ids_0, ids_1).deck_count <==> p.deck_count != count,
        differences(p, count, ids_0, ids_1).color_id_0 <==> p.color_id_0 != ids_0,
        differences(p, count, ids_0, ids_1).color_id_1 <==> p.color_id_1 != ids_1,
{
}

/// A pair with no stored count gets the page's count recorded whenever the
/// count is asked for and is not zero.
pub proof fn lemma_new_pair_recorded(
    p: PageSummary,
    entries: Seq<crate::decks::DeckEntry>,
    x: Seq<char>,
    y: Seq<char>,
    ids_0: Seq<Color>,
    ids_1: Seq<Color>,
    wanted: WebParameters,
)
    requires
        count_of(entries, x, y) is None,
        p.deck_count != 0,
        wanted.deck_count,
    ensures
        asks_both(differences(p, stored_count(entries, x, y), ids_0, ids_1), wanted).deck_count,
        count_of(with_count(entries, x, y, p.deck_count), x, y) == Some(p.deck_count),
{
    crate::decks::lemma_count_after_record(entries, x, y, p.deck_count);
}

/// Parameters ask for something exactly when they ask for at least one part:
/// each part asked for makes them ask, and asking for no part makes them not.
pub proof fn lemma_asks_any_parts(p: WebParameters)
    ensures
        p.deck_count ==> asks_any(p),
        p.color_id_0 ==> asks_any(p),
        p.color_id_1 ==> asks_any(p),
        !p.deck_count && !p.color_id_0 && !p.color_id_1 ==> !asks_any(p),
{
}

/// Combining parameters goes part by part: a part is asked for exactly when
/// both ask for it, whatever the other parts are.
pub proof fn lemma_asks_both_part_by_part(a: WebParameters, b: WebParameters)
    ensures
        asks_both(a, b).deck_count <==> a.deck_count && b.deck_count,
        asks_both(a, b).color_id_0 <==> a.color_id_0 && b.color_id_0,
        asks_both(a, b).color_id_1 <==> a.color_id_1 && b.color_id_1,
{
}

/// Asking for the parts that both ask for does not depend on their order.
pub proof fn lemma_asks_both_commutes(a: WebParameters, b: WebParameters)
    ensures
        asks_both(a, b) == asks_both(b, a),
{
}

/// Nothing is asked for beyond what each of two parameters asks for.
pub proof fn lemma_asks_both_within(a: WebParameters, b: WebParameters)
    ensures
        asks_any(asks_both(a, b)) ==> asks_any(a) && asks_any(b),
{
}

/// Reading a page for the pair in the other order gives the same data with
/// the partners exchanged, for two different names.
pub proof fn lemma_page_summary_reversed(v: Json, x: Seq<char>, y: Seq<char>)
    requires
        x != y,
    ensures
        match page_summary(v, x, y) {
            Some(p) => page_summary(v, y, x) == Some(switched(p)),
            None => page_summary(v, y, x) is None,
        },
{
}

/// The file that holds the art of the partner named `name`.
pub fn image_file_name(name: &str) -> (res: String)
    ensures
        res@ == name@ + ".jpg"@,
{
    let mut file = String::from_str(name);
    file.append(".jpg");
    file
}

/// Which partners' art a pass over the pairs still fetches: the second
/// partners' art on the first row only, and each first partner's art with
/// the first pair of its row that downloads.
#[derive(Clone, Copy, Debug, PartialEq, Eq, Structural)]
pub struct ImageSchedule {
    /// Still on the first row of pairs.
    pub first_row: bool,
    /// No pair of the current row has downloaded yet.
    pub row_fresh: bool,
}

impl ImageSchedule {
    /// The schedule before the first row.
    pub fn new() -> (res: ImageSchedule)
        ensures
            res == (ImageSchedule { first_row: true, row_fresh: true }),
    {
        ImageSchedule { first_row: true, row_fresh: true }
    }

    /// A new row of pairs begins.
    pub fn start_row(&mut self)
        ensures
            *final(self) == (ImageSchedule { first_row: old(self).first_row, row_fresh: true }),
    {
        self.row_fresh = true;
    }

    /// A pair of the current row has downloaded: returns whether to fetch
    /// the first partner's art and whether to fetch the second partner's.
    pub fn pair_done(&mut self) -> (res: (bool, bool))
        ensures
            res == (old(self).row_fresh, old(self).first_row),
            *final(self) == (ImageSchedule { first_row: old(self).first_row, row_fresh: false }),
    {
        let res = (self.row_fresh, self.first_row);
        self.row_fresh = false;
        res
    }

    /// The current row of pairs ends.
    pub fn end_row(&mut self)
        ensures
            *final(self) == (ImageSchedule { first_row: false, row_fresh: old(self).row_fresh }),
    {
        self.first_row = false;
    }
}

/// Exchanging the partners twice gives the summary back.
pub proof fn lemma_switch_twice(p: PageSummary)
    ensures
        switched(switched(p)) == p,
{
}

} // verus!
