use deck_diagrams::color::Color;
use deck_diagrams::decks::{count_bounds, deck_count, deck_list, pair_count, record_deck_count};
use deck_diagrams::draw::{box_fill, cell_shade, plan_cells, rgb_css, CellKind, Fill, Shade};
use deck_diagrams::json::{Json, JsonNumber};
use deck_diagrams::order::{
    find_name, get_order, order_defined, partner_totals, sort_by_totals, try_get_order, Counting,
};
use deck_diagrams::json::read_document;
use deck_diagrams::web::{
    apply_download, data_block, decode_page, extract_data_block, parse_color, parse_json, read_page,
    ImageSchedule, ParseData, WebError, WebParameters,
};
use indexmap::IndexMap;

fn s(t: &str) -> String {
    t.to_string()
}

fn text(t: &str) -> Json {
    Json::String(s(t))
}

fn object(members: Vec<(&str, Json)>) -> Json {
    Json::Object(members.into_iter().map(|(k, v)| (s(k), v)).collect())
}

fn codes(cs: &[&str]) -> Json {
    Json::Array(cs.iter().map(|c| text(c)).collect())
}

fn page(name_0: &str, name_1: &str, decks: Json) -> Json {
    let card = object(vec![
        (
            "cards",
            Json::Array(vec![
                object(vec![("name", text(name_0)), ("color_id", codes(&["W", "B"]))]),
                object(vec![("name", text(name_1)), ("color_id", codes(&["R"]))]),
            ]),
        ),
        ("num_decks", decks),
        (
            "image_uris",
            Json::Array(vec![
                object(vec![("art_crop", text("https://img/0.jpg"))]),
                object(vec![("art_crop", text("https://img/1.jpg"))]),
            ]),
        ),
    ]);
    object(vec![(
        "props",
        object(vec![(
            "pageProps",
            object(vec![(
                "data",
                object(vec![("container", object(vec![("json_dict", object(vec![("card", card)]))]))]),
            )]),
        )]),
    )])
}

fn decks(entries: &[(&str, &str, u64)]) -> IndexMap<(String, String), u64> {
    let mut m = IndexMap::new();
    for (a, b, v) in entries {
        m.insert((s(a), s(b)), *v);
    }
    m
}

#[test]
fn web_parameters_combine() {
    let p = WebParameters::new(true, false);
    assert!(p.deck_count && !p.color_id_0 && !p.color_id_1);
    assert!(p.any());
    assert!(!WebParameters::new(false, false).any());
    let q = WebParameters::new(false, true);
    assert!(q.color_id_0 && q.color_id_1);
    assert!(!p.and(q).any());
    assert_eq!(p.and(p), p);
    assert_eq!(p.and(q), q.and(p));
}

#[test]
fn diff_and_switch() {
    let mut d = ParseData {
        deck_count: 7,
        color_id_0: vec![Color::White, Color::Black],
        color_id_1: vec![Color::Red],
        image_url_0: s("a"),
        image_url_1: s("b"),
    };
    let same = d.diff((7, &[Color::White, Color::Black], &[Color::Red]));
    assert!(!same.any());
    let other = d.diff((8, &[Color::Black, Color::White], &[Color::Red]));
    assert!(other.deck_count && other.color_id_0 && !other.color_id_1);
    d.switch();
    assert_eq!(d.color_id_0, vec![Color::Red]);
    assert_eq!(d.color_id_1, vec![Color::White, Color::Black]);
    assert_eq!(d.image_url_0, "b");
    assert_eq!(d.image_url_1, "a");
    assert_eq!(d.deck_count, 7);
}

#[test]
fn json_lookups() {
    let v = object(vec![("a", object(vec![("b", Json::Number(JsonNumber::PosInt(3)))])), ("a", Json::Null)]);
    assert!(matches!(v.get("a"), Some(Json::Object(_))));
    assert!(v.get("c").is_none());
    assert_eq!(v.lookup(&["a", "b"]).and_then(|w| w.as_u64()), Some(3));
    assert!(v.lookup(&["a", "c"]).is_none());
    assert!(matches!(v.lookup(&[]), Some(Json::Object(_))));
    assert_eq!(Json::Number(JsonNumber::NegInt(-3)).as_u64(), None);
    assert_eq!(Json::Number(JsonNumber::Float).as_u64(), None);
    assert!(text("x").as_array().is_none());
    assert_eq!(text("x").as_str().map(|t| t.as_str()), Some("x"));
}

#[test]
fn colors_from_json() {
    assert_eq!(parse_color(&codes(&["W", "U", "G"])), Some(vec![Color::White, Color::Blue, Color::Green]));
    assert_eq!(parse_color(&codes(&[])), Some(vec![]));
    assert_eq!(parse_color(&codes(&["W", "X"])), None);
    assert_eq!(parse_color(&Json::Array(vec![text("W"), Json::Null])), None);
    assert_eq!(parse_color(&text("W")), None);
}

#[test]
fn page_in_stored_order() {
    let v = page("Tymna the Weaver", "Kraum, Ludevic's Opus", Json::Number(JsonNumber::PosInt(1234)));
    let d = parse_json(&v, "Tymna the Weaver", "Kraum, Ludevic's Opus").unwrap();
    assert_eq!(d.deck_count, 1234);
    assert_eq!(d.color_id_0, vec![Color::White, Color::Black]);
    assert_eq!(d.color_id_1, vec![Color::Red]);
    assert_eq!(d.image_url_0, "https://img/0.jpg");
    assert_eq!(d.image_url_1, "https://img/1.jpg");
}

#[test]
fn page_in_reversed_order() {
    let v = page("Kraum, Ludevic's Opus", "Tymna the Weaver", Json::Number(JsonNumber::PosInt(99)));
    let d = parse_json(&v, "Tymna the Weaver", "Kraum, Ludevic's Opus").unwrap();
    assert_eq!(d.deck_count, 99);
    assert_eq!(d.color_id_0, vec![Color::Red]);
    assert_eq!(d.color_id_1, vec![Color::White, Color::Black]);
    assert_eq!(d.image_url_0, "https://img/1.jpg");
    assert_eq!(d.image_url_1, "https://img/0.jpg");
}

#[test]
fn page_refused() {
    let v = page("A", "B", Json::Number(JsonNumber::PosInt(1)));
    assert!(parse_json(&v, "A", "C").is_none());
    let w = page("A", "B", Json::Number(JsonNumber::NegInt(-1)));
    assert!(parse_json(&w, "A", "B").is_none());
    assert!(parse_json(&Json::Null, "A", "B").is_none());
}

#[test]
fn data_block_found() {
    let html = "<html><script id=\"__NEXT_DATA__\" type=\"application/json\">{\"a\":1}</script></html>";
    assert_eq!(extract_data_block(html), Ok(s("{\"a\":1}")));
    assert_eq!(extract_data_block("<html></html>"), Err(WebError::MissingData));
    assert_eq!(data_block(None), Err(WebError::MissingData));
    assert_eq!(data_block(Some(s("x"))), Ok(s("x")));
    assert_eq!(WebError::BadStatus.message(), "Could not reach URL");
    assert_eq!(WebError::MissingData.message(), "Could not find data at URL");
    assert_eq!(WebError::ParseFail.message(), "Could not parse data");
}

#[test]
fn deck_map_read_after_write() {
    let mut m = decks(&[("A", "B", 3), ("C", "D", 5)]);
    assert_eq!(deck_count(&m, &s("A"), &s("B")), Some(3));
    assert_eq!(deck_count(&m, &s("B"), &s("A")), None);
    assert_eq!(record_deck_count(&mut m, s("A"), s("B"), 9), Some(3));
    assert_eq!(deck_count(&m, &s("A"), &s("B")), Some(9));
    assert_eq!(deck_count(&m, &s("C"), &s("D")), Some(5));
    assert_eq!(record_deck_count(&mut m, s("E"), s("F"), 1), None);
    assert_eq!(deck_list(&m), vec![(s("A"), s("B"), 9), (s("C"), s("D"), 5), (s("E"), s("F"), 1)]);
}

#[test]
fn deck_map_pairs_and_bounds() {
    let m = decks(&[("A", "B", 3), ("C", "D", 5), ("B", "C", 2)]);
    assert_eq!(pair_count(&m, &s("A"), &s("B")), 3);
    assert_eq!(pair_count(&m, &s("B"), &s("A")), 3);
    assert_eq!(pair_count(&m, &s("A"), &s("D")), 0);
    assert_eq!(count_bounds(&m), (2, 5));
    assert_eq!(count_bounds(&IndexMap::new()), (u64::MAX, 0));
}

#[test]
fn order_by_totals() {
    let names = vec![s("A"), s("B"), s("C"), s("D")];
    let m = decks(&[("A", "B", 3), ("C", "B", 5), ("D", "A", 3)]);
    assert_eq!(get_order(&names, &m, Counting::X), vec![2, 3, 0, 1]);
    assert_eq!(get_order(&names, &m, Counting::Y), vec![1, 0, 3, 2]);
    assert_eq!(get_order(&names, &m, Counting::Both), vec![1, 0, 2, 3]);
    assert_eq!(try_get_order(&names, &m, Counting::Both), Some(vec![1, 0, 2, 3]));
    assert_eq!(partner_totals(&names, &deck_list(&m), Counting::Both), Some(vec![6, 8, 5, 3]));
}

#[test]
fn order_refusals() {
    let names = vec![s("A"), s("B")];
    let m = decks(&[("A", "Z", 3)]);
    assert!(order_defined(&names, &m, Counting::X));
    assert_eq!(try_get_order(&names, &m, Counting::X), Some(vec![0, 1]));
    assert!(!order_defined(&names, &m, Counting::Y));
    assert_eq!(try_get_order(&names, &m, Counting::Y), None);
    let big = decks(&[("A", "B", u64::MAX), ("B", "A", 1)]);
    assert_eq!(try_get_order(&names, &big, Counting::X), Some(vec![0, 1]));
    assert!(!order_defined(&names, &big, Counting::Both));
    assert_eq!(try_get_order(&names, &big, Counting::Both), None);
}

#[test]
fn names_shadowed_by_later_ones() {
    let names = vec![s("A"), s("B"), s("A")];
    assert_eq!(find_name(&names, &s("A")), Some(2));
    assert_eq!(find_name(&names, &s("B")), Some(1));
    assert_eq!(find_name(&names, &s("C")), None);
}

#[test]
fn sort_ties_by_later_position() {
    assert_eq!(sort_by_totals(&vec![1, 4, 4, 0, 1]), vec![2, 1, 4, 0, 3]);
    assert_eq!(sort_by_totals(&vec![]), Vec::<usize>::new());
}

#[test]
fn grid_plan() {
    let xs = vec![s("A"), s("B")];
    let ys = vec![s("B"), s("C")];
    let m = decks(&[("A", "B", 4), ("C", "A", 10), ("B", "C", 7)]);
    let cells = plan_cells(&xs, &vec![1, 0], &ys, &vec![0, 1], &m);
    assert_eq!(cells.len(), 2);
    assert_eq!(cells[0], vec![CellKind::Diagonal, CellKind::Count { value: 4, shade: Shade::Scaled { above_min: 0, range: 6 } }]);
    assert_eq!(
        cells[1],
        vec![
            CellKind::Count { value: 7, shade: Shade::Scaled { above_min: 3, range: 6 } },
            CellKind::Count { value: 10, shade: Shade::Scaled { above_min: 6, range: 6 } },
        ]
    );
    let none = plan_cells(&xs, &vec![0], &vec![s("Z")], &vec![0], &m);
    assert_eq!(none, vec![vec![CellKind::Count { value: 0, shade: Shade::Missing }]]);
}

#[test]
fn shades() {
    assert_eq!(cell_shade(2, 9, 0), Shade::Missing);
    assert_eq!(cell_shade(2, 9, 5), Shade::Scaled { above_min: 3, range: 7 });
    assert_eq!(cell_shade(4, 4, 4), Shade::Scaled { above_min: 0, range: 0 });
}

#[test]
fn fills() {
    match box_fill(&[]) {
        Fill::Solid(c) => assert_eq!(c, "rgb(204.0, 194.0, 192.0)"),
        Fill::Gradient(_) => panic!("expected a solid fill"),
    }
    match box_fill(&[Color::Blue]) {
        Fill::Solid(c) => assert_eq!(c, "rgb(0, 107, 167)"),
        Fill::Gradient(_) => panic!("expected a solid fill"),
    }
    match box_fill(&[Color::White, Color::Green]) {
        Fill::Gradient(stops) => assert_eq!(stops, vec![s("rgb(245, 241, 237)"), s("rgb(0, 108, 71)")]),
        Fill::Solid(_) => panic!("expected a gradient"),
    }
}

#[test]
fn download_applied_once() {
    let mut m = decks(&[("A", "B", 3)]);
    let mut x_ids = vec![Color::White];
    let mut y_ids = vec![Color::Red];
    let fresh = || ParseData {
        deck_count: 8,
        color_id_0: vec![Color::White, Color::Blue],
        color_id_1: vec![Color::Red],
        image_url_0: s("x"),
        image_url_1: s("y"),
    };
    let want = WebParameters::new(true, true);
    let (changed, old) = apply_download(&mut m, &s("A"), &s("B"), &mut x_ids, &mut y_ids, fresh(), want);
    assert_eq!(old, 3);
    assert!(changed.deck_count && changed.color_id_0 && !changed.color_id_1);
    assert_eq!(deck_count(&m, &s("A"), &s("B")), Some(8));
    assert_eq!(x_ids, vec![Color::White, Color::Blue]);
    assert_eq!(y_ids, vec![Color::Red]);
    let (again, old_again) = apply_download(&mut m, &s("A"), &s("B"), &mut x_ids, &mut y_ids, fresh(), want);
    assert_eq!(old_again, 8);
    assert!(!again.any());
}

#[test]
fn download_only_what_is_asked() {
    let mut m = decks(&[]);
    let mut x_ids = vec![];
    let mut y_ids = vec![];
    let d = ParseData {
        deck_count: 8,
        color_id_0: vec![Color::Black],
        color_id_1: vec![Color::Green],
        image_url_0: s("x"),
        image_url_1: s("y"),
    };
    let (changed, old) =
        apply_download(&mut m, &s("A"), &s("B"), &mut x_ids, &mut y_ids, d, WebParameters::new(false, true));
    assert_eq!(old, 0);
    assert!(!changed.deck_count && changed.color_id_0 && changed.color_id_1);
    assert_eq!(deck_count(&m, &s("A"), &s("B")), None);
    assert_eq!(x_ids, vec![Color::Black]);
    assert_eq!(y_ids, vec![Color::Green]);
}

#[test]
fn image_schedule_rows() {
    let mut sched = ImageSchedule::new();
    sched.start_row();
    assert_eq!(sched.pair_done(), (true, true));
    assert_eq!(sched.pair_done(), (false, true));
    sched.end_row();
    sched.start_row();
    assert_eq!(sched.pair_done(), (true, false));
    assert_eq!(sched.pair_done(), (false, false));
}

#[test]
fn both_sides_sum() {
    let names = vec![s("A"), s("B"), s("C")];
    let m = decks(&[("A", "B", 3), ("B", "A", 4), ("C", "C", 5), ("A", "C", 1)]);
    let list = deck_list(&m);
    let x = partner_totals(&names, &list, Counting::X).unwrap();
    let y = partner_totals(&names, &list, Counting::Y).unwrap();
    let both = partner_totals(&names, &list, Counting::Both).unwrap();
    for i in 0..3 {
        assert_eq!(both[i], x[i] + y[i]);
    }
    assert_eq!(both, vec![8, 7, 11]);
}

#[test]
fn reversed_page_is_switched() {
    let v = page("A", "B", Json::Number(JsonNumber::PosInt(5)));
    let ab = parse_json(&v, "A", "B").unwrap();
    let mut ba = parse_json(&v, "B", "A").unwrap();
    ba.switch();
    assert_eq!(ab.deck_count, ba.deck_count);
    assert_eq!(ab.color_id_0, ba.color_id_0);
    assert_eq!(ab.color_id_1, ba.color_id_1);
    assert_eq!(ab.image_url_0, ba.image_url_0);
    assert_eq!(ab.image_url_1, ba.image_url_1);
}

#[test]
fn rgb_texts() {
    assert_eq!(rgb_css(30, 25, 30), "rgb(30, 25, 30)");
    assert_eq!(rgb_css(0, 255, 7), "rgb(0, 255, 7)");
}

#[test]
fn documents_read() {
    assert!(matches!(read_document("{\"a\": [1, -2, 2.5, \"x\", null, true]}"), Some(Json::Object(_))));
    let v = read_document("{\"a\": [1, -2, 2.5]}").unwrap();
    let items = v.get("a").and_then(|w| w.as_array()).unwrap();
    assert_eq!(items[0].as_u64(), Some(1));
    assert!(matches!(items[1], Json::Number(JsonNumber::NegInt(-2))));
    assert!(matches!(items[2], Json::Number(JsonNumber::Float)));
    assert!(read_document("{").is_none());
    assert!(read_document("").is_none());
}

fn page_text(name_0: &str, name_1: &str) -> String {
    let card = String::new()
        + "{\"cards\":[{\"name\":\""
        + name_0
        + "\",\"color_id\":[\"W\",\"B\"]},{\"name\":\""
        + name_1
        + "\",\"color_id\":[\"R\"]}],\"num_decks\":42,"
        + "\"image_uris\":[{\"art_crop\":\"u0\"},{\"art_crop\":\"u1\"}]}";
    String::new()
        + "<html><script id=\"__NEXT_DATA__\" type=\"application/json\">"
        + "{\"props\":{\"pageProps\":{\"data\":{\"container\":{\"json_dict\":{\"card\":"
        + &card
        + "}}}}}}</script></html>"
}

#[test]
fn whole_page_read() {
    let html = page_text("A", "B");
    let d = read_page(&html, "B", "A").unwrap();
    assert_eq!(d.deck_count, 42);
    assert_eq!(d.color_id_0, vec![Color::Red]);
    assert_eq!(d.color_id_1, vec![Color::White, Color::Black]);
    assert_eq!(d.image_url_0, "u1");
    assert_eq!(d.image_url_1, "u0");
    assert!(matches!(read_page(&html, "A", "C"), Err(WebError::ParseFail)));
    assert!(matches!(read_page("<html></html>", "A", "B"), Err(WebError::MissingData)));
    let broken = "<script id=\"__NEXT_DATA__\" type=\"application/json\">{oops</script>";
    assert!(matches!(read_page(broken, "A", "B"), Err(WebError::ParseFail)));
    assert!(matches!(decode_page(None, "A", "B"), Err(WebError::ParseFail)));
}
