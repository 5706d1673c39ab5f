use kanjidamage::detail::parse_detail;
use kanjidamage::json::{parse_json, to_pretty, json_get, JsonValue};
use kanjidamage::store::{
    backfill_practice, detail_to_json, empty_document, initialize_practice_pool, kanji_id_of,
    listings_from_json, listings_to_json, prior_practice, save_kanji_data, set_practice_in_details,
    set_practice_in_list,
};

const URL: &str = "https://www.kanjidamage.com/kanji/130";

fn small_detail(kanji: &str, index: u32, practice: bool) -> kanjidamage::models::KanjiDetail {
    let html = format!(
        "<html><body><h1><span class=\"kanji_character\">{}</span></h1>\
         <div class=\"col-md-8 text-centered\">Number {}</div></body></html>",
        kanji, index
    );
    parse_detail(&html, URL, practice)
}

#[test]
fn kanji_id_is_the_last_path_segment() {
    assert_eq!(kanji_id_of("https://www.kanjidamage.com/kanji/130"), "130");
    assert_eq!(kanji_id_of("no-slashes"), "no-slashes");
    assert_eq!(kanji_id_of("trailing/"), "");
}

#[test]
fn merge_write_keeps_every_other_key() {
    let mut doc = empty_document();
    let names = ["one", "two", "three"];
    for (i, name) in names.iter().enumerate() {
        let d = small_detail("金", i as u32, false);
        let rec = detail_to_json(&d);
        save_kanji_data(&mut doc, name.to_string(), rec).expect("merge failed");
    }
    for name in names.iter() {
        assert!(json_get(&doc, name).is_some(), "lost key {}", name);
    }
    // replacing one key leaves the others in place
    let d = small_detail("銀", 9, true);
    let rec = detail_to_json(&d);
    save_kanji_data(&mut doc, "two".to_string(), rec).expect("merge failed");
    for name in names.iter() {
        assert!(json_get(&doc, name).is_some(), "lost key {}", name);
    }
    assert!(prior_practice(&doc, "two"));
    assert!(!prior_practice(&doc, "one"));
}

#[test]
fn merge_write_refuses_a_non_map_document() {
    let mut doc = JsonValue::Array(Vec::new());
    let d = small_detail("金", 1, false);
    let rec = detail_to_json(&d);
    assert!(save_kanji_data(&mut doc, "one".to_string(), rec).is_err());
}

#[test]
fn practice_flag_survives_a_refresh() {
    // cache a record whose flag the user has set
    let mut doc = empty_document();
    let d = small_detail("金", 130, true);
    save_kanji_data(&mut doc, "130".to_string(), detail_to_json(&d)).expect("merge failed");
    // a fresh parse of the page carries the cached flag forward
    let id = kanji_id_of(URL);
    let prior = prior_practice(&doc, id.as_str());
    assert!(prior);
    let refreshed = parse_detail(
        "<html><body><h1><span class=\"kanji_character\">金</span></h1></body></html>",
        URL,
        prior,
    );
    assert!(refreshed.practice);
}

#[test]
fn prior_practice_defaults_to_false() {
    let doc = empty_document();
    assert!(!prior_practice(&doc, "missing"));
}

#[test]
fn backfill_runs_idempotently_byte_for_byte() {
    let text = "{\"a\": {\"index\": 1}, \"b\": {\"index\": 2, \"practice\": true}, \"c\": 7}";
    let doc = parse_json(text).expect("parse failed");
    let once = backfill_practice(doc);
    let first = to_pretty(&once);
    let twice = backfill_practice(once);
    let second = to_pretty(&twice);
    assert_eq!(first, second);
    // a flag that was already set survives the transform
    assert!(prior_practice(&twice, "b"));
    // a record that lacked the flag gains the default
    assert!(!prior_practice(&twice, "a"));
}

#[test]
fn backfill_adds_the_flag_to_records_lacking_it() {
    let text = "{\"a\": {\"index\": 1}}";
    let doc = parse_json(text).expect("parse failed");
    let filled = backfill_practice(doc);
    let a = json_get(&filled, "a").expect("record lost");
    assert!(json_get(a, "practice").is_some());
}

#[test]
fn listing_collection_round_trips_through_json() {
    let html = "<html><body><table>\
        <tr><td>5</td><td></td>\
        <td><a href=\"/kanji/5\"><span class=\"kanji_character\">水</span></a></td>\
        <td>water</td></tr>\
        <tr><td>6</td><td><img src=\"/r.gif\"></td>\
        <td><a href=\"/kanji/6\"><span class=\"kanji_character\">金</span></a></td>\
        <td>gold</td></tr>\
        </table></body></html>";
    let listing = kanjidamage::listing::parse_listing_html(html);
    assert_eq!(listing.len(), 2);
    let doc = listings_to_json(&listing);
    let back = listings_from_json(&doc).expect("round trip failed");
    assert_eq!(back.len(), 2);
    assert!(back[0] == listing[0]);
    assert!(back[1] == listing[1]);
    // and the rendered document parses back to the same value
    let text = to_pretty(&doc);
    let reparsed = parse_json(&text).expect("rendered text must parse");
    let again = listings_from_json(&reparsed).expect("reparse failed");
    assert!(again[0] == listing[0]);
    assert!(again[1] == listing[1]);
}

#[test]
fn set_practice_marks_the_first_matching_list_row() {
    let text = "[{\"index\": 1, \"practice\": false}, {\"index\": 2, \"practice\": false}]";
    let doc = parse_json(text).expect("parse failed");
    let (updated, found) = set_practice_in_list(doc, 2, true).expect("not an array?");
    assert!(found);
    match &updated {
        JsonValue::Array(items) => {
            assert!(json_get(&items[0], "practice").is_some());
            match json_get(&items[1], "practice") {
                Some(JsonValue::Bool(b)) => assert!(*b),
                other => panic!("practice flag wrong: {:?}", other.is_some()),
            }
            match json_get(&items[0], "practice") {
                Some(JsonValue::Bool(b)) => assert!(!*b),
                _ => panic!("first row should be untouched"),
            }
        },
        _ => panic!("document shape changed"),
    }
}

#[test]
fn set_practice_reports_when_no_list_row_matches() {
    let text = "[{\"index\": 1, \"practice\": false}]";
    let doc = parse_json(text).expect("parse failed");
    let (_, found) = set_practice_in_list(doc, 9, true).expect("not an array?");
    assert!(!found);
}

#[test]
fn set_practice_in_details_errors_on_a_missing_index() {
    let text = "{\"a\": {\"index\": 1}}";
    let mut doc = parse_json(text).expect("parse failed");
    assert!(set_practice_in_details(&mut doc, 9, true).is_err());
    assert!(set_practice_in_details(&mut doc, 1, true).is_ok());
    let a = json_get(&doc, "a").expect("record lost");
    match json_get(a, "practice") {
        Some(JsonValue::Bool(b)) => assert!(*b),
        _ => panic!("flag not written"),
    }
}

#[test]
fn set_practice_refuses_wrong_document_shapes() {
    let mut arr = parse_json("[1, 2]").expect("parse failed");
    assert!(set_practice_in_list(parse_json("{}").expect("parse"), 1, true).is_err());
    assert!(set_practice_in_details(&mut arr, 1, true).is_err());
}

#[test]
fn practice_pool_collects_exactly_the_marked_records() {
    let text = "{\
        \"a\": {\"kanji\": \"金\", \"practice\": true, \"onyomi\": [[\"キン, コン\", \"desc\"]]},\
        \"b\": {\"kanji\": \"水\", \"practice\": false},\
        \"c\": {\"kanji\": \"火\", \"practice\": true}\
    }";
    let doc = parse_json(text).expect("parse failed");
    let pool = initialize_practice_pool(&doc).expect("pool failed");
    assert_eq!(pool.len(), 2);
    let mut kanjis: Vec<String> = pool.iter().map(|d| d.kanji.clone()).collect();
    kanjis.sort();
    assert_eq!(kanjis, vec!["火".to_string(), "金".to_string()]);
    let gold = pool.iter().find(|d| d.kanji == "金").expect("missing record");
    // cached onyomi readings are re-split, with the description dropped
    assert_eq!(gold.onyomi.len(), 2);
    assert_eq!(gold.onyomi[0].0, "キン");
    assert_eq!(gold.onyomi[0].1, "");
    assert_eq!(gold.onyomi[1].0, "コン");
    assert!(gold.practice);
}

#[test]
fn practice_pool_refuses_a_non_map_document() {
    let doc = parse_json("[1]").expect("parse failed");
    assert!(initialize_practice_pool(&doc).is_err());
}

#[test]
fn stored_record_carries_every_field() {
    let html = "<html><body>\
        <h1><span class=\"kanji_character\">金</span>\
        <span class=\"translation\">gold / money</span></h1>\
        <div class=\"col-md-8 text-centered\">Number 130</div>\
        <span class=\"usefulness-stars\">★★★★★</span>\
        </body></html>";
    let d = parse_detail(html, URL, true);
    let rec = detail_to_json(&d);
    match json_get(&rec, "index") {
        Some(JsonValue::Int(n)) => assert_eq!(*n, 130),
        _ => panic!("index missing"),
    }
    match json_get(&rec, "kanji") {
        Some(JsonValue::Str(s)) => assert_eq!(s, "金"),
        _ => panic!("kanji missing"),
    }
    match json_get(&rec, "meanings") {
        Some(JsonValue::Array(items)) => assert_eq!(items.len(), 2),
        _ => panic!("meanings missing"),
    }
    match json_get(&rec, "usefulness") {
        Some(JsonValue::Int(n)) => assert_eq!(*n, 5),
        _ => panic!("usefulness missing"),
    }
    match json_get(&rec, "practice") {
        Some(JsonValue::Bool(b)) => assert!(*b),
        _ => panic!("practice missing"),
    }
    match json_get(&rec, "description") {
        Some(JsonValue::Null) => {},
        _ => panic!("absent description should be null"),
    }
}

#[test]
fn stored_record_reads_back_unchanged() {
    let html = "<html><body>\
        <h1><span class=\"kanji_character\">金</span>\
        <span class=\"translation\">gold / money</span></h1>\
        <h2>Onyomi</h2><table><tr>\
        <td><span class=\"onyomi\">キン, コン</span></td><td>metal</td></tr></table>\
        <h2>Kunyomi</h2>\
        <table><tr><td><span class=\"kanji_character\">かね</span></td>\
        <td>money</td><td><span class=\"usefulness-stars\">★★</span></td></tr></table>\
        </body></html>";
    let d = parse_detail(html, URL, true);
    let rec = detail_to_json(&d);
    let back = kanjidamage::store::detail_from_json(&rec).expect("strict read failed");
    assert_eq!(back.kanji, d.kanji);
    assert_eq!(back.meanings, d.meanings);
    assert_eq!(back.onyomi, d.onyomi);
    assert_eq!(back.kunyomi.len(), d.kunyomi.len());
    assert_eq!(back.kunyomi[0].reading, d.kunyomi[0].reading);
    assert_eq!(back.kunyomi[0].usefulness, d.kunyomi[0].usefulness);
    assert_eq!(back.practice, d.practice);
    assert_eq!(back.index, d.index);
    assert_eq!(back.link, d.link);
    // and the same after a trip through the rendered text
    let text = to_pretty(&rec);
    let reparsed = parse_json(&text).expect("rendered text must parse");
    let entry = json_get(&reparsed, "practice").is_some();
    assert!(entry);
    let back2 = kanjidamage::store::detail_from_json(&reparsed).expect("strict reread failed");
    assert_eq!(back2.kanji, d.kanji);
    assert_eq!(back2.onyomi, d.onyomi);
}

#[test]
fn rendering_matches_the_reference_serializer() {
    let text = "{\"b\": 1, \"a\": [true, null, \"x\"]}";
    let doc = parse_json(text).expect("parse failed");
    let ours = to_pretty(&doc);
    let reference: serde_json::Value = serde_json::from_str(text).expect("reference parse");
    let expected = serde_json::to_string_pretty(&reference).expect("reference print");
    assert_eq!(ours, expected);
}

#[test]
fn numbers_outside_signed_64_bits_are_refused() {
    assert!(parse_json("{\"n\": 18446744073709551615}").is_none());
    assert!(parse_json("{\"n\": 1.5}").is_none());
    assert!(parse_json("not json").is_none());
    assert!(parse_json("{\"n\": -3}").is_some());
}
