use kanjidamage::models::{KanjiDatabase, KanjiDatabaseState, KanjiListing, search_kanji};

fn listing(index: i32, kanji: &str, meaning: &str) -> KanjiListing {
    KanjiListing {
        index,
        kanji: kanji.to_string(),
        meaning: meaning.to_string(),
        is_radical: false,
        link: format!("https://www.kanjidamage.com/kanji/{}", index),
        has_image: false,
        practice: false,
    }
}

fn collection() -> Vec<KanjiListing> {
    vec![
        listing(5, "水", "water"),
        listing(6, "金", "gold"),
        listing(7, "火", "fire / watch out"),
    ]
}

#[test]
fn search_by_index_finds_the_first_exact_match() {
    let ks = collection();
    let hit = KanjiListing::search_by_index(&ks, 6).expect("missing");
    assert_eq!(hit.kanji, "金");
    assert!(KanjiListing::search_by_index(&ks, 99).is_none());
}

#[test]
fn search_by_kanji_is_exact() {
    let ks = collection();
    let hit = KanjiListing::search_by_kanji(&ks, "水").expect("missing");
    assert_eq!(hit.index, 5);
    assert!(KanjiListing::search_by_kanji(&ks, "土").is_none());
}

#[test]
fn search_by_meaning_is_a_case_insensitive_substring() {
    let ks = collection();
    let hits = KanjiListing::search_by_meaning(&ks, "WAT");
    assert_eq!(hits.len(), 2);
    assert_eq!(hits[0].index, 5);
    assert_eq!(hits[1].index, 7);
}

#[test]
fn record_matching_two_criteria_appears_once() {
    let ks = collection();
    let hits = KanjiListing::search(&ks, Some(5), None, Some("wat"));
    // index 5 matches both the index and the meaning criterion
    let fives = hits.iter().filter(|k| k.index == 5).count();
    assert_eq!(fives, 1);
    // index 7 matches only the meaning criterion
    assert!(hits.iter().any(|k| k.index == 7));
    assert_eq!(hits.len(), 2);
}

#[test]
fn search_with_no_criteria_is_empty() {
    let ks = collection();
    let hits = KanjiListing::search(&ks, None, None, None);
    assert!(hits.is_empty());
}

#[test]
fn meaning_search_scenario() {
    let ks = vec![listing(5, "水", "water")];
    let hits = KanjiListing::search(&ks, None, None, Some("wat"));
    assert_eq!(hits.len(), 1);
    assert_eq!(hits[0].index, 5);
    assert_eq!(hits[0].kanji, "水");
}

#[test]
fn database_delegates_to_the_listing_search() {
    let db = KanjiDatabase { kanjis: collection() };
    let hits = db.search(None, Some("金"), None);
    assert_eq!(hits.len(), 1);
    assert_eq!(hits[0].meaning, "gold");
}

#[test]
fn shared_state_search_answers_through_the_lock() {
    let state = KanjiDatabaseState::new(KanjiDatabase { kanjis: collection() });
    let hits = search_kanji(&state, Some(7), None, None).expect("lock failed");
    assert_eq!(hits.len(), 1);
    assert_eq!(hits[0].kanji, "火");
    let none = search_kanji(&state, None, None, None).expect("lock failed");
    assert!(none.is_empty());
}
