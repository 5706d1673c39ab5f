use kanjidamage::detail::parse_detail;

const URL: &str = "https://www.kanjidamage.com/kanji/130-gold-金";

fn detail_page(body: &str) -> String {
    format!("<html><body>{}</body></html>", body)
}

#[test]
fn onyomi_fan_out_shares_description() {
    let html = detail_page(
        "<h2>Onyomi</h2><table><tr>\
         <td><span class=\"onyomi\">キン, コン</span></td>\
         <td>metal</td></tr></table>",
    );
    let d = parse_detail(&html, URL, false);
    assert_eq!(d.onyomi.len(), 2);
    assert_eq!(d.onyomi[0].0, "キン");
    assert_eq!(d.onyomi[1].0, "コン");
    assert_eq!(d.onyomi[0].1, d.onyomi[1].1);
    assert!(d.onyomi[0].1.contains("metal"));
}

#[test]
fn practice_flag_is_carried_from_the_cache() {
    let html = detail_page("<h1><span class=\"kanji_character\">金</span></h1>");
    let with = parse_detail(&html, URL, true);
    assert!(with.practice);
    let without = parse_detail(&html, URL, false);
    assert!(!without.practice);
}

#[test]
fn meanings_split_on_slash() {
    let html = detail_page(
        "<h1><span class=\"kanji_character\">金</span>\
         <span class=\"translation\"> gold / money /  </span></h1>",
    );
    let d = parse_detail(&html, URL, false);
    assert_eq!(d.meanings, vec!["gold".to_string(), "money".to_string()]);
    assert_eq!(d.kanji, "金");
    assert_eq!(d.link, URL);
}

#[test]
fn glyph_prefers_embedded_image_source() {
    let html = detail_page(
        "<h1><span class=\"kanji_character\"><img src=\"/glyph.gif\">金</span></h1>",
    );
    let d = parse_detail(&html, URL, false);
    assert_eq!(d.kanji, "/glyph.gif");
}

#[test]
fn index_badge_is_parsed() {
    let html = detail_page(
        "<div class=\"col-md-8 text-centered\"> Number 130 </div>",
    );
    let d = parse_detail(&html, URL, false);
    assert_eq!(d.index, 130);
}

#[test]
fn usefulness_counts_stars() {
    let html = detail_page("<span class=\"usefulness-stars\">★★★</span>");
    let d = parse_detail(&html, URL, false);
    assert_eq!(d.usefulness, 3);
}

#[test]
fn kunyomi_section_stops_at_compound_words() {
    let html = detail_page(
        "<h2>Kunyomi</h2>\
         <table><tr><td><span class=\"kanji_character\">かね*</span></td>\
         <td>money <a class=\"label\" href=\"/t\">tag1</a></td>\
         <td><span class=\"usefulness-stars\">★★</span></td></tr></table>\
         <h2>Jukugo</h2>\
         <table><tr><td><span class=\"kanji_character\">ignored</span></td><td>x</td></tr></table>",
    );
    let d = parse_detail(&html, URL, false);
    assert_eq!(d.kunyomi.len(), 1);
    assert_eq!(d.kunyomi[0].reading, "かね");
    assert_eq!(d.kunyomi[0].meaning, "money");
    assert_eq!(d.kunyomi[0].tags, vec!["tag1".to_string()]);
    assert_eq!(d.kunyomi[0].usefulness, 2);
}

#[test]
fn rows_before_the_kunyomi_heading_are_ignored() {
    let html = detail_page(
        "<table><tr><td><span class=\"kanji_character\">まえ</span></td></tr></table>\
         <h2>Kunyomi</h2>\
         <table><tr><td><span class=\"kanji_character\">あと</span></td></tr></table>",
    );
    let d = parse_detail(&html, URL, false);
    assert_eq!(d.kunyomi.len(), 1);
    assert_eq!(d.kunyomi[0].reading, "あと");
}

#[test]
fn jukugo_row_with_components() {
    let html = detail_page(
        "<table class=\"definition\"><tr>\
         <td><ruby><span class=\"kanji_character\">お金</span><rt>おかね</rt></ruby></td>\
         <td><p>money ★★★ <a class=\"component\" href=\"/kanji/130\">金</a> (gold) and more</p>\
         <a class=\"label label-info\" href=\"/tags/common\">common</a>\
         <span class=\"usefulness-stars\">★★★</span></td>\
         </tr></table>",
    );
    let d = parse_detail(&html, URL, false);
    assert_eq!(d.jukugo.len(), 1);
    let j = &d.jukugo[0];
    assert_eq!(j.japanese, "お金");
    assert_eq!(j.reading, "おかね");
    assert_eq!(j.english, "money");
    assert_eq!(j.usefulness, 3);
    assert_eq!(j.tags.len(), 1);
    assert_eq!(j.tags[0].name, "common");
    assert_eq!(j.components.len(), 1);
    assert_eq!(j.components[0].kanji, "金");
    assert_eq!(j.components[0].meaning, "gold");
    assert_eq!(j.components[0].href, "https://www.kanjidamage.com/kanji/130");
    assert!(j.components[0].image_src.is_none());
}

#[test]
fn component_without_following_meaning_is_dropped() {
    let html = detail_page(
        "<table class=\"definition\"><tr>\
         <td><ruby><span class=\"kanji_character\">語</span><rt>ご</rt></ruby></td>\
         <td><p>word <a class=\"component\" href=\"/kanji/1\">言</a> no parens here</p></td>\
         </tr></table>",
    );
    let d = parse_detail(&html, URL, false);
    assert_eq!(d.jukugo.len(), 1);
    assert!(d.jukugo[0].components.is_empty());
}

#[test]
fn description_is_rendered_with_escapes() {
    let html = detail_page("<div class=\"description\">a &lt; b</div>");
    let d = parse_detail(&html, URL, false);
    let desc = d.description.expect("description missing");
    assert!(desc.contains("&lt;"));
    assert!(desc.starts_with("<div"));
}

#[test]
fn mnemonic_is_read_from_the_section_after_its_heading() {
    let html = detail_page(
        "<h2>Mnemonic</h2><table><tr><td><p>shiny bars</p></td></tr></table>",
    );
    let d = parse_detail(&html, URL, false);
    let m = d.mnemonic.expect("mnemonic missing");
    assert!(m.contains("shiny bars"));
}

#[test]
fn used_in_reads_text_or_image() {
    let html = detail_page(
        "<ul class=\"lacidar\">\
         <li><a href=\"/kanji/a\">鐘</a></li>\
         <li><a href=\"/kanji/b\"><img src=\"/b.gif\"></a></li>\
         </ul>",
    );
    let d = parse_detail(&html, URL, false);
    assert_eq!(d.used_in.len(), 2);
    assert_eq!(d.used_in[0].kanji, "鐘");
    assert_eq!(d.used_in[0].link, "/kanji/a");
    assert_eq!(d.used_in[1].kanji, "https://www.kanjidamage.com/b.gif");
}

#[test]
fn synonyms_pair_anchor_text_with_text_after_break() {
    let html = detail_page(
        "<table class=\"table\">\
         <tr><td><a href=\"/x\">golden</a><br>金色</td></tr>\
         <tr><td><a href=\"/y\">no pair</a></td></tr>\
         </table>",
    );
    let d = parse_detail(&html, URL, false);
    assert_eq!(d.synonyms.len(), 1);
    assert_eq!(d.synonyms[0].english, "golden");
    assert_eq!(d.synonyms[0].japanese, "金色");
}

#[test]
fn navigation_links_are_raw_references() {
    let html = detail_page(
        "<div class=\"navigation-header\">\
         <div class=\"col-md-2\"><a href=\"/kanji/129\">prev</a></div>\
         <div class=\"col-md-2 text-righted\"><a href=\"/kanji/131\">next</a></div>\
         </div>",
    );
    let d = parse_detail(&html, URL, false);
    assert_eq!(d.prev_link.as_deref(), Some("/kanji/129"));
    assert_eq!(d.next_link.as_deref(), Some("/kanji/131"));
}

#[test]
fn lookalikes_skip_the_header_row() {
    let html = detail_page(
        "<table class=\"table\">\
         <tr><td>Kanji</td><td>Meaning</td><td>Hint</td><td>Radical</td></tr>\
         <tr><td><a class=\"kanji_character\" href=\"/kanji/q\">全</a></td>\
         <td>whole</td><td>hat on a king</td>\
         <td><a href=\"/kanji/r\">王</a></td></tr>\
         </table>",
    );
    let d = parse_detail(&html, URL, false);
    assert_eq!(d.lookalikes.len(), 1);
    let l = &d.lookalikes[0];
    assert_eq!(l.kanji, "全");
    assert_eq!(l.kanji_link, "https://www.kanjidamage.com/kanji/q");
    assert_eq!(l.meaning, "whole");
    assert_eq!(l.hint, "hat on a king");
    assert_eq!(l.radical, "王");
    assert_eq!(l.radical_link, "https://www.kanjidamage.com/kanji/r");
}

#[test]
fn breakdown_collects_everything_after_the_heading() {
    let html = detail_page(
        "<h1><span class=\"kanji_character\">金</span></h1> glue \
         <a href=\"/kanji/1\">人</a> more",
    );
    let d = parse_detail(&html, URL, false);
    assert!(d.breakdown.contains("glue"));
    assert!(d.breakdown.contains("<a href=\"/kanji/1\">人</a>"));
    assert!(d.breakdown.contains("more"));
}

#[test]
fn absences_resolve_to_defaults() {
    let d = parse_detail("<html><body></body></html>", URL, false);
    assert_eq!(d.index, 0);
    assert_eq!(d.kanji, "");
    assert!(d.meanings.is_empty());
    assert!(d.tags.is_empty());
    assert!(d.description.is_none());
    assert!(d.onyomi.is_empty());
    assert!(d.kunyomi.is_empty());
    assert!(d.jukugo.is_empty());
    assert!(d.mnemonic.is_none());
    assert_eq!(d.usefulness, 0);
    assert!(d.used_in.is_empty());
    assert!(d.synonyms.is_empty());
    assert!(d.prev_link.is_none());
    assert!(d.next_link.is_none());
    assert_eq!(d.breakdown, "");
    assert!(d.lookalikes.is_empty());
}
