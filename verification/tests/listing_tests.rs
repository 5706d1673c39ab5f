use kanjidamage::listing::parse_listing_html;

fn page(rows: &str) -> String {
    format!("<html><body><table>{}</table></body></html>", rows)
}

#[test]
fn listing_scenario_single_row() {
    let html = page(
        "<tr><td>5</td><td></td>\
         <td><a href=\"/kanji/5\"><span class=\"kanji_character\">水</span></a></td>\
         <td>water</td></tr>",
    );
    let out = parse_listing_html(&html);
    assert_eq!(out.len(), 1);
    let k = &out[0];
    assert_eq!(k.index, 5);
    assert_eq!(k.kanji, "水");
    assert_eq!(k.meaning, "water");
    assert!(!k.is_radical);
    assert!(!k.has_image);
    assert_eq!(k.link, "https://www.kanjidamage.com/kanji/5");
    assert!(!k.practice);
}

#[test]
fn row_with_fewer_than_four_cells_is_excluded() {
    let html = page(
        "<tr><td>5</td><td><span class=\"kanji_character\">水</span></td><td>water</td></tr>",
    );
    let out = parse_listing_html(&html);
    assert!(out.is_empty());
}

#[test]
fn row_with_empty_meaning_is_excluded() {
    let html = page(
        "<tr><td>5</td><td></td>\
         <td><a href=\"/kanji/5\"><span class=\"kanji_character\">水</span></a></td>\
         <td>   </td></tr>",
    );
    let out = parse_listing_html(&html);
    assert!(out.is_empty());
}

#[test]
fn row_without_link_is_excluded() {
    let html = page(
        "<tr><td>5</td><td></td>\
         <td><span class=\"kanji_character\">水</span></td>\
         <td>water</td></tr>",
    );
    let out = parse_listing_html(&html);
    assert!(out.is_empty());
}

#[test]
fn text_glyph_wins_over_image() {
    let html = page(
        "<tr><td>7</td><td></td>\
         <td><a href=\"/kanji/7\"><span class=\"kanji_character\">火</span>\
         <img src=\"/pic.gif\"></a></td>\
         <td>fire</td></tr>",
    );
    let out = parse_listing_html(&html);
    assert_eq!(out.len(), 1);
    assert_eq!(out[0].kanji, "火");
    assert!(!out[0].has_image);
}

#[test]
fn image_glyph_when_no_text_glyph() {
    let html = page(
        "<tr><td>8</td><td></td>\
         <td><a href=\"/kanji/8\"><img src=\"/pic.gif\"></a></td>\
         <td>picture</td></tr>",
    );
    let out = parse_listing_html(&html);
    assert_eq!(out.len(), 1);
    assert!(out[0].has_image);
    assert_eq!(out[0].kanji, "https://www.kanjidamage.com/pic.gif");
}

#[test]
fn fallback_glyph_is_cell_text_with_synthesized_link() {
    let html = page(
        "<tr><td>9</td><td></td>\
         <td>  raw glyph <a href=\"/kanji/elsewhere\"></a></td>\
         <td>gloss</td></tr>",
    );
    let out = parse_listing_html(&html);
    assert_eq!(out.len(), 1);
    assert!(!out[0].has_image);
    assert_eq!(out[0].kanji, "raw glyph");
    // the fallback link comes from the rank, not from the anchor
    assert_eq!(out[0].link, "https://www.kanjidamage.com/kanji/9");
}

#[test]
fn fallback_row_without_anchor_is_kept() {
    let html = page(
        "<tr><td>12</td><td></td>\
         <td> bare text </td>\
         <td>gloss</td></tr>",
    );
    let out = parse_listing_html(&html);
    assert_eq!(out.len(), 1);
    assert_eq!(out[0].kanji, "bare text");
    assert!(!out[0].has_image);
    assert_eq!(out[0].link, "https://www.kanjidamage.com/kanji/12");
}

#[test]
fn unparsable_index_defaults_to_zero() {
    let html = page(
        "<tr><td>abc</td><td></td>\
         <td><a href=\"/kanji/x\"><span class=\"kanji_character\">水</span></a></td>\
         <td>water</td></tr>",
    );
    let out = parse_listing_html(&html);
    assert_eq!(out.len(), 1);
    assert_eq!(out[0].index, 0);
}

#[test]
fn radical_marker_sets_flag() {
    let html = page(
        "<tr><td>3</td><td><img src=\"/radical.gif\"></td>\
         <td><a href=\"/kanji/3\"><span class=\"kanji_character\">口</span></a></td>\
         <td>mouth</td></tr>",
    );
    let out = parse_listing_html(&html);
    assert_eq!(out.len(), 1);
    assert!(out[0].is_radical);
}

#[test]
fn rows_keep_document_order() {
    let html = page(
        "<tr><td>1</td><td></td>\
         <td><a href=\"/kanji/1\"><span class=\"kanji_character\">一</span></a></td>\
         <td>one</td></tr>\
         <tr><td>2</td><td></td>\
         <td><a href=\"/kanji/2\"><span class=\"kanji_character\">二</span></a></td>\
         <td>two</td></tr>",
    );
    let out = parse_listing_html(&html);
    assert_eq!(out.len(), 2);
    assert_eq!(out[0].index, 1);
    assert_eq!(out[1].index, 2);
}

#[test]
fn malformed_page_yields_empty_listing() {
    let out = parse_listing_html("not really <html at all");
    assert!(out.is_empty());
}
