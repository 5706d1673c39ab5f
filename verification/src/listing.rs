//! The listing extractor: turns the bulk index page into summary rows.
//!
//! Every table row with at least four cells yields at most one listing: the
//! rank is read from the first cell (defaulting to zero when it does not
//! parse), the radical flag from an image marker in the second, the glyph
//! from the third by a three-way precedence (text glyph element, else image
//! reference, else the cell's trimmed text), and the meaning from the fourth
//! cell's first text node. Glyph and image rows resolve their link from the
//! cell's anchor and are dropped when none resolves; fallback text rows need
//! no anchor — their link is synthesized from the rank. Rows with a blank
//! meaning are always dropped; an empty output is valid for a malformed
//! page.

use vstd::prelude::*;

use crate::dom::HtmlNode;
use crate::dom::attr_of;
use crate::dom::dom_of;
use crate::dom::first_text;
use crate::dom::parse_document;
use crate::dom::derefs;
use crate::dom::names1;
use crate::dom::no_classes;
use crate::dom::push_all;
use crate::dom::push_chars;
use crate::dom::select;
use crate::dom::spec_attr;
use crate::dom::spec_first_text;
use crate::dom::spec_select;
use crate::dom::spec_text;
use crate::dom::text_of;
use crate::models::KanjiListing;
use crate::models::ListingView;
use crate::models::listing_views;
use crate::text::i32_dec_chars;
use crate::text::parse_i32_chars;
use crate::text::spec_dec_int;
use crate::text::spec_parse_i32;
use crate::text::spec_trim;
use crate::text::string_from_chars;
use crate::text::trim_chars;

verus! {

/// The site root against which relative links and image sources are
/// resolved.
pub open spec fn base_url() -> Seq<char> {
    "https://www.kanjidamage.com"@
}

/// A relative reference resolved against the site root.
pub fn prefix_base(href: &Vec<char>) -> (r: Vec<char>)
    ensures
        r@ == base_url() + href@,
{
    let mut out: Vec<char> = Vec::new();
    push_chars(&mut out, "https://www.kanjidamage.com");
    push_all(&mut out, href);
    out
}

/// The cells of a listing row.
pub open spec fn row_cells(row: HtmlNode) -> Seq<HtmlNode> {
    spec_select(row, seq!["td"@], Seq::empty())
}

/// The rank read from the first cell: its first text node, trimmed and
/// parsed as a signed integer, with zero for a missing node or a failed
/// parse.
pub open spec fn row_index(row: HtmlNode) -> int {
    match spec_first_text(row_cells(row)[0]) {
        Some(t) => match spec_parse_i32(spec_trim(t)) {
            Some(v) => v as int,
            None => 0,
        },
        None => 0,
    }
}

/// Whether the second cell carries an image marker, which classifies the
/// row as a radical.
pub open spec fn row_is_radical(row: HtmlNode) -> bool {
    spec_select(row_cells(row)[1], seq!["img"@], Seq::empty()).len() > 0
}

/// The link resolved from the third cell's anchor: the first anchor's
/// reference against the site root, or empty when the cell has no anchor or
/// the anchor no reference.
pub open spec fn row_anchor_link(row: HtmlNode) -> Seq<char> {
    let anchors = spec_select(row_cells(row)[2], seq!["a"@], Seq::empty());
    if anchors.len() > 0 {
        match spec_attr(anchors[0], "href"@) {
            Some(h) => base_url() + h,
            None => Seq::empty(),
        }
    } else {
        Seq::empty()
    }
}

/// Whether the row's glyph comes from a glyph element or an image, the two
/// cases that must resolve their link from the cell's anchor.
pub open spec fn row_needs_anchor(row: HtmlNode) -> bool {
    row_glyph_spans(row).len() > 0 || row_glyph_imgs(row).len() > 0
}

/// The link synthesized from the rank, used for fallback text rows, which
/// carry no glyph markup to hang an anchor on.
pub open spec fn row_synth_link(row: HtmlNode) -> Seq<char> {
    base_url() + "/kanji/"@ + spec_dec_int(row_index(row))
}

/// The row's link: resolved from the anchor where the glyph markup demands
/// it, synthesized from the rank for a fallback text row.
pub open spec fn row_link(row: HtmlNode) -> Seq<char> {
    if row_needs_anchor(row) {
        row_anchor_link(row)
    } else {
        row_synth_link(row)
    }
}

/// The text-glyph elements of the third cell.
pub open spec fn row_glyph_spans(row: HtmlNode) -> Seq<HtmlNode> {
    spec_select(row_cells(row)[2], seq!["span"@], seq!["kanji_character"@])
}

/// The images of the third cell.
pub open spec fn row_glyph_imgs(row: HtmlNode) -> Seq<HtmlNode> {
    spec_select(row_cells(row)[2], seq!["img"@], Seq::empty())
}

/// The glyph of the row: the text of the first glyph element when present;
/// else the first image's source resolved against the site root; else the
/// cell's trimmed text.
pub open spec fn row_glyph(row: HtmlNode) -> Seq<char> {
    if row_glyph_spans(row).len() > 0 {
        spec_text(row_glyph_spans(row)[0])
    } else if row_glyph_imgs(row).len() > 0 {
        base_url() + (match spec_attr(row_glyph_imgs(row)[0], "src"@) {
            Some(s) => s,
            None => Seq::empty(),
        })
    } else {
        spec_trim(spec_text(row_cells(row)[2]))
    }
}

/// Whether the glyph is an image reference rather than text.
pub open spec fn row_has_image(row: HtmlNode) -> bool {
    row_glyph_spans(row).len() == 0 && row_glyph_imgs(row).len() > 0
}

/// The meaning read from the fourth cell: its first text node, trimmed, or
/// empty.
pub open spec fn row_meaning(row: HtmlNode) -> Seq<char> {
    match spec_first_text(row_cells(row)[3]) {
        Some(t) => spec_trim(t),
        None => Seq::empty(),
    }
}

/// What one table row contributes to the listing collection: nothing for a
/// row with fewer than four cells, a blank meaning, or — when link
/// resolution is required — an empty link; otherwise one summary record
/// whose practice flag starts false.
pub open spec fn row_listing(row: HtmlNode) -> Option<ListingView> {
    if row_cells(row).len() < 4 {
        None
    } else if row_meaning(row).len() == 0 || (row_needs_anchor(row) && row_anchor_link(row).len()
        == 0) {
        None
    } else {
        Some(
            ListingView {
                index: row_index(row),
                kanji: row_glyph(row),
                meaning: row_meaning(row),
                is_radical: row_is_radical(row),
                link: row_link(row),
                has_image: row_has_image(row),
                practice: false,
            },
        )
    }
}

/// The listings contributed by the rows `rows[i..]`, in document order.
pub open spec fn rows_listings_from(rows: Seq<HtmlNode>, i: int) -> Seq<ListingView>
    decreases rows.len() - i,
{
    if i < 0 || i >= rows.len() {
        seq![]
    } else {
        (match row_listing(rows[i]) {
            Some(v) => seq![v],
            None => seq![],
        }) + rows_listings_from(rows, i + 1)
    }
}

/// What the listing extractor yields on a parsed page: the contributions of
/// every table row, in document order. An empty sequence is valid output on
/// a malformed page.
pub open spec fn listings_of(doc: HtmlNode) -> Seq<ListingView> {
    rows_listings_from(spec_select(doc, seq!["tr"@], Seq::empty()), 0)
}

/// A listing row with fewer than four cells is excluded from the output.
pub proof fn lemma_short_row_excluded(row: HtmlNode)
    requires
        row_cells(row).len() < 4,
    ensures
        row_listing(row) is None,
{
}

/// A listing row whose meaning is blank is excluded, whatever its other
/// fields hold.
pub proof fn lemma_empty_meaning_row_excluded(row: HtmlNode)
    requires
        row_meaning(row).len() == 0,
    ensures
        row_listing(row) is None,
{
}

/// Glyph resolution precedence: when a row holds both a text glyph element
/// and an image, the text wins and the image flag stays clear; when it
/// holds only an image, the glyph is the resolved image reference and the
/// flag is set.
pub proof fn lemma_glyph_precedence(row: HtmlNode)
    requires
        row_listing(row) is Some,
    ensures
        row_glyph_spans(row).len() > 0 ==> row_listing(row)->0.kanji == spec_text(
            row_glyph_spans(row)[0],
        ) && !row_listing(row)->0.has_image,
        row_glyph_spans(row).len() == 0 && row_glyph_imgs(row).len() > 0 ==> row_listing(
            row,
        )->0.has_image && row_listing(row)->0.kanji == base_url() + (match spec_attr(
            row_glyph_imgs(row)[0],
            "src"@,
        ) {
            Some(s) => s,
            None => Seq::empty(),
        }),
{
}

/// Every emitted listing comes from a row with at least four cells, carries
/// a non-blank meaning and a non-empty link, and starts unmarked for
/// practice.
pub proof fn lemma_included_row_shape(row: HtmlNode)
    requires
        row_listing(row) is Some,
    ensures
        row_cells(row).len() >= 4,
        row_listing(row)->0.meaning.len() > 0,
        row_listing(row)->0.link.len() > 0,
        !row_listing(row)->0.practice,
{
    if !row_needs_anchor(row) {
        assert(spec_dec_int(row_index(row)).len() >= 1);
    }
}

/// A fallback text row — one whose glyph cell holds neither a glyph element
/// nor an image — is never dropped for want of an anchor: its link is
/// synthesized from the rank.
pub proof fn lemma_fallback_link_synthesized(row: HtmlNode)
    requires
        row_cells(row).len() >= 4,
        row_meaning(row).len() > 0,
        !row_needs_anchor(row),
    ensures
        row_listing(row) is Some,
        row_listing(row)->0.link == base_url() + "/kanji/"@ + spec_dec_int(row_index(row)),
        row_listing(row)->0.kanji == spec_trim(spec_text(row_cells(row)[2])),
        !row_listing(row)->0.has_image,
{
}

/// Every listing in the extractor's output qualifies: it carries a
/// non-blank meaning, a non-empty link and a clear practice flag, because
/// rows with fewer than four cells, a blank meaning or an unresolvable link
/// contribute nothing.
pub proof fn lemma_output_rows_qualify(doc: HtmlNode)
    ensures
        forall|v: ListingView|
            listings_of(doc).contains(v) ==> v.meaning.len() > 0 && v.link.len() > 0
                && !v.practice,
{
    lemma_rows_qualify_from(spec_select(doc, seq!["tr"@], Seq::empty()), 0);
}

proof fn lemma_rows_qualify_from(rows: Seq<HtmlNode>, i: int)
    ensures
        forall|v: ListingView|
            rows_listings_from(rows, i).contains(v) ==> v.meaning.len() > 0 && v.link.len() > 0
                && !v.practice,
    decreases rows.len() - i,
{
    if 0 <= i < rows.len() {
        lemma_rows_qualify_from(rows, i + 1);
        assert forall|v: ListingView|
            rows_listings_from(rows, i).contains(v) implies v.meaning.len() > 0 && v.link.len()
            > 0 && !v.practice by {
            let here = match row_listing(rows[i]) {
                Some(w) => seq![w],
                None => seq![],
            };
            let j = choose|j: int|
                0 <= j < rows_listings_from(rows, i).len() && rows_listings_from(rows, i)[j] == v;
            if j < here.len() {
                lemma_included_row_shape(rows[i]);
            } else {
                assert(rows_listings_from(rows, i + 1)[j - here.len()] == v);
                assert(rows_listings_from(rows, i + 1).contains(v));
            }
        }
    }
}

/// What one row yields, mirroring [`row_listing`].
fn listing_of_row(row: &HtmlNode) -> (r: Option<KanjiListing>)
    ensures
        match r {
            Some(k) => row_listing(*row) == Some(k@),
            None => row_listing(*row) is None,
        },
{
    let no_class = no_classes();
    let td = names1("td");
    let tds = select(row, &td, &no_class);
    if tds.len() < 4 {
        return None;
    }
    proof {
        assert(derefs(tds@) == row_cells(*row));
        assert(*tds@[0] == row_cells(*row)[0]);
        assert(*tds@[1] == row_cells(*row)[1]);
        assert(*tds@[2] == row_cells(*row)[2]);
        assert(*tds@[3] == row_cells(*row)[3]);
    }

    let index: i32 = match first_text(tds[0]) {
        Some(t) => {
            let trimmed = trim_chars(&t);
            match parse_i32_chars(&trimmed) {
                Some(v) => v,
                None => 0,
            }
        },
        None => 0,
    };
    proof {
        assert(index as int == row_index(*row));
    }

    let img = names1("img");
    let radical_imgs = select(tds[1], &img, &no_class);
    let is_radical = radical_imgs.len() > 0;
    proof {
        assert(is_radical == row_is_radical(*row));
    }

    let span = names1("span");
    let span_cls = names1("kanji_character");
    let glyph_spans = select(tds[2], &span, &span_cls);
    let glyph_imgs = select(tds[2], &img, &no_class);
    let needs_anchor = glyph_spans.len() > 0 || glyph_imgs.len() > 0;
    proof {
        assert(needs_anchor == row_needs_anchor(*row));
    }

    let link: Vec<char> = if needs_anchor {
        let a = names1("a");
        let anchors = select(tds[2], &a, &no_class);
        let resolved: Vec<char> = if anchors.len() > 0 {
            match attr_of(anchors[0], "href") {
                Some(h) => prefix_base(h),
                None => Vec::new(),
            }
        } else {
            Vec::new()
        };
        proof {
            assert(resolved@ == row_anchor_link(*row));
        }
        if resolved.len() == 0 {
            return None;
        }
        resolved
    } else {
        let digits = i32_dec_chars(index);
        let mut synth: Vec<char> = Vec::new();
        crate::dom::push_chars(&mut synth, "https://www.kanjidamage.com");
        crate::dom::push_chars(&mut synth, "/kanji/");
        push_all(&mut synth, &digits);
        proof {
            assert(synth@ =~= row_synth_link(*row));
        }
        synth
    };
    proof {
        assert(link@ == row_link(*row));
    }

    let kanji: Vec<char>;
    let has_image: bool;
    if glyph_spans.len() > 0 {
        kanji = text_of(glyph_spans[0]);
        has_image = false;
    } else if glyph_imgs.len() > 0 {
        let src: Vec<char> = match attr_of(glyph_imgs[0], "src") {
            Some(s) => {
                let mut copy: Vec<char> = Vec::new();
                push_all(&mut copy, s);
                copy
            },
            None => Vec::new(),
        };
        kanji = prefix_base(&src);
        has_image = true;
    } else {
        let raw = text_of(tds[2]);
        kanji = trim_chars(&raw);
        has_image = false;
    }
    proof {
        assert(kanji@ == row_glyph(*row));
        assert(has_image == row_has_image(*row));
    }

    let meaning: Vec<char> = match first_text(tds[3]) {
        Some(t) => trim_chars(&t),
        None => Vec::new(),
    };
    proof {
        assert(meaning@ == row_meaning(*row));
    }

    if meaning.len() == 0 {
        return None;
    }
    Some(
        KanjiListing {
            index,
            kanji: string_from_chars(&kanji),
            meaning: string_from_chars(&meaning),
            is_radical,
            link: string_from_chars(&link),
            has_image,
            practice: false,
        },
    )
}

/// The listing extractor over a parsed page, mirroring [`listings_of`]:
/// scans the table rows in document order and keeps each qualifying row's
/// summary record.
pub fn parse_listing(doc: &HtmlNode) -> (r: Vec<KanjiListing>)
    ensures
        listing_views(r@) == listings_of(*doc),
{
    let no_class = no_classes();
    let tr = names1("tr");
    let rows = select(doc, &tr, &no_class);
    let ghost rws = derefs(rows@);
    let mut out: Vec<KanjiListing> = Vec::new();
    let mut i: usize = 0;
    while i < rows.len()
        invariant
            0 <= i <= rows.len(),
            rws == derefs(rows@),
            rws == spec_select(*doc, seq!["tr"@], Seq::<Seq<char>>::empty()),
            listing_views(out@) + rows_listings_from(rws, i as int) =~= listings_of(*doc),
        decreases rows.len() - i,
    {
        proof {
            assert(*rows@[i as int] == rws[i as int]);
        }
        match listing_of_row(rows[i]) {
            Some(k) => {
                let ghost before = out@;
                out.push(k);
                proof {
                    assert(listing_views(out@) =~= listing_views(before) + seq![k@]);
                }
            },
            None => {},
        }
        i += 1;
    }
    out
}

/// Parses the page text and extracts the listing collection.
pub fn parse_listing_html(html: &str) -> (r: Vec<KanjiListing>)
    ensures
        listing_views(r@) == listings_of(dom_of(html@)),
{
    let doc = parse_document(html);
    parse_listing(&doc)
}

} // verus!
