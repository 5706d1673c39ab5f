//! The detail extractor: turns one kanji's page into a full record.
//!
//! Every field is extracted independently and defensively: a missing
//! section, element or attribute never aborts the parse and resolves to an
//! empty or default value. The page's flat section layout (headings and
//! tables as siblings) is walked by heading scans; the kunyomi section and
//! the component pairing inside compound-word examples are small explicit
//! state machines over node lists.

use vstd::prelude::*;

use crate::dom::HtmlNode;
use crate::dom::attr_of;
use crate::dom::after_first;
use crate::dom::copy_chars;
use crate::dom::derefs;
use crate::dom::first_element;
use crate::dom::first_element_from;
use crate::dom::html_of;
use crate::dom::names1;
use crate::dom::no_classes;
use crate::dom::node_name;
use crate::dom::select;
use crate::dom::select_each;
use crate::dom::select_each_from;
use crate::dom::spec_after_first;
use crate::dom::spec_attr;
use crate::dom::spec_html_of;
use crate::dom::spec_select;
use crate::dom::spec_text;
use crate::dom::text_of;
use crate::models::Tag;
use crate::models::TagView;
use crate::text::chars_eq_str;
use crate::text::chars_of;
use crate::text::count_char;
use crate::text::parse_u32_chars;
use crate::text::spec_count;
use crate::text::spec_parse_u32;
use crate::text::spec_remove_all;
use crate::text::spec_split_clean;
use crate::text::spec_trim;
use crate::text::split_clean;
use crate::text::string_from_chars;
use crate::text::remove_all;
use crate::text::trim_chars;

verus! {

/// The star rating encoded in a span's text: the number of filled star
/// glyphs, reduced to a byte, the field width the records use.
pub open spec fn spec_stars(s: Seq<char>) -> u8 {
    (spec_count(s, '★') % 256) as u8
}

/// Executable star count, mirroring [`spec_stars`].
pub fn stars_of(v: &Vec<char>) -> (r: u8)
    ensures
        r == spec_stars(v@),
{
    let n = count_char(v, '★');
    (n % 256) as u8
}

/// An attribute value, or empty when absent.
pub open spec fn attr_or_empty(n: HtmlNode, key: Seq<char>) -> Seq<char> {
    match spec_attr(n, key) {
        Some(s) => s,
        None => Seq::empty(),
    }
}

/// Executable mirror of [`attr_or_empty`].
pub fn get_attr_or_empty(n: &HtmlNode, key: &str) -> (r: Vec<char>)
    ensures
        r@ == attr_or_empty(*n, key@),
{
    match attr_of(n, key) {
        Some(v) => copy_chars(v),
        None => Vec::new(),
    }
}

/// The rank read from the numeric badge: its text with the literal label
/// word removed and the rest trimmed and parsed, defaulting to zero.
pub open spec fn det_index(doc: HtmlNode) -> int {
    let divs = spec_select(doc, seq!["div"@], seq!["col-md-8"@, "text-centered"@]);
    if divs.len() == 0 {
        0
    } else {
        match spec_parse_u32(
            spec_trim(spec_remove_all(spec_trim(spec_text(divs[0])), "Number"@)),
        ) {
            Some(v) => v as int,
            None => 0,
        }
    }
}

/// Executable mirror of [`det_index`].
pub fn extract_index(doc: &HtmlNode) -> (r: u32)
    ensures
        r as int == det_index(*doc),
{
    let div = names1("div");
    let mut cls: Vec<Vec<char>> = Vec::new();
    cls.push(chars_of("col-md-8"));
    cls.push(chars_of("text-centered"));
    proof {
        assert(cls.deep_view() =~~= seq!["col-md-8"@, "text-centered"@]);
    }
    let divs = select(doc, &div, &cls);
    if divs.len() == 0 {
        return 0;
    }
    let raw = text_of(divs[0]);
    let trimmed = trim_chars(&raw);
    let label = chars_of("Number");
    let stripped = remove_all(&trimmed, &label);
    let digits = trim_chars(&stripped);
    match parse_u32_chars(&digits) {
        Some(v) => v,
        None => 0,
    }
}

/// The primary headings of the page.
pub open spec fn det_h1s(doc: HtmlNode) -> Seq<HtmlNode> {
    spec_select(doc, seq!["h1"@], Seq::empty())
}

/// The glyph of the page: within the first heading's glyph element, an
/// embedded image's source wins over the literal text; absences resolve to
/// empty.
pub open spec fn det_kanji(doc: HtmlNode) -> Seq<char> {
    let h1s = det_h1s(doc);
    if h1s.len() == 0 {
        Seq::empty()
    } else {
        let spans = spec_select(h1s[0], seq!["span"@], seq!["kanji_character"@]);
        if spans.len() == 0 {
            Seq::empty()
        } else {
            let imgs = spec_select(spans[0], seq!["img"@], Seq::empty());
            let src = if imgs.len() > 0 {
                spec_attr(imgs[0], "src"@)
            } else {
                None
            };
            match src {
                Some(s) => s,
                None => spec_text(spans[0]),
            }
        }
    }
}

/// Executable mirror of [`det_kanji`].
pub fn extract_kanji(doc: &HtmlNode) -> (r: Vec<char>)
    ensures
        r@ == det_kanji(*doc),
{
    let no_class = no_classes();
    let h1 = names1("h1");
    let h1s = select(doc, &h1, &no_class);
    if h1s.len() == 0 {
        return Vec::new();
    }
    let span = names1("span");
    let span_cls = names1("kanji_character");
    let spans = select(h1s[0], &span, &span_cls);
    if spans.len() == 0 {
        return Vec::new();
    }
    let img = names1("img");
    let imgs = select(spans[0], &img, &no_class);
    if imgs.len() > 0 {
        match attr_of(imgs[0], "src") {
            Some(s) => {
                return copy_chars(s);
            },
            None => {},
        }
    }
    text_of(spans[0])
}

/// The ordered meanings: the heading's translation span, split on the
/// slash, trimmed, empties dropped.
pub open spec fn det_meanings(doc: HtmlNode) -> Seq<Seq<char>> {
    let h1s = det_h1s(doc);
    if h1s.len() == 0 {
        seq![]
    } else {
        let spans = spec_select(h1s[0], seq!["span"@], seq!["translation"@]);
        if spans.len() == 0 {
            seq![]
        } else {
            spec_split_clean(spec_text(spans[0]), '/')
        }
    }
}

/// Executable mirror of [`det_meanings`].
pub fn extract_meanings(doc: &HtmlNode) -> (r: Vec<String>)
    ensures
        r.deep_view() == det_meanings(*doc),
{
    let no_class = no_classes();
    let h1 = names1("h1");
    let h1s = select(doc, &h1, &no_class);
    let mut r: Vec<String> = Vec::new();
    if h1s.len() == 0 {
        proof {
            assert(r.deep_view() =~~= Seq::<Seq<char>>::empty());
        }
        return r;
    }
    let span = names1("span");
    let span_cls = names1("translation");
    let spans = select(h1s[0], &span, &span_cls);
    if spans.len() == 0 {
        proof {
            assert(r.deep_view() =~~= Seq::<Seq<char>>::empty());
        }
        return r;
    }
    let raw = text_of(spans[0]);
    let parts = split_clean(&raw, '/');
    let mut i: usize = 0;
    while i < parts.len()
        invariant
            0 <= i <= parts.len(),
            r.deep_view() =~~= parts.deep_view().subrange(0, i as int),
        decreases parts.len() - i,
    {
        let ghost before = r.deep_view();
        r.push(string_from_chars(&parts[i]));
        proof {
            assert(parts.deep_view()[i as int] == parts[i as int]@);
            assert(r.deep_view() =~~= before + seq![parts[i as int]@]);
        }
        i += 1;
    }
    proof {
        assert(parts.deep_view().subrange(0, parts.deep_view().len() as int) =~~=
            parts.deep_view());
        assert(r.deep_view() =~~= det_meanings(*doc));
    }
    r
}

/// The page-level star rating, from the first rating span; zero when
/// absent.
pub open spec fn det_usefulness(doc: HtmlNode) -> u8 {
    let spans = spec_select(doc, seq!["span"@], seq!["usefulness-stars"@]);
    if spans.len() == 0 {
        0
    } else {
        spec_stars(spec_text(spans[0]))
    }
}

/// Executable mirror of [`det_usefulness`].
pub fn extract_usefulness(doc: &HtmlNode) -> (r: u8)
    ensures
        r == det_usefulness(*doc),
{
    let span = names1("span");
    let cls = names1("usefulness-stars");
    let spans = select(doc, &span, &cls);
    if spans.len() == 0 {
        return 0;
    }
    let t = text_of(spans[0]);
    stars_of(&t)
}

/// The description fragment: the first description block, re-rendered, when
/// present.
pub open spec fn det_description(doc: HtmlNode) -> Option<Seq<char>> {
    let divs = spec_select(doc, seq!["div"@], seq!["description"@]);
    if divs.len() == 0 {
        None
    } else {
        Some(spec_html_of(divs[0]))
    }
}

/// Executable mirror of [`det_description`].
pub fn extract_description(doc: &HtmlNode) -> (r: Option<String>)
    ensures
        crate::models::opt_str_view(r) == det_description(*doc),
{
    let div = names1("div");
    let cls = names1("description");
    let divs = select(doc, &div, &cls);
    if divs.len() == 0 {
        return None;
    }
    let h = html_of(divs[0]);
    Some(string_from_chars(&h))
}

/// The page tags: the labelled anchors of the tag container, each with its
/// reference, or empty when the container is absent.
pub open spec fn det_tags(doc: HtmlNode) -> Seq<TagView> {
    let containers = spec_select(doc, seq!["div"@], seq!["col-md-4"@, "text-righted"@]);
    if containers.len() == 0 {
        seq![]
    } else {
        tags_from(spec_select(containers[0], seq!["a"@], seq!["label"@, "label-info"@]), 0)
    }
}

/// The tag views of the anchors `anchors[i..]`.
pub open spec fn tags_from(anchors: Seq<HtmlNode>, i: int) -> Seq<TagView>
    decreases anchors.len() - i,
{
    if i < 0 || i >= anchors.len() {
        seq![]
    } else {
        seq![TagView { name: spec_text(anchors[i]), link: attr_or_empty(anchors[i], "href"@) }]
            + tags_from(anchors, i + 1)
    }
}

/// The ghost values of a tag vector.
pub open spec fn tag_views(ts: Seq<Tag>) -> Seq<TagView> {
    ts.map_values(|t: Tag| t@)
}

/// Collects the labelled anchors `anchors` into tags, mirroring
/// [`tags_from`].
fn tags_of_anchors(anchors: &Vec<&HtmlNode>) -> (r: Vec<Tag>)
    ensures
        tag_views(r@) == tags_from(derefs(anchors@), 0),
{
    let mut r: Vec<Tag> = Vec::new();
    let mut i: usize = 0;
    while i < anchors.len()
        invariant
            0 <= i <= anchors.len(),
            tag_views(r@) + tags_from(derefs(anchors@), i as int) =~~= tags_from(
                derefs(anchors@),
                0,
            ),
        decreases anchors.len() - i,
    {
        proof {
            assert(derefs(anchors@)[i as int] == *anchors@[i as int]);
        }
        let name = text_of(anchors[i]);
        let link = get_attr_or_empty(anchors[i], "href");
        let ghost before = tag_views(r@);
        r.push(Tag { name: string_from_chars(&name), link: string_from_chars(&link) });
        proof {
            assert(tag_views(r@) =~~= before + seq![
                TagView {
                    name: spec_text(derefs(anchors@)[i as int]),
                    link: attr_or_empty(derefs(anchors@)[i as int], "href"@),
                },
            ]);
        }
        i += 1;
    }
    r
}

/// Executable mirror of [`det_tags`].
pub fn extract_tags(doc: &HtmlNode) -> (r: Vec<Tag>)
    ensures
        tag_views(r@) == det_tags(*doc),
{
    let div = names1("div");
    let mut ccls: Vec<Vec<char>> = Vec::new();
    ccls.push(chars_of("col-md-4"));
    ccls.push(chars_of("text-righted"));
    proof {
        assert(ccls.deep_view() =~~= seq!["col-md-4"@, "text-righted"@]);
    }
    let containers = select(doc, &div, &ccls);
    if containers.len() == 0 {
        let r: Vec<Tag> = Vec::new();
        proof {
            assert(tag_views(r@) =~~= Seq::<TagView>::empty());
        }
        return r;
    }
    let a = names1("a");
    let mut acls: Vec<Vec<char>> = Vec::new();
    acls.push(chars_of("label"));
    acls.push(chars_of("label-info"));
    proof {
        assert(acls.deep_view() =~~= seq!["label"@, "label-info"@]);
    }
    let anchors = select(containers[0], &a, &acls);
    tags_of_anchors(&anchors)
}

/// The breakdown fragment: everything after the first primary heading among
/// its siblings, elements re-rendered and text kept as is.
pub open spec fn det_breakdown(doc: HtmlNode) -> Seq<char> {
    match spec_after_first(doc, "h1"@, None) {
        Some(ns) => breakdown_from(ns, 0),
        None => Seq::empty(),
    }
}

/// The concatenated rendering of the sibling suffix `ns[i..]`.
pub open spec fn breakdown_from(ns: Seq<HtmlNode>, i: int) -> Seq<char>
    decreases ns.len() - i,
{
    if i < 0 || i >= ns.len() {
        Seq::empty()
    } else {
        (match ns[i] {
            HtmlNode::Element { .. } => spec_html_of(ns[i]),
            HtmlNode::Text(t) => t@,
            HtmlNode::Other => Seq::empty(),
        }) + breakdown_from(ns, i + 1)
    }
}

/// Executable mirror of [`det_breakdown`].
pub fn extract_breakdown(doc: &HtmlNode) -> (r: Vec<char>)
    ensures
        r@ == det_breakdown(*doc),
{
    let h1 = names1("h1");
    let h1n = chars_of("h1");
    let none_txt: Option<Vec<char>> = None;
    let suffix = match after_first(doc, &h1n, &none_txt) {
        Some(v) => v,
        None => {
            return Vec::new();
        },
    };
    let ghost ns = derefs(suffix@);
    let mut out: Vec<char> = Vec::new();
    let mut i: usize = 0;
    while i < suffix.len()
        invariant
            0 <= i <= suffix.len(),
            ns == derefs(suffix@),
            out@ + breakdown_from(ns, i as int) =~= breakdown_from(ns, 0),
        decreases suffix.len() - i,
    {
        proof {
            assert(ns[i as int] == *suffix@[i as int]);
        }
        match suffix[i] {
            HtmlNode::Element { .. } => {
                let h = html_of(suffix[i]);
                crate::dom::push_all(&mut out, &h);
            },
            HtmlNode::Text(t) => {
                crate::dom::push_all(&mut out, t);
            },
            HtmlNode::Other => {},
        }
        i += 1;
    }
    out
}

/// The onyomi readings: in the table right after the onyomi heading, the
/// first row's reading cell split on commas, each reading paired with the
/// same second-cell description fragment.
pub open spec fn det_onyomi(doc: HtmlNode) -> Seq<(Seq<char>, Seq<char>)> {
    match spec_after_first(doc, "h2"@, Some("Onyomi"@)) {
        None => seq![],
        Some(ns) => match first_element_from(ns, 0) {
            None => seq![],
            Some(el) => {
                if node_name(el) == "table"@ {
                    let rows = spec_select(el, seq!["tr"@], Seq::empty());
                    if rows.len() == 0 {
                        seq![]
                    } else {
                        let tds = spec_select(rows[0], seq!["td"@], Seq::empty());
                        let spans = select_each_from(tds, 0, seq!["span"@], seq!["onyomi"@]);
                        let reading = if spans.len() > 0 {
                            spec_text(spans[0])
                        } else {
                            Seq::empty()
                        };
                        let desc = if tds.len() > 1 {
                            spec_html_of(tds[1])
                        } else {
                            Seq::empty()
                        };
                        pair_readings(spec_split_clean(reading, ','), desc, 0)
                    }
                } else {
                    seq![]
                }
            },
        },
    }
}

/// Each reading of `rs[i..]` paired with the shared description.
pub open spec fn pair_readings(rs: Seq<Seq<char>>, desc: Seq<char>, i: int) -> Seq<
    (Seq<char>, Seq<char>),
>
    decreases rs.len() - i,
{
    if i < 0 || i >= rs.len() {
        seq![]
    } else {
        seq![(rs[i], desc)] + pair_readings(rs, desc, i + 1)
    }
}

/// The ghost values of reading/description pairs.
pub open spec fn pair_views(ps: Seq<(String, String)>) -> Seq<(Seq<char>, Seq<char>)> {
    ps.map_values(|p: (String, String)| (p.0@, p.1@))
}

/// Executable mirror of [`det_onyomi`]: one entry per comma-separated
/// reading, all sharing the row's description.
pub fn extract_onyomi(doc: &HtmlNode) -> (r: Vec<(String, String)>)
    ensures
        pair_views(r@) == det_onyomi(*doc),
{
    let mut r: Vec<(String, String)> = Vec::new();
    proof {
        assert(pair_views(r@) =~~= Seq::<(Seq<char>, Seq<char>)>::empty());
    }
    let h2 = chars_of("h2");
    let heading: Option<Vec<char>> = Some(chars_of("Onyomi"));
    let suffix = match after_first(doc, &h2, &heading) {
        Some(v) => v,
        None => {
            return r;
        },
    };
    let el = match first_element(&suffix) {
        Some(el) => el,
        None => {
            return r;
        },
    };
    let is_table = match el {
        HtmlNode::Element { name, .. } => chars_eq_str(name, "table"),
        _ => false,
    };
    if !is_table {
        return r;
    }
    let no_class = no_classes();
    let tr = names1("tr");
    let rows = select(el, &tr, &no_class);
    if rows.len() == 0 {
        return r;
    }
    let td = names1("td");
    let tds = select(rows[0], &td, &no_class);
    let span = names1("span");
    let onyomi_cls = names1("onyomi");
    let spans = select_each(&tds, &span, &onyomi_cls);
    let reading: Vec<char> = if spans.len() > 0 {
        text_of(spans[0])
    } else {
        Vec::new()
    };
    let desc: Vec<char> = if tds.len() > 1 {
        html_of(tds[1])
    } else {
        Vec::new()
    };
    let readings = split_clean(&reading, ',');
    let ghost rs = readings.deep_view();
    let desc_s = string_from_chars(&desc);
    let mut i: usize = 0;
    while i < readings.len()
        invariant
            0 <= i <= readings.len(),
            rs == readings.deep_view(),
            desc_s@ == desc@,
            pair_views(r@) + pair_readings(rs, desc@, i as int) =~~= pair_readings(rs, desc@, 0),
        decreases readings.len() - i,
    {
        let ghost before = pair_views(r@);
        r.push((string_from_chars(&readings[i]), desc_s.clone()));
        proof {
            assert(rs[i as int] == readings[i as int]@);
            assert(pair_views(r@) =~~= before + seq![(readings[i as int]@, desc@)]);
        }
        i += 1;
    }
    r
}

/// The stars of a row's first rating span; zero when absent.
pub open spec fn row_stars(row: HtmlNode) -> u8 {
    let spans = spec_select(row, seq!["span"@], seq!["usefulness-stars"@]);
    if spans.len() == 0 {
        0
    } else {
        spec_stars(spec_text(spans[0]))
    }
}

/// Executable mirror of [`row_stars`].
fn stars_of_row(row: &HtmlNode) -> (r: u8)
    ensures
        r == row_stars(*row),
{
    let span = names1("span");
    let cls = names1("usefulness-stars");
    let spans = select(row, &span, &cls);
    if spans.len() == 0 {
        return 0;
    }
    let t = text_of(spans[0]);
    stars_of(&t)
}

/// The gloss text of a kunyomi cell: its direct text children up to (not
/// including) the first labelled element, concatenated.
pub open spec fn meaning_texts(children: Seq<HtmlNode>, i: int) -> Seq<char>
    decreases children.len() - i,
{
    if i < 0 || i >= children.len() {
        Seq::empty()
    } else if children[i] is Element && crate::dom::spec_has_class(children[i], "label"@) {
        Seq::empty()
    } else {
        (match children[i] {
            HtmlNode::Text(t) => t@,
            _ => Seq::empty(),
        }) + meaning_texts(children, i + 1)
    }
}

/// Executable mirror of [`meaning_texts`] over a cell's children.
fn meaning_texts_of(cell: &HtmlNode) -> (r: Vec<char>)
    ensures
        r@ == meaning_texts(crate::dom::node_children(*cell), 0),
{
    let mut out: Vec<char> = Vec::new();
    match cell {
        HtmlNode::Element { children, .. } => {
            let label = chars_of("label");
            let mut i: usize = 0;
            let mut done: bool = false;
            while i < children.len() && !done
                invariant
                    0 <= i <= children.len(),
                    done ==> meaning_texts(children@, i as int) =~= Seq::<char>::empty(),
                    out@ + meaning_texts(children@, i as int) =~= meaning_texts(children@, 0),
                decreases children.len() - i, (if done { 0int } else { 1int }),
            {
                let c = &children[i];
                let is_label = match c {
                    HtmlNode::Element { .. } => crate::dom::has_class(c, &label),
                    _ => false,
                };
                if is_label {
                    done = true;
                } else {
                    match c {
                        HtmlNode::Text(t) => {
                            crate::dom::push_all(&mut out, t);
                        },
                        _ => {},
                    }
                    i += 1;
                }
            }
            out
        },
        _ => out,
    }
}

/// The texts of labelled anchors, used as kunyomi tags.
pub open spec fn label_texts(anchors: Seq<HtmlNode>, i: int) -> Seq<Seq<char>>
    decreases anchors.len() - i,
{
    if i < 0 || i >= anchors.len() {
        seq![]
    } else {
        seq![spec_text(anchors[i])] + label_texts(anchors, i + 1)
    }
}

/// What one row inside the kunyomi section contributes: one entry when the
/// row carries a reading marker and the reading (with its separator stars
/// removed) is non-empty, with the gloss text, label tags and star rating.
pub open spec fn row_kunyomi(row: HtmlNode) -> Option<crate::models::KunyomiView> {
    let spans = spec_select(row, seq!["span"@], seq!["kanji_character"@]);
    if spans.len() == 0 {
        None
    } else {
        let reading = spec_remove_all(spec_text(spans[0]), "*"@);
        if reading.len() == 0 {
            None
        } else {
            let tds = spec_select(row, seq!["td"@], Seq::empty());
            let meaning = if tds.len() > 1 {
                spec_trim(meaning_texts(crate::dom::node_children(tds[1]), 0))
            } else {
                Seq::empty()
            };
            let tags = label_texts(
                select_each_from(tds, 0, seq!["a"@], seq!["label"@]),
                0,
            );
            Some(
                crate::models::KunyomiView {
                    reading: reading,
                    meaning: meaning,
                    tags: tags,
                    usefulness: row_stars(row),
                },
            )
        }
    }
}

/// Executable mirror of [`row_kunyomi`].
fn kunyomi_of_row(row: &HtmlNode) -> (r: Option<crate::models::KunyomiEntry>)
    ensures
        match r {
            Some(k) => row_kunyomi(*row) == Some(k@),
            None => row_kunyomi(*row) is None,
        },
{
    let span = names1("span");
    let kc = names1("kanji_character");
    let spans = select(row, &span, &kc);
    if spans.len() == 0 {
        return None;
    }
    let raw = text_of(spans[0]);
    let star_pat = chars_of("*");
    let reading = remove_all(&raw, &star_pat);
    if reading.len() == 0 {
        return None;
    }
    let no_class = no_classes();
    let td = names1("td");
    let tds = select(row, &td, &no_class);
    let meaning: Vec<char> = if tds.len() > 1 {
        let texts = meaning_texts_of(tds[1]);
        trim_chars(&texts)
    } else {
        Vec::new()
    };
    let a = names1("a");
    let label_cls = names1("label");
    let anchors = select_each(&tds, &a, &label_cls);
    let mut tags: Vec<String> = Vec::new();
    let mut i: usize = 0;
    while i < anchors.len()
        invariant
            0 <= i <= anchors.len(),
            tags.deep_view() + label_texts(derefs(anchors@), i as int) =~~= label_texts(
                derefs(anchors@),
                0,
            ),
        decreases anchors.len() - i,
    {
        proof {
            assert(derefs(anchors@)[i as int] == *anchors@[i as int]);
        }
        let t = text_of(anchors[i]);
        let ghost before = tags.deep_view();
        tags.push(string_from_chars(&t));
        proof {
            assert(tags.deep_view() =~~= before + seq![spec_text(derefs(anchors@)[i as int])]);
        }
        i += 1;
    }
    let stars = stars_of_row(row);
    Some(
        crate::models::KunyomiEntry {
            reading: string_from_chars(&reading),
            meaning: string_from_chars(&meaning),
            tags,
            usefulness: stars,
        },
    )
}

/// The kunyomi entries contributed by the flat heading/row scan from index
/// `i`, given whether the scan is currently inside the kunyomi section: the
/// section opens at the heading that reads exactly like the section name,
/// and the scan stops for good at the compound-words heading.
pub open spec fn kunyomi_scan(ns: Seq<HtmlNode>, i: int, inside: bool) -> Seq<
    crate::models::KunyomiView,
>
    decreases ns.len() - i,
{
    if i < 0 || i >= ns.len() {
        seq![]
    } else if ns[i] is Element && node_name(ns[i]) == "h2"@ {
        if spec_text(ns[i]) == "Kunyomi"@ {
            kunyomi_scan(ns, i + 1, true)
        } else if spec_text(ns[i]) == "Jukugo"@ {
            seq![]
        } else {
            kunyomi_scan(ns, i + 1, inside)
        }
    } else if inside && ns[i] is Element && node_name(ns[i]) == "tr"@ {
        (match row_kunyomi(ns[i]) {
            Some(k) => seq![k],
            None => seq![],
        }) + kunyomi_scan(ns, i + 1, true)
    } else {
        kunyomi_scan(ns, i + 1, inside)
    }
}

/// The ghost values of kunyomi entries.
pub open spec fn kunyomi_views(ks: Seq<crate::models::KunyomiEntry>) -> Seq<
    crate::models::KunyomiView,
> {
    ks.map_values(|k: crate::models::KunyomiEntry| k@)
}

/// The kunyomi list of the page: a single ordered pass over the flat
/// sequence of headings and rows, since sections are siblings demarcated by
/// document order rather than nesting.
pub open spec fn det_kunyomi(doc: HtmlNode) -> Seq<crate::models::KunyomiView> {
    kunyomi_scan(spec_select(doc, seq!["h2"@, "tr"@], Seq::empty()), 0, false)
}

/// Executable mirror of [`det_kunyomi`].
pub fn extract_kunyomi(doc: &HtmlNode) -> (r: Vec<crate::models::KunyomiEntry>)
    ensures
        kunyomi_views(r@) == det_kunyomi(*doc),
{
    let no_class = no_classes();
    let names = crate::dom::names2("h2", "tr");
    let elements = select(doc, &names, &no_class);
    let ghost ns = derefs(elements@);
    let mut r: Vec<crate::models::KunyomiEntry> = Vec::new();
    proof {
        assert(kunyomi_views(r@) =~~= Seq::<crate::models::KunyomiView>::empty());
    }
    let mut inside: bool = false;
    let mut done: bool = false;
    let mut i: usize = 0;
    while i < elements.len() && !done
        invariant
            0 <= i <= elements.len(),
            ns == derefs(elements@),
            done ==> kunyomi_scan(ns, i as int, inside) =~~= Seq::<
                crate::models::KunyomiView,
            >::empty(),
            kunyomi_views(r@) + kunyomi_scan(ns, i as int, inside) =~~= det_kunyomi(*doc),
        decreases elements.len() - i, (if done { 0int } else { 1int }),
    {
        proof {
            assert(ns[i as int] == *elements@[i as int]);
        }
        let e = elements[i];
        let name_is_h2 = match e {
            HtmlNode::Element { name, .. } => chars_eq_str(name, "h2"),
            _ => false,
        };
        let ghost i0 = i as int;
        let ghost ins0 = inside;
        if name_is_h2 {
            let txt = text_of(e);
            if chars_eq_str(&txt, "Kunyomi") {
                inside = true;
                i += 1;
                proof {
                    assert(kunyomi_scan(ns, i0, ins0) == kunyomi_scan(ns, i0 + 1, true));
                }
            } else if chars_eq_str(&txt, "Jukugo") {
                done = true;
                proof {
                    assert(kunyomi_scan(ns, i0, ins0) =~~= Seq::<
                        crate::models::KunyomiView,
                    >::empty());
                }
            } else {
                i += 1;
                proof {
                    assert(kunyomi_scan(ns, i0, ins0) == kunyomi_scan(ns, i0 + 1, ins0));
                }
            }
        } else {
            let name_is_tr = match e {
                HtmlNode::Element { name, .. } => chars_eq_str(name, "tr"),
                _ => false,
            };
            proof {
                assert(!(ns[i0] is Element && node_name(ns[i0]) == "h2"@));
            }
            if inside && name_is_tr {
                match kunyomi_of_row(e) {
                    Some(k) => {
                        let ghost before = kunyomi_views(r@);
                        let ghost kv = k@;
                        r.push(k);
                        proof {
                            assert(kunyomi_views(r@) =~~= before + seq![kv]);
                            assert(kunyomi_scan(ns, i0, ins0) == seq![kv] + kunyomi_scan(
                                ns,
                                i0 + 1,
                                true,
                            ));
                        }
                    },
                    None => {
                        proof {
                            assert(kunyomi_scan(ns, i0, ins0) == kunyomi_scan(ns, i0 + 1, true));
                        }
                    },
                }
            } else {
                proof {
                    assert(!(ins0 && ns[i0] is Element && node_name(ns[i0]) == "tr"@));
                    assert(kunyomi_scan(ns, i0, ins0) == kunyomi_scan(ns, i0 + 1, ins0));
                }
            }
            i += 1;
        }
    }
    r
}

/// The rows of the compound-word definitions tables, in document order.
pub open spec fn det_def_rows(doc: HtmlNode) -> Seq<HtmlNode> {
    select_each_from(
        spec_select(doc, seq!["table"@], seq!["definition"@]),
        0,
        seq!["tr"@],
        Seq::empty(),
    )
}

/// The component pairing inside an example paragraph: a linear scan over
/// the paragraph's direct children that remembers the last component
/// element's glyph and reference, and emits one component when a following
/// text node carries a parenthesized meaning, clearing the remembered
/// state. Unmatched trailing glyphs are dropped.
pub open spec fn components_scan(
    children: Seq<HtmlNode>,
    i: int,
    cur_kanji: Seq<char>,
    cur_href: Seq<char>,
) -> Seq<crate::models::ComponentView>
    decreases children.len() - i,
{
    if i < 0 || i >= children.len() {
        seq![]
    } else {
        match children[i] {
            HtmlNode::Element { .. } => {
                if crate::dom::spec_has_class(children[i], "component"@) {
                    components_scan(
                        children,
                        i + 1,
                        spec_text(children[i]),
                        attr_or_empty(children[i], "href"@),
                    )
                } else {
                    components_scan(children, i + 1, cur_kanji, cur_href)
                }
            },
            HtmlNode::Text(t) => {
                if crate::text::spec_contains_char(t@, '(') && cur_kanji.len() > 0 {
                    seq![
                        crate::models::ComponentView {
                            kanji: cur_kanji,
                            meaning: crate::text::spec_before_first(
                                crate::text::spec_split(t@, '(')[1],
                                ')',
                            ),
                            href: crate::listing::base_url() + cur_href,
                            image_src: None,
                        },
                    ] + components_scan(children, i + 1, Seq::empty(), Seq::empty())
                } else {
                    components_scan(children, i + 1, cur_kanji, cur_href)
                }
            },
            HtmlNode::Other => components_scan(children, i + 1, cur_kanji, cur_href),
        }
    }
}

/// The ghost values of component records.
pub open spec fn component_views(cs: Seq<crate::models::Component>) -> Seq<
    crate::models::ComponentView,
> {
    cs.map_values(|c: crate::models::Component| c@)
}

/// Executable mirror of [`components_scan`] over a paragraph's children.
fn components_of_paragraph(p: &HtmlNode) -> (r: Vec<crate::models::Component>)
    ensures
        component_views(r@) == components_scan(crate::dom::node_children(*p), 0, Seq::empty(), Seq::empty()),
{
    let mut r: Vec<crate::models::Component> = Vec::new();
    proof {
        assert(component_views(r@) =~~= Seq::<crate::models::ComponentView>::empty());
    }
    match p {
        HtmlNode::Element { children, .. } => {
            let component_cls = chars_of("component");
            let mut cur_kanji: Vec<char> = Vec::new();
            let mut cur_href: Vec<char> = Vec::new();
            let mut i: usize = 0;
            while i < children.len()
                invariant
                    0 <= i <= children.len(),
                    component_views(r@) + components_scan(
                        children@,
                        i as int,
                        cur_kanji@,
                        cur_href@,
                    ) =~~= components_scan(children@, 0, Seq::empty(), Seq::empty()),
                decreases children.len() - i,
            {
                let c = &children[i];
                let ghost i0 = i as int;
                let ghost ck0 = cur_kanji@;
                let ghost ch0 = cur_href@;
                match c {
                    HtmlNode::Element { .. } => {
                        if crate::dom::has_class(c, &component_cls) {
                            cur_kanji = text_of(c);
                            cur_href = get_attr_or_empty(c, "href");
                        }
                    },
                    HtmlNode::Text(t) => {
                        if crate::text::contains_char(t, '(') && cur_kanji.len() > 0 {
                            proof {
                                crate::text::lemma_split_contains_len(t@, '(');
                            }
                            let parts = crate::text::split_chars(t, '(');
                            let meaning = crate::text::before_first(&parts[1], ')');
                            let href_full = crate::listing::prefix_base(&cur_href);
                            let ghost before = component_views(r@);
                            let ghost cv = crate::models::ComponentView {
                                kanji: ck0,
                                meaning: crate::text::spec_before_first(
                                    crate::text::spec_split(t@, '(')[1],
                                    ')',
                                ),
                                href: crate::listing::base_url() + ch0,
                                image_src: None,
                            };
                            proof {
                                assert(parts.deep_view()[1] == parts[1]@);
                            }
                            r.push(
                                crate::models::Component {
                                    kanji: string_from_chars(&cur_kanji),
                                    meaning: string_from_chars(&meaning),
                                    href: string_from_chars(&href_full),
                                    image_src: None,
                                },
                            );
                            proof {
                                assert(component_views(r@) =~~= before + seq![cv]);
                            }
                            cur_kanji = Vec::new();
                            cur_href = Vec::new();
                        }
                    },
                    HtmlNode::Other => {},
                }
                i += 1;
            }
            r
        },
        _ => r,
    }
}

/// What one definitions-table row contributes: one compound-word example
/// when the row holds a phonetic annotation element and its glyph text is
/// non-empty; the gloss is the second cell's paragraph text up to the first
/// star, the labels become tags, and the paragraph's components are paired
/// by [`components_scan`].
pub open spec fn row_jukugo(row: HtmlNode) -> Option<crate::models::JukugoView> {
    let rubys = spec_select(row, seq!["ruby"@], Seq::empty());
    if rubys.len() == 0 {
        None
    } else {
        let spans = spec_select(rubys[0], seq!["span"@], seq!["kanji_character"@]);
        let japanese = if spans.len() > 0 {
            spec_text(spans[0])
        } else {
            Seq::empty()
        };
        if japanese.len() == 0 {
            None
        } else {
            let rts = spec_select(rubys[0], seq!["rt"@], Seq::empty());
            let reading = if rts.len() > 0 {
                spec_text(rts[0])
            } else {
                Seq::empty()
            };
            let tds = spec_select(row, seq!["td"@], Seq::empty());
            let english = if tds.len() > 1 {
                let ps = spec_select(tds[1], seq!["p"@], Seq::empty());
                if ps.len() > 0 {
                    spec_trim(crate::text::spec_before_first(spec_text(ps[0]), '★'))
                } else {
                    Seq::empty()
                }
            } else {
                Seq::empty()
            };
            let tags = tags_from(spec_select(row, seq!["a"@], seq!["label"@, "label-info"@]), 0);
            let comps = if tds.len() > 1 {
                let ps = spec_select(tds[1], seq!["p"@], Seq::empty());
                if ps.len() > 0 {
                    components_scan(crate::dom::node_children(ps[0]), 0, Seq::empty(), Seq::empty())
                } else {
                    seq![]
                }
            } else {
                seq![]
            };
            Some(
                crate::models::JukugoView {
                    japanese: japanese,
                    reading: reading,
                    english: english,
                    tags: tags,
                    usefulness: row_stars(row),
                    components: comps,
                },
            )
        }
    }
}

/// Executable mirror of [`row_jukugo`].
fn jukugo_of_row(row: &HtmlNode) -> (r: Option<crate::models::Jukugo>)
    ensures
        match r {
            Some(j) => row_jukugo(*row) == Some(j@),
            None => row_jukugo(*row) is None,
        },
{
    let no_class = no_classes();
    let ruby = names1("ruby");
    let rubys = select(row, &ruby, &no_class);
    if rubys.len() == 0 {
        return None;
    }
    let span = names1("span");
    let kc = names1("kanji_character");
    let spans = select(rubys[0], &span, &kc);
    let japanese: Vec<char> = if spans.len() > 0 {
        text_of(spans[0])
    } else {
        Vec::new()
    };
    if japanese.len() == 0 {
        return None;
    }
    let rt = names1("rt");
    let rts = select(rubys[0], &rt, &no_class);
    let reading: Vec<char> = if rts.len() > 0 {
        text_of(rts[0])
    } else {
        Vec::new()
    };
    let td = names1("td");
    let tds = select(row, &td, &no_class);
    let p = names1("p");
    let english: Vec<char> = if tds.len() > 1 {
        let ps = select(tds[1], &p, &no_class);
        if ps.len() > 0 {
            let raw = text_of(ps[0]);
            let cut = crate::text::before_first(&raw, '★');
            trim_chars(&cut)
        } else {
            Vec::new()
        }
    } else {
        Vec::new()
    };
    let a = names1("a");
    let mut acls: Vec<Vec<char>> = Vec::new();
    acls.push(chars_of("label"));
    acls.push(chars_of("label-info"));
    proof {
        assert(acls.deep_view() =~~= seq!["label"@, "label-info"@]);
    }
    let anchors = select(row, &a, &acls);
    let tags = tags_of_anchors(&anchors);
    let stars = stars_of_row(row);
    let components: Vec<crate::models::Component> = if tds.len() > 1 {
        let ps = select(tds[1], &p, &no_class);
        if ps.len() > 0 {
            components_of_paragraph(ps[0])
        } else {
            Vec::new()
        }
    } else {
        Vec::new()
    };
    proof {
        if components@.len() == 0 {
            assert(component_views(components@) =~~= Seq::<
                crate::models::ComponentView,
            >::empty());
        }
    }
    Some(
        crate::models::Jukugo {
            japanese: string_from_chars(&japanese),
            reading: string_from_chars(&reading),
            english: string_from_chars(&english),
            tags,
            usefulness: stars,
            components,
        },
    )
}

/// The ghost values of compound-word examples.
pub open spec fn jukugo_views(js: Seq<crate::models::Jukugo>) -> Seq<crate::models::JukugoView> {
    js.map_values(|j: crate::models::Jukugo| j@)
}

/// The contributions of the definition rows `rows[i..]`.
pub open spec fn jukugo_from(rows: Seq<HtmlNode>, i: int) -> Seq<crate::models::JukugoView>
    decreases rows.len() - i,
{
    if i < 0 || i >= rows.len() {
        seq![]
    } else {
        (match row_jukugo(rows[i]) {
            Some(j) => seq![j],
            None => seq![],
        }) + jukugo_from(rows, i + 1)
    }
}

/// The compound-word examples of the page.
pub open spec fn det_jukugo(doc: HtmlNode) -> Seq<crate::models::JukugoView> {
    jukugo_from(det_def_rows(doc), 0)
}

/// Executable mirror of [`det_jukugo`].
pub fn extract_jukugo(doc: &HtmlNode) -> (r: Vec<crate::models::Jukugo>)
    ensures
        jukugo_views(r@) == det_jukugo(*doc),
{
    let table = names1("table");
    let def_cls = names1("definition");
    let tables = select(doc, &table, &def_cls);
    let no_class = no_classes();
    let tr = names1("tr");
    let rows = select_each(&tables, &tr, &no_class);
    let ghost rws = derefs(rows@);
    let mut r: Vec<crate::models::Jukugo> = Vec::new();
    proof {
        assert(jukugo_views(r@) =~~= Seq::<crate::models::JukugoView>::empty());
    }
    let mut i: usize = 0;
    while i < rows.len()
        invariant
            0 <= i <= rows.len(),
            rws == derefs(rows@),
            rws == det_def_rows(*doc),
            jukugo_views(r@) + jukugo_from(rws, i as int) =~~= det_jukugo(*doc),
        decreases rows.len() - i,
    {
        proof {
            assert(rws[i as int] == *rows@[i as int]);
        }
        match jukugo_of_row(rows[i]) {
            Some(j) => {
                let ghost before = jukugo_views(r@);
                let ghost jv = j@;
                r.push(j);
                proof {
                    assert(jukugo_views(r@) =~~= before + seq![jv]);
                }
            },
            None => {},
        }
        i += 1;
    }
    r
}

/// The mnemonic fragment: inside the element right after the mnemonic
/// heading, the first paragraph within a table cell, re-rendered.
pub open spec fn det_mnemonic(doc: HtmlNode) -> Option<Seq<char>> {
    match spec_after_first(doc, "h2"@, Some("Mnemonic"@)) {
        None => None,
        Some(ns) => match first_element_from(ns, 0) {
            None => None,
            Some(el) => {
                let ps = select_each_from(
                    select_each_from(
                        spec_select(el, seq!["tr"@], Seq::empty()),
                        0,
                        seq!["td"@],
                        Seq::empty(),
                    ),
                    0,
                    seq!["p"@],
                    Seq::empty(),
                );
                if ps.len() > 0 {
                    Some(spec_html_of(ps[0]))
                } else {
                    None
                }
            },
        },
    }
}

/// Executable mirror of [`det_mnemonic`].
pub fn extract_mnemonic(doc: &HtmlNode) -> (r: Option<String>)
    ensures
        crate::models::opt_str_view(r) == det_mnemonic(*doc),
{
    let h2 = chars_of("h2");
    let heading: Option<Vec<char>> = Some(chars_of("Mnemonic"));
    let suffix = match after_first(doc, &h2, &heading) {
        Some(v) => v,
        None => {
            return None;
        },
    };
    let el = match first_element(&suffix) {
        Some(el) => el,
        None => {
            return None;
        },
    };
    let no_class = no_classes();
    let tr = names1("tr");
    let td = names1("td");
    let p = names1("p");
    let trs = select(el, &tr, &no_class);
    let tds = select_each(&trs, &td, &no_class);
    let ps = select_each(&tds, &p, &no_class);
    if ps.len() == 0 {
        return None;
    }
    let h = html_of(ps[0]);
    Some(string_from_chars(&h))
}

/// The cross-reference anchors of the used-in list.
pub open spec fn det_used_in_anchors(doc: HtmlNode) -> Seq<HtmlNode> {
    select_each_from(
        select_each_from(
            spec_select(doc, seq!["ul"@], seq!["lacidar"@]),
            0,
            seq!["li"@],
            Seq::empty(),
        ),
        0,
        seq!["a"@],
        Seq::empty(),
    )
}

/// One used-in anchor's record: the trimmed anchor text, or when that is
/// empty the anchor's image source resolved against the site root, with the
/// anchor's raw reference.
pub open spec fn used_in_from(anchors: Seq<HtmlNode>, i: int) -> Seq<crate::models::UsedInView>
    decreases anchors.len() - i,
{
    if i < 0 || i >= anchors.len() {
        seq![]
    } else {
        let t = spec_trim(spec_text(anchors[i]));
        let kanji = if t.len() > 0 {
            t
        } else {
            let imgs = spec_select(anchors[i], seq!["img"@], Seq::empty());
            if imgs.len() > 0 {
                match spec_attr(imgs[0], "src"@) {
                    Some(s) => crate::listing::base_url() + s,
                    None => Seq::empty(),
                }
            } else {
                Seq::empty()
            }
        };
        seq![
            crate::models::UsedInView { kanji: kanji, link: attr_or_empty(anchors[i], "href"@) },
        ] + used_in_from(anchors, i + 1)
    }
}

/// The used-in cross references of the page.
pub open spec fn det_used_in(doc: HtmlNode) -> Seq<crate::models::UsedInView> {
    used_in_from(det_used_in_anchors(doc), 0)
}

/// The ghost values of used-in records.
pub open spec fn used_in_views(us: Seq<crate::models::UsedIn>) -> Seq<crate::models::UsedInView> {
    us.map_values(|u: crate::models::UsedIn| u@)
}

/// Executable mirror of [`det_used_in`].
pub fn extract_used_in(doc: &HtmlNode) -> (r: Vec<crate::models::UsedIn>)
    ensures
        used_in_views(r@) == det_used_in(*doc),
{
    let no_class = no_classes();
    let ul = names1("ul");
    let lacidar = names1("lacidar");
    let uls = select(doc, &ul, &lacidar);
    let li = names1("li");
    let lis = select_each(&uls, &li, &no_class);
    let a = names1("a");
    let anchors = select_each(&lis, &a, &no_class);
    let ghost avs = derefs(anchors@);
    let img = names1("img");
    let mut r: Vec<crate::models::UsedIn> = Vec::new();
    proof {
        assert(used_in_views(r@) =~~= Seq::<crate::models::UsedInView>::empty());
    }
    let mut i: usize = 0;
    while i < anchors.len()
        invariant
            0 <= i <= anchors.len(),
            avs == derefs(anchors@),
            used_in_views(r@) + used_in_from(avs, i as int) =~~= used_in_from(avs, 0),
        decreases anchors.len() - i,
    {
        proof {
            assert(avs[i as int] == *anchors@[i as int]);
        }
        let raw = text_of(anchors[i]);
        let t = trim_chars(&raw);
        let kanji: Vec<char> = if t.len() > 0 {
            t
        } else {
            let imgs = select(anchors[i], &img, &no_class);
            if imgs.len() > 0 {
                match attr_of(imgs[0], "src") {
                    Some(s) => crate::listing::prefix_base(s),
                    None => Vec::new(),
                }
            } else {
                Vec::new()
            }
        };
        let link = get_attr_or_empty(anchors[i], "href");
        let ghost before = used_in_views(r@);
        let ghost uv = crate::models::UsedInView {
            kanji: kanji@,
            link: attr_or_empty(avs[i as int], "href"@),
        };
        r.push(
            crate::models::UsedIn {
                kanji: string_from_chars(&kanji),
                link: string_from_chars(&link),
            },
        );
        proof {
            assert(used_in_views(r@) =~~= before + seq![uv]);
        }
        i += 1;
    }
    r
}

/// The rows of the general tables, shared by the synonyms and lookalikes
/// extractions.
pub open spec fn det_table_rows(doc: HtmlNode) -> Seq<HtmlNode> {
    select_each_from(
        spec_select(doc, seq!["table"@], seq!["table"@]),
        0,
        seq!["tr"@],
        Seq::empty(),
    )
}

/// The Japanese half of a synonym row: the node directly after the first
/// line-break element among the cell's children, when it is a text node,
/// trimmed.
pub open spec fn syn_japanese(children: Seq<HtmlNode>, i: int) -> Seq<char>
    decreases children.len() - i,
{
    if i < 0 || i >= children.len() {
        Seq::empty()
    } else if children[i] is Element && node_name(children[i]) == "br"@ {
        if i + 1 < children.len() {
            match children[i + 1] {
                HtmlNode::Text(t) => spec_trim(t@),
                _ => Seq::empty(),
            }
        } else {
            Seq::empty()
        }
    } else {
        syn_japanese(children, i + 1)
    }
}

/// What one table row contributes to the synonyms: the first cell's first
/// anchor text as the English half and the text after the cell's line break
/// as the Japanese half; rows lacking either half are dropped.
pub open spec fn row_synonym(row: HtmlNode) -> Option<crate::models::SynonymView> {
    let tds = spec_select(row, seq!["td"@], Seq::empty());
    if tds.len() == 0 {
        None
    } else {
        let anchors = spec_select(tds[0], seq!["a"@], Seq::empty());
        if anchors.len() == 0 {
            None
        } else {
            let english = spec_trim(spec_text(anchors[0]));
            let japanese = syn_japanese(crate::dom::node_children(tds[0]), 0);
            if english.len() > 0 && japanese.len() > 0 {
                Some(crate::models::SynonymView { japanese: japanese, english: english })
            } else {
                None
            }
        }
    }
}

/// Executable mirror of [`syn_japanese`] over a cell.
fn syn_japanese_of(cell: &HtmlNode) -> (r: Vec<char>)
    ensures
        r@ == syn_japanese(crate::dom::node_children(*cell), 0),
{
    match cell {
        HtmlNode::Element { children, .. } => {
            let mut i: usize = 0;
            while i < children.len()
                invariant
                    0 <= i <= children.len(),
                    syn_japanese(children@, 0) == syn_japanese(children@, i as int),
                decreases children.len() - i,
            {
                let is_br = match &children[i] {
                    HtmlNode::Element { name, .. } => chars_eq_str(name, "br"),
                    _ => false,
                };
                if is_br {
                    if i + 1 < children.len() {
                        match &children[i + 1] {
                            HtmlNode::Text(t) => {
                                return trim_chars(t);
                            },
                            _ => {
                                return Vec::new();
                            },
                        }
                    }
                    return Vec::new();
                }
                i += 1;
            }
            Vec::new()
        },
        _ => Vec::new(),
    }
}

/// Executable mirror of [`row_synonym`].
fn synonym_of_row(row: &HtmlNode) -> (r: Option<crate::models::SynonymEntry>)
    ensures
        match r {
            Some(s) => row_synonym(*row) == Some(s@),
            None => row_synonym(*row) is None,
        },
{
    let no_class = no_classes();
    let td = names1("td");
    let tds = select(row, &td, &no_class);
    if tds.len() == 0 {
        return None;
    }
    let a = names1("a");
    let anchors = select(tds[0], &a, &no_class);
    if anchors.len() == 0 {
        return None;
    }
    let raw = text_of(anchors[0]);
    let english = trim_chars(&raw);
    let japanese = syn_japanese_of(tds[0]);
    if english.len() > 0 && japanese.len() > 0 {
        Some(
            crate::models::SynonymEntry {
                japanese: string_from_chars(&japanese),
                english: string_from_chars(&english),
            },
        )
    } else {
        None
    }
}

/// The contributions of the rows `rows[i..]` to the synonyms.
pub open spec fn synonyms_from(rows: Seq<HtmlNode>, i: int) -> Seq<crate::models::SynonymView>
    decreases rows.len() - i,
{
    if i < 0 || i >= rows.len() {
        seq![]
    } else {
        (match row_synonym(rows[i]) {
            Some(s) => seq![s],
            None => seq![],
        }) + synonyms_from(rows, i + 1)
    }
}

/// The synonym pairs of the page.
pub open spec fn det_synonyms(doc: HtmlNode) -> Seq<crate::models::SynonymView> {
    synonyms_from(det_table_rows(doc), 0)
}

/// The ghost values of synonym entries.
pub open spec fn synonym_views(ss: Seq<crate::models::SynonymEntry>) -> Seq<
    crate::models::SynonymView,
> {
    ss.map_values(|s: crate::models::SynonymEntry| s@)
}

/// Executable mirror of [`det_synonyms`].
pub fn extract_synonyms(doc: &HtmlNode) -> (r: Vec<crate::models::SynonymEntry>)
    ensures
        synonym_views(r@) == det_synonyms(*doc),
{
    let table = names1("table");
    let tcls = names1("table");
    let tables = select(doc, &table, &tcls);
    let no_class = no_classes();
    let tr = names1("tr");
    let rows = select_each(&tables, &tr, &no_class);
    let ghost rws = derefs(rows@);
    let mut r: Vec<crate::models::SynonymEntry> = Vec::new();
    proof {
        assert(synonym_views(r@) =~~= Seq::<crate::models::SynonymView>::empty());
    }
    let mut i: usize = 0;
    while i < rows.len()
        invariant
            0 <= i <= rows.len(),
            rws == derefs(rows@),
            rws == det_table_rows(*doc),
            synonym_views(r@) + synonyms_from(rws, i as int) =~~= det_synonyms(*doc),
        decreases rows.len() - i,
    {
        proof {
            assert(rws[i as int] == *rows@[i as int]);
        }
        match synonym_of_row(rows[i]) {
            Some(s) => {
                let ghost before = synonym_views(r@);
                let ghost sv = s@;
                r.push(s);
                proof {
                    assert(synonym_views(r@) =~~= before + seq![sv]);
                }
            },
            None => {},
        }
        i += 1;
    }
    r
}

/// The navigation anchors under the page header, filtered by column
/// classes.
pub open spec fn nav_anchors(doc: HtmlNode, cls: Seq<Seq<char>>) -> Seq<HtmlNode> {
    select_each_from(
        select_each_from(
            spec_select(doc, seq!["div"@], seq!["navigation-header"@]),
            0,
            seq!["div"@],
            cls,
        ),
        0,
        seq!["a"@],
        Seq::empty(),
    )
}

/// The previous-record link: the first navigation anchor's raw reference.
pub open spec fn det_prev(doc: HtmlNode) -> Option<Seq<char>> {
    let anchors = nav_anchors(doc, seq!["col-md-2"@]);
    if anchors.len() > 0 {
        spec_attr(anchors[0], "href"@)
    } else {
        None
    }
}

/// The next-record link: the first anchor of the right-aligned navigation
/// column.
pub open spec fn det_next(doc: HtmlNode) -> Option<Seq<char>> {
    let anchors = nav_anchors(doc, seq!["col-md-2"@, "text-righted"@]);
    if anchors.len() > 0 {
        spec_attr(anchors[0], "href"@)
    } else {
        None
    }
}

/// Executable navigation-link lookup shared by both directions.
fn extract_nav(doc: &HtmlNode, cls: &Vec<Vec<char>>) -> (r: Option<String>)
    ensures
        crate::models::opt_str_view(r) == (if nav_anchors(*doc, cls.deep_view()).len() > 0 {
            spec_attr(nav_anchors(*doc, cls.deep_view())[0], "href"@)
        } else {
            None
        }),
{
    let no_class = no_classes();
    let div = names1("div");
    let nav_cls = names1("navigation-header");
    let navs = select(doc, &div, &nav_cls);
    let cols = select_each(&navs, &div, cls);
    let a = names1("a");
    let anchors = select_each(&cols, &a, &no_class);
    if anchors.len() == 0 {
        return None;
    }
    match attr_of(anchors[0], "href") {
        Some(h) => Some(string_from_chars(&copy_chars(h))),
        None => None,
    }
}

/// Executable mirror of [`det_prev`].
pub fn extract_prev(doc: &HtmlNode) -> (r: Option<String>)
    ensures
        crate::models::opt_str_view(r) == det_prev(*doc),
{
    let cls = names1("col-md-2");
    extract_nav(doc, &cls)
}

/// Executable mirror of [`det_next`].
pub fn extract_next(doc: &HtmlNode) -> (r: Option<String>)
    ensures
        crate::models::opt_str_view(r) == det_next(*doc),
{
    let cls = crate::dom::names2("col-md-2", "text-righted");
    extract_nav(doc, &cls)
}

/// The glyph of a lookalike anchor: its image's resolved source when the
/// anchor holds an image with a source, else its text.
pub open spec fn anchor_glyph(a: HtmlNode) -> Seq<char> {
    let imgs = spec_select(a, seq!["img"@], Seq::empty());
    if imgs.len() > 0 {
        match spec_attr(imgs[0], "src"@) {
            Some(s) => crate::listing::base_url() + s,
            None => spec_text(a),
        }
    } else {
        spec_text(a)
    }
}

/// Executable mirror of [`anchor_glyph`].
fn glyph_of_anchor(a: &HtmlNode) -> (r: Vec<char>)
    ensures
        r@ == anchor_glyph(*a),
{
    let no_class = no_classes();
    let img = names1("img");
    let imgs = select(a, &img, &no_class);
    if imgs.len() > 0 {
        match attr_of(imgs[0], "src") {
            Some(s) => {
                return crate::listing::prefix_base(s);
            },
            None => {},
        }
    }
    text_of(a)
}

/// What one table row contributes to the lookalikes: for a row with at
/// least four cells, the glyph and link from the first cell's glyph anchor,
/// the meaning and hint texts from the middle cells, and the radical glyph
/// and link from the fourth cell's first anchor.
pub open spec fn row_lookalike(row: HtmlNode) -> Option<crate::models::LookalikeView> {
    let cells = spec_select(row, seq!["td"@], Seq::empty());
    if cells.len() < 4 {
        None
    } else {
        let kanchors = spec_select(cells[0], seq!["a"@], seq!["kanji_character"@]);
        let kanji_link = if kanchors.len() > 0 {
            match spec_attr(kanchors[0], "href"@) {
                Some(h) => crate::listing::base_url() + h,
                None => Seq::empty(),
            }
        } else {
            Seq::empty()
        };
        let kanji = if kanchors.len() > 0 {
            anchor_glyph(kanchors[0])
        } else {
            Seq::empty()
        };
        let ranchors = spec_select(cells[3], seq!["a"@], Seq::empty());
        let radical = if ranchors.len() > 0 {
            anchor_glyph(ranchors[0])
        } else {
            Seq::empty()
        };
        let radical_link = if ranchors.len() > 0 {
            match spec_attr(ranchors[0], "href"@) {
                Some(h) => crate::listing::base_url() + h,
                None => Seq::empty(),
            }
        } else {
            Seq::empty()
        };
        Some(
            crate::models::LookalikeView {
                kanji: kanji,
                kanji_link: kanji_link,
                meaning: spec_text(cells[1]),
                hint: spec_text(cells[2]),
                radical: radical,
                radical_link: radical_link,
            },
        )
    }
}

/// Executable mirror of [`row_lookalike`].
fn lookalike_of_row(row: &HtmlNode) -> (r: Option<crate::models::Lookalike>)
    ensures
        match r {
            Some(l) => row_lookalike(*row) == Some(l@),
            None => row_lookalike(*row) is None,
        },
{
    let no_class = no_classes();
    let td = names1("td");
    let cells = select(row, &td, &no_class);
    if cells.len() < 4 {
        return None;
    }
    let a = names1("a");
    let kc = names1("kanji_character");
    let kanchors = select(cells[0], &a, &kc);
    let kanji_link: Vec<char> = if kanchors.len() > 0 {
        match attr_of(kanchors[0], "href") {
            Some(h) => crate::listing::prefix_base(h),
            None => Vec::new(),
        }
    } else {
        Vec::new()
    };
    let kanji: Vec<char> = if kanchors.len() > 0 {
        glyph_of_anchor(kanchors[0])
    } else {
        Vec::new()
    };
    let ranchors = select(cells[3], &a, &no_class);
    let radical: Vec<char> = if ranchors.len() > 0 {
        glyph_of_anchor(ranchors[0])
    } else {
        Vec::new()
    };
    let radical_link: Vec<char> = if ranchors.len() > 0 {
        match attr_of(ranchors[0], "href") {
            Some(h) => crate::listing::prefix_base(h),
            None => Vec::new(),
        }
    } else {
        Vec::new()
    };
    let meaning = text_of(cells[1]);
    let hint = text_of(cells[2]);
    Some(
        crate::models::Lookalike {
            kanji: string_from_chars(&kanji),
            kanji_link: string_from_chars(&kanji_link),
            meaning: string_from_chars(&meaning),
            hint: string_from_chars(&hint),
            radical: string_from_chars(&radical),
            radical_link: string_from_chars(&radical_link),
        },
    )
}

/// The contributions of the rows `rows[i..]` to the lookalikes.
pub open spec fn lookalikes_from(rows: Seq<HtmlNode>, i: int) -> Seq<crate::models::LookalikeView>
    decreases rows.len() - i,
{
    if i < 0 || i >= rows.len() {
        seq![]
    } else {
        (match row_lookalike(rows[i]) {
            Some(l) => seq![l],
            None => seq![],
        }) + lookalikes_from(rows, i + 1)
    }
}

/// The lookalikes of the page: every general table row after the header
/// row, where qualifying.
pub open spec fn det_lookalikes(doc: HtmlNode) -> Seq<crate::models::LookalikeView> {
    lookalikes_from(det_table_rows(doc), 1)
}

/// The ghost values of lookalike records.
pub open spec fn lookalike_views(ls: Seq<crate::models::Lookalike>) -> Seq<
    crate::models::LookalikeView,
> {
    ls.map_values(|l: crate::models::Lookalike| l@)
}

/// Executable mirror of [`det_lookalikes`].
pub fn extract_lookalikes(doc: &HtmlNode) -> (r: Vec<crate::models::Lookalike>)
    ensures
        lookalike_views(r@) == det_lookalikes(*doc),
{
    let table = names1("table");
    let tcls = names1("table");
    let tables = select(doc, &table, &tcls);
    let no_class = no_classes();
    let tr = names1("tr");
    let rows = select_each(&tables, &tr, &no_class);
    let ghost rws = derefs(rows@);
    let mut r: Vec<crate::models::Lookalike> = Vec::new();
    proof {
        assert(lookalike_views(r@) =~~= Seq::<crate::models::LookalikeView>::empty());
    }
    let mut i: usize = 1;
    if rows.len() == 0 {
        return r;
    }
    while i < rows.len()
        invariant
            1 <= i <= rows.len(),
            rws == derefs(rows@),
            rws == det_table_rows(*doc),
            lookalike_views(r@) + lookalikes_from(rws, i as int) =~~= det_lookalikes(*doc),
        decreases rows.len() - i,
    {
        proof {
            assert(rws[i as int] == *rows@[i as int]);
        }
        match lookalike_of_row(rows[i]) {
            Some(l) => {
                let ghost before = lookalike_views(r@);
                let ghost lv = l@;
                r.push(l);
                proof {
                    assert(lookalike_views(r@) =~~= before + seq![lv]);
                }
            },
            None => {},
        }
        i += 1;
    }
    r
}

/// The full record that the detail extractor yields on a parsed page, a
/// source address and the previously cached practice flag. The flag is
/// written through unchanged: the page itself carries no practice signal.
pub open spec fn detail_of(doc: HtmlNode, url: Seq<char>, practice: bool) -> crate::models::DetailView {
    crate::models::DetailView {
        index: det_index(doc),
        link: url,
        kanji: det_kanji(doc),
        meanings: det_meanings(doc),
        tags: det_tags(doc),
        description: det_description(doc),
        onyomi: det_onyomi(doc),
        kunyomi: det_kunyomi(doc),
        jukugo: det_jukugo(doc),
        mnemonic: det_mnemonic(doc),
        usefulness: det_usefulness(doc),
        used_in: det_used_in(doc),
        synonyms: det_synonyms(doc),
        prev_link: det_prev(doc),
        next_link: det_next(doc),
        breakdown: det_breakdown(doc),
        lookalikes: det_lookalikes(doc),
        practice: practice,
    }
}

/// The detail extractor over a parsed page. Every field is extracted
/// defensively — absences become empty or default values — and the
/// caller-supplied prior practice flag is carried into the record
/// unchanged.
pub fn parse_detail_doc(doc: &HtmlNode, url: &str, prior_practice: bool) -> (r:
    crate::models::KanjiDetail)
    ensures
        r@ == detail_of(*doc, url@, prior_practice),
        r@.practice == prior_practice,
{
    let kanji = extract_kanji(doc);
    let breakdown = extract_breakdown(doc);
    crate::models::KanjiDetail {
        index: extract_index(doc),
        link: url.to_owned(),
        kanji: string_from_chars(&kanji),
        meanings: extract_meanings(doc),
        tags: extract_tags(doc),
        description: extract_description(doc),
        onyomi: extract_onyomi(doc),
        kunyomi: extract_kunyomi(doc),
        jukugo: extract_jukugo(doc),
        mnemonic: extract_mnemonic(doc),
        usefulness: extract_usefulness(doc),
        used_in: extract_used_in(doc),
        synonyms: extract_synonyms(doc),
        prev_link: extract_prev(doc),
        next_link: extract_next(doc),
        breakdown: string_from_chars(&breakdown),
        lookalikes: extract_lookalikes(doc),
        practice: prior_practice,
    }
}

/// Parses the page text and extracts the full record; see
/// [`parse_detail_doc`].
pub fn parse_detail(html: &str, url: &str, prior_practice: bool) -> (r: crate::models::KanjiDetail)
    ensures
        r@ == detail_of(crate::dom::dom_of(html@), url@, prior_practice),
        r@.practice == prior_practice,
{
    let doc = crate::dom::parse_document(html);
    parse_detail_doc(&doc, url, prior_practice)
}

} // verus!
