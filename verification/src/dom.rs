//! A plain model of parsed HTML documents.
//!
//! An outside HTML parser turns document text into a node tree; a thin
//! trusted layer carries that tree over into [`HtmlNode`], node by node.
//! Everything that reads the tree — text collection, attribute lookup,
//! class matching, descendant selection, heading scans and re-serialization
//! of rich-text fragments — is specified and verified here.

use vstd::prelude::*;

use crate::text::chars_of;
use crate::text::chars_eq;
use crate::text::chars_eq_str;


verus! {

broadcast use vstd::std_specs::vec::group_vec_axioms;

/// One node of a parsed HTML document: an element with its name, attributes
/// and children in document order, a text node, or a marker for anything
/// else (comments, doctypes, processing instructions), which the extraction
/// rules ignore.
pub enum HtmlNode {
    Element { name: Vec<char>, attrs: Vec<(Vec<char>, Vec<char>)>, children: Vec<HtmlNode> },
    Text(Vec<char>),
    Other,
}

/// The node tree that the HTML parser yields on a document text: a function
/// of the text alone. The root stands for the document; its children are the
/// document's top-level nodes.
pub uninterp spec fn dom_of(html: Seq<char>) -> HtmlNode;

/// Relies on `scraper::Html::parse_document` (html5ever): parsing does not
/// fail and is a pure function of the document text. The parsed tree is
/// carried over node by node by [`convert_node`].
#[verifier::external_body]
pub fn parse_document(html: &str) -> (r: HtmlNode)
    ensures
        r == dom_of(html@),
{
    let doc = scraper::Html::parse_document(html);
    HtmlNode::Element {
        name: chars_of("#document"),
        attrs: Vec::new(),
        children: doc.tree.root().children().map(convert_node).collect(),
    }
}

#[verifier::external_type_specification]
#[verifier::external_body]
#[verifier::reject_recursive_types(T)]
pub struct ExNodeRef<'a, T: 'a>(ego_tree::NodeRef<'a, T>);

#[verifier::external_type_specification]
#[verifier::external_body]
pub struct ExScraperNode(scraper::Node);

/// Relies on `ego_tree::NodeRef::{value, children}` and scraper's
/// `Element::{name, attrs}` and `Text`: carries one parsed node and its
/// descendants over, variant by variant, keeping document order.
#[verifier::external_body]
fn convert_node(n: ego_tree::NodeRef<'_, scraper::Node>) -> (r: HtmlNode) {
    match n.value() {
        scraper::Node::Element(e) => HtmlNode::Element {
            name: chars_of(e.name()),
            attrs: e.attrs().map(|(k, v)| (chars_of(k), chars_of(v))).collect(),
            children: n.children().map(convert_node).collect(),
        },
        scraper::Node::Text(t) => HtmlNode::Text(chars_of(&t.text)),
        _ => HtmlNode::Other,
    }
}

/// The element name, or empty for non-elements.
pub open spec fn node_name(n: HtmlNode) -> Seq<char> {
    match n {
        HtmlNode::Element { name, .. } => name@,
        _ => Seq::empty(),
    }
}

/// The children in document order, or empty for non-elements.
pub open spec fn node_children(n: HtmlNode) -> Seq<HtmlNode> {
    match n {
        HtmlNode::Element { children, .. } => children@,
        _ => Seq::empty(),
    }
}

/// The value of the first attribute named `key`, searched from index `i`.
pub open spec fn attr_from(attrs: Seq<(Vec<char>, Vec<char>)>, key: Seq<char>, i: int) -> Option<
    Seq<char>,
>
    decreases attrs.len() - i,
{
    if i < 0 || i >= attrs.len() {
        None
    } else if attrs[i].0@ == key {
        Some(attrs[i].1@)
    } else {
        attr_from(attrs, key, i + 1)
    }
}

/// The value of the element's first attribute named `key`, if any.
pub open spec fn spec_attr(n: HtmlNode, key: Seq<char>) -> Option<Seq<char>> {
    match n {
        HtmlNode::Element { attrs, .. } => attr_from(attrs@, key, 0),
        _ => None,
    }
}

/// Executable attribute lookup, mirroring [`spec_attr`].
pub fn attr_of<'a>(n: &'a HtmlNode, key: &str) -> (r: Option<&'a Vec<char>>)
    ensures
        match r {
            Some(v) => spec_attr(*n, key@) == Some(v@),
            None => spec_attr(*n, key@) is None,
        },
{
    match n {
        HtmlNode::Element { attrs, .. } => {
            let mut i: usize = 0;
            while i < attrs.len()
                invariant
                    0 <= i <= attrs.len(),
                    attr_from(attrs@, key@, 0) == attr_from(attrs@, key@, i as int),
                decreases attrs.len() - i,
            {
                if chars_eq_str(&attrs[i].0, key) {
                    return Some(&attrs[i].1);
                }
                i += 1;
            }
            None
        },
        _ => None,
    }
}

/// Whitespace as selectors understand it when splitting class tokens: the
/// ASCII blanks and the form feed, a narrower set than trimming's.
pub open spec fn spec_is_selector_space(c: char) -> bool {
    c == ' ' || c == '\t' || c == '\n' || c == '\r' || c == '\u{c}'
}

/// Executable mirror of [`spec_is_selector_space`].
pub fn is_selector_space(c: char) -> (r: bool)
    ensures
        r == spec_is_selector_space(c),
{
    c == ' ' || c == '\t' || c == '\n' || c == '\r' || c == '\u{c}'
}

/// Index of the first whitespace character at or after `i`, or the length.
pub open spec fn spec_space_at(s: Seq<char>, i: int) -> int
    decreases s.len() - i,
{
    if i < 0 || i >= s.len() {
        s.len() as int
    } else if spec_is_selector_space(s[i]) {
        i
    } else {
        spec_space_at(s, i + 1)
    }
}

proof fn lemma_space_at_bounds(s: Seq<char>, i: int)
    requires
        0 <= i <= s.len(),
    ensures
        i <= spec_space_at(s, i) <= s.len(),
        spec_space_at(s, i) < s.len() ==> spec_is_selector_space(s[spec_space_at(s, i)]),
        forall|j: int| i <= j < spec_space_at(s, i) ==> !spec_is_selector_space(s[j]),
    decreases s.len() - i,
{
    if i < s.len() && !spec_is_selector_space(s[i]) {
        lemma_space_at_bounds(s, i + 1);
    }
}

/// The whitespace-separated tokens of `s` from position `i` on: maximal
/// runs of non-whitespace characters, in order.
pub open spec fn spec_ws_tokens_from(s: Seq<char>, i: int) -> Seq<Seq<char>>
    decreases s.len() - i,
{
    if i < 0 || i >= s.len() {
        seq![]
    } else if spec_is_selector_space(s[i]) {
        spec_ws_tokens_from(s, i + 1)
    } else {
        let j0 = spec_space_at(s, i);
        let j = if i < j0 && j0 <= s.len() {
            j0
        } else {
            i + 1
        };
        seq![s.subrange(i, j)] + spec_ws_tokens_from(s, j)
    }
}

/// The whitespace-separated tokens of `s`.
pub open spec fn spec_ws_tokens(s: Seq<char>) -> Seq<Seq<char>> {
    spec_ws_tokens_from(s, 0)
}

/// Executable tokenizer, mirroring [`spec_ws_tokens`].
pub fn ws_tokens(v: &Vec<char>) -> (r: Vec<Vec<char>>)
    ensures
        r.deep_view() == spec_ws_tokens(v@),
{
    let mut r: Vec<Vec<char>> = Vec::new();
    let mut i: usize = 0;
    while i < v.len()
        invariant
            0 <= i <= v.len(),
            r.deep_view() + spec_ws_tokens_from(v@, i as int) =~~= spec_ws_tokens(v@),
        decreases v.len() - i,
    {
        if is_selector_space(v[i]) {
            i += 1;
        } else {
            let mut j: usize = i;
            while j < v.len() && !is_selector_space(v[j])
                invariant
                    i <= j <= v.len(),
                    forall|k: int| i <= k < j ==> !spec_is_selector_space(v@[k]),
                decreases v.len() - j,
            {
                j += 1;
            }
            proof {
                lemma_space_at_bounds(v@, i as int);
                assert(spec_space_at(v@, i as int) == j);
            }
            let mut tok: Vec<char> = Vec::new();
            let mut k: usize = i;
            while k < j
                invariant
                    i <= k <= j <= v.len(),
                    tok@ =~= v@.subrange(i as int, k as int),
                decreases j - k,
            {
                tok.push(v[k]);
                k += 1;
            }
            let ghost old_r = r.deep_view();
            let ghost tv = tok@;
            r.push(tok);
            proof {
                assert(r.deep_view() =~~= old_r + seq![tv]);
            }
            i = j;
        }
    }
    proof {
        assert(r.deep_view() + spec_ws_tokens_from(v@, v@.len() as int) =~~= r.deep_view());
    }
    r
}

/// Whether the element's `class` attribute contains the token `cls`.
pub open spec fn spec_has_class(n: HtmlNode, cls: Seq<char>) -> bool {
    match spec_attr(n, "class"@) {
        Some(cv) => spec_ws_tokens(cv).contains(cls),
        None => false,
    }
}

/// Executable class test, mirroring [`spec_has_class`].
pub fn has_class(n: &HtmlNode, cls: &Vec<char>) -> (r: bool)
    ensures
        r == spec_has_class(*n, cls@),
{
    match attr_of(n, "class") {
        None => false,
        Some(cv) => {
            let toks = ws_tokens(cv);
            let mut i: usize = 0;
            while i < toks.len()
                invariant
                    0 <= i <= toks.len(),
                    toks.deep_view() == spec_ws_tokens(cv@),
                    forall|k: int| 0 <= k < i ==> toks.deep_view()[k] != cls@,
                decreases toks.len() - i,
            {
                if chars_eq(&toks[i], cls) {
                    proof {
                        assert(toks.deep_view()[i as int] == cls@);
                    }
                    return true;
                }
                proof {
                    assert(toks.deep_view()[i as int] == toks[i as int]@);
                }
                i += 1;
            }
            false
        },
    }
}

/// A simple selector: a set of acceptable element names (any of them) and
/// the classes that must all be present. This covers every selection the
/// extraction rules make.
pub open spec fn spec_matches(n: HtmlNode, names: Seq<Seq<char>>, cls: Seq<Seq<char>>) -> bool {
    &&& n is Element
    &&& names.contains(node_name(n))
    &&& forall|k: int| 0 <= k < cls.len() ==> spec_has_class(n, #[trigger] cls[k])
}

/// Executable selector test, mirroring [`spec_matches`].
pub fn node_matches(n: &HtmlNode, names: &Vec<Vec<char>>, cls: &Vec<Vec<char>>) -> (r: bool)
    ensures
        r == spec_matches(*n, names.deep_view(), cls.deep_view()),
{
    match n {
        HtmlNode::Element { name: nm, .. } => {
            let mut found: bool = false;
            let mut j: usize = 0;
            while j < names.len()
                invariant
                    0 <= j <= names.len(),
                    !found ==> forall|k: int| 0 <= k < j ==> names.deep_view()[k] != nm@,
                    found ==> names.deep_view().contains(nm@),
                decreases names.len() - j,
            {
                proof {
                    assert(names.deep_view()[j as int] == names[j as int]@);
                }
                if chars_eq(&names[j], nm) {
                    found = true;
                    proof {
                        assert(names.deep_view()[j as int] == nm@);
                    }
                    break;
                }
                j += 1;
            }
            if !found {
                proof {
                    if names.deep_view().contains(nm@) {
                        let k = choose|k: int|
                            0 <= k < names.deep_view().len() && names.deep_view()[k] == nm@;
                        assert(names.deep_view()[k] != nm@);
                    }
                }
                return false;
            }
            let mut i: usize = 0;
            while i < cls.len()
                invariant
                    0 <= i <= cls.len(),
                    forall|k: int| 0 <= k < i ==> spec_has_class(*n, #[trigger] cls.deep_view()[k]),
                decreases cls.len() - i,
            {
                if !has_class(n, &cls[i]) {
                    proof {
                        assert(cls.deep_view()[i as int] == cls[i as int]@);
                    }
                    return false;
                }
                proof {
                    assert(cls.deep_view()[i as int] == cls[i as int]@);
                }
                i += 1;
            }
            true
        },
        _ => false,
    }
}

/// All descendant elements of `n` (excluding `n` itself) matching the
/// selector, in document order. The `names` are alternatives; the classes
/// must all be present.
pub open spec fn spec_select(n: HtmlNode, names: Seq<Seq<char>>, cls: Seq<Seq<char>>) -> Seq<
    HtmlNode,
>
    decreases n,
{
    match n {
        HtmlNode::Element { children, .. } => select_from(children@, 0, names, cls),
        _ => seq![],
    }
}

/// The matching nodes among `ns[i..]` and their descendants, in document
/// order.
pub open spec fn select_from(
    ns: Seq<HtmlNode>,
    i: int,
    names: Seq<Seq<char>>,
    cls: Seq<Seq<char>>,
) -> Seq<HtmlNode>
    decreases ns, ns.len() - i,
{
    if i < 0 || i >= ns.len() {
        seq![]
    } else {
        (if spec_matches(ns[i], names, cls) {
            seq![ns[i]]
        } else {
            seq![]
        }) + spec_select(ns[i], names, cls) + select_from(ns, i + 1, names, cls)
    }
}

/// The plain nodes behind a vector of borrowed nodes.
pub open spec fn derefs(s: Seq<&HtmlNode>) -> Seq<HtmlNode> {
    s.map_values(|x: &HtmlNode| *x)
}

fn select_into<'a>(
    n: &'a HtmlNode,
    names: &Vec<Vec<char>>,
    cls: &Vec<Vec<char>>,
    out: &mut Vec<&'a HtmlNode>,
)
    ensures
        derefs(final(out)@) == derefs(old(out)@) + spec_select(*n, names.deep_view(), cls.deep_view()),
    decreases *n,
{
    match n {
        HtmlNode::Element { children, .. } => {
            let ghost start = derefs(out@);
            let mut i: usize = 0;
            while i < children.len()
                invariant
                    0 <= i <= children.len(),
                    start + select_from(children@, 0, names.deep_view(), cls.deep_view()) =~~=
                        derefs(out@) + select_from(
                        children@,
                        i as int,
                        names.deep_view(),
                        cls.deep_view(),
                    ),
                decreases children.len() - i,
            {
                let ghost before = derefs(out@);
                if node_matches(&children[i], names, cls) {
                    out.push(&children[i]);
                    proof {
                        assert(derefs(out@) =~~= before + seq![children@[i as int]]);
                    }
                } else {
                    proof {
                        assert(derefs(out@) =~~= before + seq![]);
                    }
                }
                let ghost mid = derefs(out@);
                select_into(&children[i], names, cls, out);
                proof {
                    let nm = names.deep_view();
                    let cv = cls.deep_view();
                    assert(select_from(children@, i as int, nm, cv) == (if spec_matches(
                        children@[i as int],
                        nm,
                        cv,
                    ) {
                        seq![children@[i as int]]
                    } else {
                        seq![]
                    }) + spec_select(children@[i as int], nm, cv) + select_from(
                        children@,
                        i + 1,
                        nm,
                        cv,
                    ));
                    assert(start + select_from(children@, 0, nm, cv) =~~= derefs(out@)
                        + select_from(children@, i + 1, nm, cv));
                }
                i += 1;
            }
            proof {
                assert(derefs(out@) =~~= start + select_from(
                    children@,
                    0,
                    names.deep_view(),
                    cls.deep_view(),
                ));
            }
        },
        _ => {},
    }
}

/// All descendant elements matching the selector, in document order,
/// mirroring [`spec_select`].
pub fn select<'a>(n: &'a HtmlNode, names: &Vec<Vec<char>>, cls: &Vec<Vec<char>>) -> (r: Vec<
    &'a HtmlNode,
>)
    ensures
        derefs(r@) == spec_select(*n, names.deep_view(), cls.deep_view()),
{
    let mut out: Vec<&'a HtmlNode> = Vec::new();
    proof {
        assert(derefs(out@) =~~= Seq::<HtmlNode>::empty());
    }
    select_into(n, names, cls, &mut out);
    out
}

/// The concatenated selections under each of the nodes `ns[i..]`, in order:
/// the meaning of a descendant-combinator selector applied to an already
/// selected collection.
pub open spec fn select_each_from(
    ns: Seq<HtmlNode>,
    i: int,
    names: Seq<Seq<char>>,
    cls: Seq<Seq<char>>,
) -> Seq<HtmlNode>
    decreases ns.len() - i,
{
    if i < 0 || i >= ns.len() {
        seq![]
    } else {
        spec_select(ns[i], names, cls) + select_each_from(ns, i + 1, names, cls)
    }
}

/// Selects under each node of an already selected collection, mirroring
/// [`select_each_from`].
pub fn select_each<'a>(
    ns: &Vec<&'a HtmlNode>,
    names: &Vec<Vec<char>>,
    cls: &Vec<Vec<char>>,
) -> (r: Vec<&'a HtmlNode>)
    ensures
        derefs(r@) == select_each_from(derefs(ns@), 0, names.deep_view(), cls.deep_view()),
{
    let ghost nv = names.deep_view();
    let ghost cv = cls.deep_view();
    let mut out: Vec<&'a HtmlNode> = Vec::new();
    proof {
        assert(derefs(out@) =~~= Seq::<HtmlNode>::empty());
    }
    let mut i: usize = 0;
    while i < ns.len()
        invariant
            0 <= i <= ns.len(),
            nv == names.deep_view(),
            cv == cls.deep_view(),
            derefs(out@) + select_each_from(derefs(ns@), i as int, nv, cv) =~~= select_each_from(
                derefs(ns@),
                0,
                nv,
                cv,
            ),
        decreases ns.len() - i,
    {
        proof {
            assert(derefs(ns@)[i as int] == *ns@[i as int]);
        }
        select_into(ns[i], names, cls, &mut out);
        i += 1;
    }
    out
}

/// A selector name list holding one name.
pub fn names1(a: &str) -> (r: Vec<Vec<char>>)
    ensures
        r.deep_view() == seq![a@],
{
    let mut r: Vec<Vec<char>> = Vec::new();
    r.push(chars_of(a));
    proof {
        assert(r.deep_view() =~~= seq![a@]);
    }
    r
}

/// A selector name list holding two alternatives.
pub fn names2(a: &str, b: &str) -> (r: Vec<Vec<char>>)
    ensures
        r.deep_view() == seq![a@, b@],
{
    let mut r: Vec<Vec<char>> = Vec::new();
    r.push(chars_of(a));
    r.push(chars_of(b));
    proof {
        assert(r.deep_view() =~~= seq![a@, b@]);
    }
    r
}

/// An empty class list.
pub fn no_classes() -> (r: Vec<Vec<char>>)
    ensures
        r.deep_view() == Seq::<Seq<char>>::empty(),
{
    let r: Vec<Vec<char>> = Vec::new();
    proof {
        assert(r.deep_view() =~~= Seq::<Seq<char>>::empty());
    }
    r
}

/// The concatenated text of all descendant text nodes of `n`, in document
/// order; the text itself for a text node.
pub open spec fn spec_text(n: HtmlNode) -> Seq<char>
    decreases n,
{
    match n {
        HtmlNode::Text(t) => t@,
        HtmlNode::Element { children, .. } => texts_from(children@, 0),
        HtmlNode::Other => Seq::empty(),
    }
}

/// The concatenated text of the nodes `ns[i..]`.
pub open spec fn texts_from(ns: Seq<HtmlNode>, i: int) -> Seq<char>
    decreases ns, ns.len() - i,
{
    if i < 0 || i >= ns.len() {
        Seq::empty()
    } else {
        spec_text(ns[i]) + texts_from(ns, i + 1)
    }
}

fn text_into(n: &HtmlNode, out: &mut Vec<char>)
    ensures
        final(out)@ == old(out)@ + spec_text(*n),
    decreases *n,
{
    match n {
        HtmlNode::Text(t) => {
            let ghost before = out@;
            let mut k: usize = 0;
            while k < t.len()
                invariant
                    0 <= k <= t.len(),
                    out@ =~= before + t@.subrange(0, k as int),
                decreases t.len() - k,
            {
                out.push(t[k]);
                k += 1;
            }
            proof {
                assert(out@ =~= before + t@);
            }
        },
        HtmlNode::Element { children, .. } => {
            let ghost start = out@;
            let mut i: usize = 0;
            while i < children.len()
                invariant
                    0 <= i <= children.len(),
                    start + texts_from(children@, 0) =~= out@ + texts_from(children@, i as int),
                decreases children.len() - i,
            {
                let ghost before = out@;
                text_into(&children[i], out);
                proof {
                    assert(start + texts_from(children@, 0) =~= out@ + texts_from(
                        children@,
                        i + 1,
                    ));
                }
                i += 1;
            }
            proof {
                assert(out@ =~= start + texts_from(children@, 0));
            }
        },
        HtmlNode::Other => {},
    }
}

/// The concatenated descendant text, mirroring [`spec_text`].
pub fn text_of(n: &HtmlNode) -> (r: Vec<char>)
    ensures
        r@ == spec_text(*n),
{
    let mut out: Vec<char> = Vec::new();
    text_into(n, &mut out);
    out
}

/// The first descendant text node of `n` in document order, untrimmed, if
/// any; the node's own text for a text node.
pub open spec fn spec_first_text(n: HtmlNode) -> Option<Seq<char>>
    decreases n,
{
    match n {
        HtmlNode::Text(t) => Some(t@),
        HtmlNode::Element { children, .. } => first_text_from(children@, 0),
        HtmlNode::Other => None,
    }
}

/// The first text node among `ns[i..]` and their descendants.
pub open spec fn first_text_from(ns: Seq<HtmlNode>, i: int) -> Option<Seq<char>>
    decreases ns, ns.len() - i,
{
    if i < 0 || i >= ns.len() {
        None
    } else {
        match spec_first_text(ns[i]) {
            Some(t) => Some(t),
            None => first_text_from(ns, i + 1),
        }
    }
}

/// The first descendant text node, mirroring [`spec_first_text`].
pub fn first_text(n: &HtmlNode) -> (r: Option<Vec<char>>)
    ensures
        match r {
            Some(v) => spec_first_text(*n) == Some(v@),
            None => spec_first_text(*n) is None,
        },
    decreases *n,
{
    match n {
        HtmlNode::Text(t) => {
            let mut out: Vec<char> = Vec::new();
            let mut k: usize = 0;
            while k < t.len()
                invariant
                    0 <= k <= t.len(),
                    out@ =~= t@.subrange(0, k as int),
                decreases t.len() - k,
            {
                out.push(t[k]);
                k += 1;
            }
            proof {
                assert(out@ =~= t@);
            }
            Some(out)
        },
        HtmlNode::Element { children, .. } => {
            let mut i: usize = 0;
            while i < children.len()
                invariant
                    0 <= i <= children.len(),
                    first_text_from(children@, 0) == first_text_from(children@, i as int),
                decreases children.len() - i,
            {
                match first_text(&children[i]) {
                    Some(v) => {
                        return Some(v);
                    },
                    None => {},
                }
                i += 1;
            }
            None
        },
        HtmlNode::Other => None,
    }
}

/// The suffix of siblings after the first element in preorder whose name is
/// `name` and — when `txt` is given — whose collected text equals `txt`.
/// This is how the flat section layout of the pages is walked: a heading
/// marks a section, and what follows it among its siblings belongs to the
/// section.
pub open spec fn spec_after_first(n: HtmlNode, name: Seq<char>, txt: Option<Seq<char>>) -> Option<
    Seq<HtmlNode>,
>
    decreases n,
{
    match n {
        HtmlNode::Element { children, .. } => after_first_from(children@, 0, name, txt),
        _ => None,
    }
}

/// The sibling suffix after the first match among `ns[i..]`, searching
/// depth-first.
pub open spec fn after_first_from(
    ns: Seq<HtmlNode>,
    i: int,
    name: Seq<char>,
    txt: Option<Seq<char>>,
) -> Option<Seq<HtmlNode>>
    decreases ns, ns.len() - i,
{
    if i < 0 || i >= ns.len() {
        None
    } else if ns[i] is Element && node_name(ns[i]) == name && (txt is None || txt == Some(
        spec_text(ns[i]),
    )) {
        Some(ns.skip(i + 1))
    } else {
        match spec_after_first(ns[i], name, txt) {
            Some(s) => Some(s),
            None => after_first_from(ns, i + 1, name, txt),
        }
    }
}

fn after_first_in<'a>(
    children: &'a Vec<HtmlNode>,
    name: &Vec<char>,
    txt: &Option<Vec<char>>,
) -> (r: Option<Vec<&'a HtmlNode>>)
    ensures
        match r {
            Some(v) => after_first_from(children@, 0, name@, opt_view(*txt)) == Some(derefs(v@)),
            None => after_first_from(children@, 0, name@, opt_view(*txt)) is None,
        },
    decreases children@,
{
    let ghost tv = opt_view(*txt);
    let mut i: usize = 0;
    while i < children.len()
        invariant
            0 <= i <= children.len(),
            after_first_from(children@, 0, name@, tv) == after_first_from(
                children@,
                i as int,
                name@,
                tv,
            ),
        decreases children.len() - i,
    {
        let c = &children[i];
        let is_match: bool = match c {
            HtmlNode::Element { name: nm, .. } => {
                if chars_eq(nm, name) {
                    match txt {
                        None => true,
                        Some(t) => {
                            let ct = text_of(c);
                            chars_eq(&ct, t)
                        },
                    }
                } else {
                    false
                }
            },
            _ => false,
        };
        proof {
            let ci = children@[i as int];
            if is_match {
                assert(ci is Element);
                assert(node_name(ci) == name@);
                assert(tv is None || tv == Some(spec_text(ci)));
            } else {
                assert(!(ci is Element && node_name(ci) == name@ && (tv is None || tv == Some(
                    spec_text(ci),
                ))));
            }
        }
        if is_match {
            let mut out: Vec<&'a HtmlNode> = Vec::new();
            let mut k: usize = i + 1;
            while k < children.len()
                invariant
                    i + 1 <= k <= children.len(),
                    derefs(out@) =~~= children@.subrange(i + 1, k as int),
                decreases children.len() - k,
            {
                let ghost before = derefs(out@);
                out.push(&children[k]);
                proof {
                    assert(derefs(out@) =~~= before + seq![children@[k as int]]);
                }
                k += 1;
            }
            proof {
                assert(derefs(out@) =~~= children@.skip(i + 1));
            }
            return Some(out);
        }
        match c {
            HtmlNode::Element { children: sub, .. } => {
                proof {
                    assert(spec_after_first(children@[i as int], name@, tv) == after_first_from(
                        sub@,
                        0,
                        name@,
                        tv,
                    ));
                }
                match after_first_in(sub, name, txt) {
                    Some(v) => {
                        return Some(v);
                    },
                    None => {},
                }
            },
            _ => {},
        }
        i += 1;
    }
    None
}

/// The ghost value of an optional character vector.
pub open spec fn opt_view(t: Option<Vec<char>>) -> Option<Seq<char>> {
    match t {
        Some(v) => Some(v@),
        None => None,
    }
}

/// The sibling suffix after the first matching heading, mirroring
/// [`spec_after_first`].
pub fn after_first<'a>(n: &'a HtmlNode, name: &Vec<char>, txt: &Option<Vec<char>>) -> (r: Option<
    Vec<&'a HtmlNode>,
>)
    ensures
        match r {
            Some(v) => spec_after_first(*n, name@, opt_view(*txt)) == Some(derefs(v@)),
            None => spec_after_first(*n, name@, opt_view(*txt)) is None,
        },
{
    match n {
        HtmlNode::Element { children, .. } => after_first_in(children, name, txt),
        _ => None,
    }
}

/// The first element among `ns[i..]`, not descending.
pub open spec fn first_element_from(ns: Seq<HtmlNode>, i: int) -> Option<HtmlNode>
    decreases ns.len() - i,
{
    if i < 0 || i >= ns.len() {
        None
    } else if ns[i] is Element {
        Some(ns[i])
    } else {
        first_element_from(ns, i + 1)
    }
}

/// The first element of a sibling suffix, mirroring [`first_element_from`].
pub fn first_element<'a>(ns: &Vec<&'a HtmlNode>) -> (r: Option<&'a HtmlNode>)
    ensures
        match r {
            Some(v) => first_element_from(derefs(ns@), 0) == Some(*v),
            None => first_element_from(derefs(ns@), 0) is None,
        },
{
    let mut i: usize = 0;
    while i < ns.len()
        invariant
            0 <= i <= ns.len(),
            first_element_from(derefs(ns@), 0) == first_element_from(derefs(ns@), i as int),
        decreases ns.len() - i,
    {
        let c = ns[i];
        match c {
            HtmlNode::Element { .. } => {
                proof {
                    assert(derefs(ns@)[i as int] == *ns@[i as int]);
                }
                return Some(c);
            },
            _ => {
                proof {
                    assert(derefs(ns@)[i as int] == *ns@[i as int]);
                }
            },
        }
        i += 1;
    }
    None
}

/// A copy of a character vector.
pub fn copy_chars(v: &Vec<char>) -> (r: Vec<char>)
    ensures
        r@ == v@,
{
    let mut out: Vec<char> = Vec::new();
    push_all(&mut out, v);
    proof {
        assert(out@ =~= v@);
    }
    out
}

/// Appends the characters of a string slice to a character vector.
pub fn push_chars(out: &mut Vec<char>, s: &str)
    ensures
        final(out)@ == old(out)@ + s@,
{
    let cs = chars_of(s);
    push_all(out, &cs);
}

/// Appends one character vector to another.
pub fn push_all(out: &mut Vec<char>, v: &Vec<char>)
    ensures
        final(out)@ == old(out)@ + v@,
{
    let ghost before = out@;
    let mut i: usize = 0;
    while i < v.len()
        invariant
            0 <= i <= v.len(),
            out@ =~= before + v@.subrange(0, i as int),
        decreases v.len() - i,
    {
        out.push(v[i]);
        i += 1;
    }
    proof {
        assert(out@ =~= before + v@);
    }
}

/// How one character of document text is rendered: the markup-significant
/// characters become entities.
pub open spec fn escape_text_char(c: char) -> Seq<char> {
    if c == '&' {
        "&amp;"@
    } else if c == '<' {
        "&lt;"@
    } else if c == '>' {
        "&gt;"@
    } else {
        seq![c]
    }
}

/// How one character of an attribute value is rendered.
pub open spec fn escape_attr_char(c: char) -> Seq<char> {
    if c == '&' {
        "&amp;"@
    } else if c == '"' {
        "&quot;"@
    } else {
        seq![c]
    }
}

/// The rendering of document text from index `i` on.
pub open spec fn spec_escape_text_from(s: Seq<char>, i: int) -> Seq<char>
    decreases s.len() - i,
{
    if i < 0 || i >= s.len() {
        Seq::empty()
    } else {
        escape_text_char(s[i]) + spec_escape_text_from(s, i + 1)
    }
}

/// The rendering of an attribute value from index `i` on.
pub open spec fn spec_escape_attr_from(s: Seq<char>, i: int) -> Seq<char>
    decreases s.len() - i,
{
    if i < 0 || i >= s.len() {
        Seq::empty()
    } else {
        escape_attr_char(s[i]) + spec_escape_attr_from(s, i + 1)
    }
}

/// The library's canonical rendering of a node back to markup: the element
/// with its attributes in order, its children in document order, and a
/// closing tag; text with the markup-significant characters escaped; nothing
/// for other nodes. Stored rich-text fragments use this rendering.
pub open spec fn spec_html_of(n: HtmlNode) -> Seq<char>
    decreases n,
{
    match n {
        HtmlNode::Text(t) => spec_escape_text_from(t@, 0),
        HtmlNode::Element { name, attrs, children } => seq!['<'] + name@ + attrs_html_from(
            attrs@,
            0,
        ) + seq!['>'] + htmls_from(children@, 0) + "</"@ + name@ + seq!['>'],
        HtmlNode::Other => Seq::empty(),
    }
}

/// The rendering of the attributes from index `i` on, each as
/// ` name="value"`.
pub open spec fn attrs_html_from(attrs: Seq<(Vec<char>, Vec<char>)>, i: int) -> Seq<char>
    decreases attrs.len() - i,
{
    if i < 0 || i >= attrs.len() {
        Seq::empty()
    } else {
        seq![' '] + attrs[i].0@ + "=\""@ + spec_escape_attr_from(attrs[i].1@, 0) + seq!['"']
            + attrs_html_from(attrs, i + 1)
    }
}

/// The concatenated rendering of the nodes `ns[i..]`.
pub open spec fn htmls_from(ns: Seq<HtmlNode>, i: int) -> Seq<char>
    decreases ns, ns.len() - i,
{
    if i < 0 || i >= ns.len() {
        Seq::empty()
    } else {
        spec_html_of(ns[i]) + htmls_from(ns, i + 1)
    }
}

fn escape_text_into(out: &mut Vec<char>, t: &Vec<char>)
    ensures
        final(out)@ == old(out)@ + spec_escape_text_from(t@, 0),
{
    let ghost before = out@;
    let mut i: usize = 0;
    while i < t.len()
        invariant
            0 <= i <= t.len(),
            before + spec_escape_text_from(t@, 0) =~= out@ + spec_escape_text_from(t@, i as int),
        decreases t.len() - i,
    {
        let c = t[i];
        if c == '&' {
            push_chars(out, "&amp;");
        } else if c == '<' {
            push_chars(out, "&lt;");
        } else if c == '>' {
            push_chars(out, "&gt;");
        } else {
            out.push(c);
            proof {
                assert(out@ =~= out@.subrange(0, out@.len() - 1) + seq![c]);
            }
        }
        i += 1;
    }
}

fn escape_attr_into(out: &mut Vec<char>, t: &Vec<char>)
    ensures
        final(out)@ == old(out)@ + spec_escape_attr_from(t@, 0),
{
    let ghost before = out@;
    let mut i: usize = 0;
    while i < t.len()
        invariant
            0 <= i <= t.len(),
            before + spec_escape_attr_from(t@, 0) =~= out@ + spec_escape_attr_from(t@, i as int),
        decreases t.len() - i,
    {
        let c = t[i];
        if c == '&' {
            push_chars(out, "&amp;");
        } else if c == '"' {
            push_chars(out, "&quot;");
        } else {
            out.push(c);
            proof {
                assert(out@ =~= out@.subrange(0, out@.len() - 1) + seq![c]);
            }
        }
        i += 1;
    }
}

#[verifier::rlimit(50)]
fn html_into(n: &HtmlNode, out: &mut Vec<char>)
    ensures
        final(out)@ == old(out)@ + spec_html_of(*n),
    decreases *n,
{
    match n {
        HtmlNode::Text(t) => {
            escape_text_into(out, t);
        },
        HtmlNode::Element { name, attrs, children } => {
            out.push('<');
            proof {
                assert(out@ =~= out@.subrange(0, out@.len() - 1) + seq!['<']);
            }
            push_all(out, name);
            let ghost astart = out@;
            let mut i: usize = 0;
            while i < attrs.len()
                invariant
                    0 <= i <= attrs.len(),
                    astart + attrs_html_from(attrs@, 0) =~= out@ + attrs_html_from(
                        attrs@,
                        i as int,
                    ),
                decreases attrs.len() - i,
            {
                out.push(' ');
                proof {
                    assert(out@ =~= out@.subrange(0, out@.len() - 1) + seq![' ']);
                }
                push_all(out, &attrs[i].0);
                push_chars(out, "=\"");
                escape_attr_into(out, &attrs[i].1);
                out.push('"');
                proof {
                    assert(out@ =~= out@.subrange(0, out@.len() - 1) + seq!['"']);
                }
                i += 1;
            }
            out.push('>');
            proof {
                assert(out@ =~= out@.subrange(0, out@.len() - 1) + seq!['>']);
            }
            let ghost cstart = out@;
            let mut k: usize = 0;
            while k < children.len()
                invariant
                    0 <= k <= children.len(),
                    cstart + htmls_from(children@, 0) =~= out@ + htmls_from(children@, k as int),
                decreases children.len() - k,
            {
                html_into(&children[k], out);
                k += 1;
            }
            push_chars(out, "</");
            push_all(out, name);
            out.push('>');
            proof {
                assert(out@ =~= out@.subrange(0, out@.len() - 1) + seq!['>']);
            }
        },
        HtmlNode::Other => {},
    }
}

/// The canonical markup rendering of a node, mirroring [`spec_html_of`].
pub fn html_of(n: &HtmlNode) -> (r: Vec<char>)
    ensures
        r@ == spec_html_of(*n),
{
    let mut out: Vec<char> = Vec::new();
    html_into(n, &mut out);
    out
}

} // verus!
