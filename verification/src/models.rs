//! The record types of the library and the in-memory search index.
//!
//! A listing is the summary row of one kanji; a detail is the full record of
//! one kanji's page. Each record type has a ghost view over sequences of
//! characters, and the contracts of the library speak of those views.

use vstd::prelude::*;

use crate::text::chars_of;
use crate::text::contains_seq;
use crate::text::lower_of;
use crate::text::lowercase;
use crate::text::spec_contains_seq;

verus! {

/// A failure reported to the caller: a descriptive message.
#[derive(Debug)]
pub struct CommandError {
    pub message: String,
}

/// The summary row of one kanji in the bulk listing.
pub struct KanjiListing {
    pub index: i32,
    pub kanji: String,
    pub meaning: String,
    pub is_radical: bool,
    pub link: String,
    pub has_image: bool,
    pub practice: bool,
}

/// The ghost value of a [`KanjiListing`].
pub ghost struct ListingView {
    pub index: int,
    pub kanji: Seq<char>,
    pub meaning: Seq<char>,
    pub is_radical: bool,
    pub link: Seq<char>,
    pub has_image: bool,
    pub practice: bool,
}

impl View for KanjiListing {
    type V = ListingView;

    open spec fn view(&self) -> ListingView {
        ListingView {
            index: self.index as int,
            kanji: self.kanji@,
            meaning: self.meaning@,
            is_radical: self.is_radical,
            link: self.link@,
            has_image: self.has_image,
            practice: self.practice,
        }
    }
}

impl Clone for KanjiListing {
    /// A copy with the same value.
    fn clone(&self) -> (r: Self)
        ensures
            r@ == self@,
    {
        KanjiListing {
            index: self.index,
            kanji: self.kanji.clone(),
            meaning: self.meaning.clone(),
            is_radical: self.is_radical,
            link: self.link.clone(),
            has_image: self.has_image,
            practice: self.practice,
        }
    }
}

impl PartialEq for KanjiListing {
    fn eq(&self, other: &Self) -> (r: bool) {
        self.index == other.index && self.kanji == other.kanji && self.meaning == other.meaning
            && self.is_radical == other.is_radical && self.link == other.link && self.has_image
            == other.has_image && self.practice == other.practice
    }
}

impl vstd::std_specs::cmp::PartialEqSpecImpl for KanjiListing {
    open spec fn obeys_eq_spec() -> bool {
        true
    }

    open spec fn eq_spec(&self, other: &Self) -> bool {
        self@ == other@
    }
}

/// A name/link tag attached to a record.
pub struct Tag {
    pub name: String,
    pub link: String,
}

/// The ghost value of a [`Tag`].
pub ghost struct TagView {
    pub name: Seq<char>,
    pub link: Seq<char>,
}

impl View for Tag {
    type V = TagView;

    open spec fn view(&self) -> TagView {
        TagView { name: self.name@, link: self.link@ }
    }
}

/// One kunyomi reading with its gloss, labels and star rating.
pub struct KunyomiEntry {
    pub reading: String,
    pub meaning: String,
    pub tags: Vec<String>,
    pub usefulness: u8,
}

/// The ghost value of a [`KunyomiEntry`].
pub ghost struct KunyomiView {
    pub reading: Seq<char>,
    pub meaning: Seq<char>,
    pub tags: Seq<Seq<char>>,
    pub usefulness: u8,
}

impl View for KunyomiEntry {
    type V = KunyomiView;

    open spec fn view(&self) -> KunyomiView {
        KunyomiView {
            reading: self.reading@,
            meaning: self.meaning@,
            tags: self.tags.deep_view(),
            usefulness: self.usefulness,
        }
    }
}

/// One component of a compound word: a glyph paired with the parenthesized
/// meaning that follows it in the source markup.
pub struct Component {
    pub kanji: String,
    pub meaning: String,
    pub href: String,
    pub image_src: Option<String>,
}

/// The ghost value of a [`Component`].
pub ghost struct ComponentView {
    pub kanji: Seq<char>,
    pub meaning: Seq<char>,
    pub href: Seq<char>,
    pub image_src: Option<Seq<char>>,
}

impl View for Component {
    type V = ComponentView;

    open spec fn view(&self) -> ComponentView {
        ComponentView {
            kanji: self.kanji@,
            meaning: self.meaning@,
            href: self.href@,
            image_src: match self.image_src {
                Some(s) => Some(s@),
                None => None,
            },
        }
    }
}

/// One compound-word usage example.
pub struct Jukugo {
    pub japanese: String,
    pub reading: String,
    pub english: String,
    pub tags: Vec<Tag>,
    pub usefulness: u8,
    pub components: Vec<Component>,
}

/// The ghost value of a [`Jukugo`].
pub ghost struct JukugoView {
    pub japanese: Seq<char>,
    pub reading: Seq<char>,
    pub english: Seq<char>,
    pub tags: Seq<TagView>,
    pub usefulness: u8,
    pub components: Seq<ComponentView>,
}

impl View for Jukugo {
    type V = JukugoView;

    open spec fn view(&self) -> JukugoView {
        JukugoView {
            japanese: self.japanese@,
            reading: self.reading@,
            english: self.english@,
            tags: self.tags@.map_values(|t: Tag| t@),
            usefulness: self.usefulness,
            components: self.components@.map_values(|c: Component| c@),
        }
    }
}

/// A translation pair from the synonyms table.
pub struct SynonymEntry {
    pub japanese: String,
    pub english: String,
}

/// The ghost value of a [`SynonymEntry`].
pub ghost struct SynonymView {
    pub japanese: Seq<char>,
    pub english: Seq<char>,
}

impl View for SynonymEntry {
    type V = SynonymView;

    open spec fn view(&self) -> SynonymView {
        SynonymView { japanese: self.japanese@, english: self.english@ }
    }
}

/// A cross-reference to a kanji that uses this one.
pub struct UsedIn {
    pub kanji: String,
    pub link: String,
}

/// The ghost value of a [`UsedIn`].
pub ghost struct UsedInView {
    pub kanji: Seq<char>,
    pub link: Seq<char>,
}

impl View for UsedIn {
    type V = UsedInView;

    open spec fn view(&self) -> UsedInView {
        UsedInView { kanji: self.kanji@, link: self.link@ }
    }
}

/// A visually similar kanji listed for disambiguation.
pub struct Lookalike {
    pub kanji: String,
    pub kanji_link: String,
    pub meaning: String,
    pub hint: String,
    pub radical: String,
    pub radical_link: String,
}

/// The ghost value of a [`Lookalike`].
pub ghost struct LookalikeView {
    pub kanji: Seq<char>,
    pub kanji_link: Seq<char>,
    pub meaning: Seq<char>,
    pub hint: Seq<char>,
    pub radical: Seq<char>,
    pub radical_link: Seq<char>,
}

impl View for Lookalike {
    type V = LookalikeView;

    open spec fn view(&self) -> LookalikeView {
        LookalikeView {
            kanji: self.kanji@,
            kanji_link: self.kanji_link@,
            meaning: self.meaning@,
            hint: self.hint@,
            radical: self.radical@,
            radical_link: self.radical_link@,
        }
    }
}

/// The full record of one kanji's page.
pub struct KanjiDetail {
    pub index: u32,
    pub link: String,
    pub kanji: String,
    pub meanings: Vec<String>,
    pub tags: Vec<Tag>,
    pub description: Option<String>,
    pub onyomi: Vec<(String, String)>,
    pub kunyomi: Vec<KunyomiEntry>,
    pub jukugo: Vec<Jukugo>,
    pub mnemonic: Option<String>,
    pub usefulness: u8,
    pub used_in: Vec<UsedIn>,
    pub synonyms: Vec<SynonymEntry>,
    pub prev_link: Option<String>,
    pub next_link: Option<String>,
    pub breakdown: String,
    pub lookalikes: Vec<Lookalike>,
    pub practice: bool,
}

/// The ghost value of a [`KanjiDetail`].
pub ghost struct DetailView {
    pub index: int,
    pub link: Seq<char>,
    pub kanji: Seq<char>,
    pub meanings: Seq<Seq<char>>,
    pub tags: Seq<TagView>,
    pub description: Option<Seq<char>>,
    pub onyomi: Seq<(Seq<char>, Seq<char>)>,
    pub kunyomi: Seq<KunyomiView>,
    pub jukugo: Seq<JukugoView>,
    pub mnemonic: Option<Seq<char>>,
    pub usefulness: u8,
    pub used_in: Seq<UsedInView>,
    pub synonyms: Seq<SynonymView>,
    pub prev_link: Option<Seq<char>>,
    pub next_link: Option<Seq<char>>,
    pub breakdown: Seq<char>,
    pub lookalikes: Seq<LookalikeView>,
    pub practice: bool,
}

/// The ghost value of an optional string.
pub open spec fn opt_str_view(s: Option<String>) -> Option<Seq<char>> {
    match s {
        Some(v) => Some(v@),
        None => None,
    }
}

impl View for KanjiDetail {
    type V = DetailView;

    open spec fn view(&self) -> DetailView {
        DetailView {
            index: self.index as int,
            link: self.link@,
            kanji: self.kanji@,
            meanings: self.meanings.deep_view(),
            tags: self.tags@.map_values(|t: Tag| t@),
            description: opt_str_view(self.description),
            onyomi: self.onyomi@.map_values(|p: (String, String)| (p.0@, p.1@)),
            kunyomi: self.kunyomi@.map_values(|k: KunyomiEntry| k@),
            jukugo: self.jukugo@.map_values(|j: Jukugo| j@),
            mnemonic: opt_str_view(self.mnemonic),
            usefulness: self.usefulness,
            used_in: self.used_in@.map_values(|u: UsedIn| u@),
            synonyms: self.synonyms@.map_values(|s: SynonymEntry| s@),
            prev_link: opt_str_view(self.prev_link),
            next_link: opt_str_view(self.next_link),
            breakdown: self.breakdown@,
            lookalikes: self.lookalikes@.map_values(|l: Lookalike| l@),
            practice: self.practice,
        }
    }
}

/// An entry of the practice quiz pool, as the study view presents it.
pub struct PracticeItem {
    pub kanji: String,
    pub onyomi: Vec<(String, String)>,
    pub kunyomi: Vec<KunyomiEntry>,
    pub meaning: String,
}

/// Which aspect of a kanji a practice question asks for.
pub enum PracticeType {
    Meaning,
    Onyomi,
    Kunyomi,
}

/// The ghost values of a sequence of listings.
pub open spec fn listing_views(ks: Seq<KanjiListing>) -> Seq<ListingView> {
    ks.map_values(|k: KanjiListing| k@)
}

/// The first listing in `ks[i..]` with the given index, if any.
pub open spec fn first_index_match(ks: Seq<ListingView>, idx: int, i: int) -> Option<ListingView>
    decreases ks.len() - i,
{
    if i < 0 || i >= ks.len() {
        None
    } else if ks[i].index == idx {
        Some(ks[i])
    } else {
        first_index_match(ks, idx, i + 1)
    }
}

/// The first listing in `ks[i..]` whose glyph equals `kanji`, if any.
pub open spec fn first_kanji_match(ks: Seq<ListingView>, kanji: Seq<char>, i: int) -> Option<
    ListingView,
>
    decreases ks.len() - i,
{
    if i < 0 || i >= ks.len() {
        None
    } else if ks[i].kanji == kanji {
        Some(ks[i])
    } else {
        first_kanji_match(ks, kanji, i + 1)
    }
}

/// Whether a listing's meaning contains the search term, both case-folded.
pub open spec fn meaning_matches(v: ListingView, term: Seq<char>) -> bool {
    spec_contains_seq(lower_of(v.meaning), lower_of(term))
}

/// The listings whose case-folded meanings contain the case-folded term,
/// in collection order, from index `i` on: each match once, nothing else.
pub open spec fn meaning_filter_from(ks: Seq<ListingView>, term: Seq<char>, i: int) -> Seq<
    ListingView,
>
    decreases ks.len() - i,
{
    if i < 0 || i >= ks.len() {
        seq![]
    } else {
        (if meaning_matches(ks[i], term) {
            seq![ks[i]]
        } else {
            seq![]
        }) + meaning_filter_from(ks, term, i + 1)
    }
}

/// Whether `v` belongs to the result of a combined search: each supplied
/// criterion contributes its matches — the first exact index match, the
/// first exact glyph match, and every case-insensitive meaning-substring
/// match — and the results are unioned.
pub open spec fn search_hit(
    ks: Seq<ListingView>,
    idx: Option<i32>,
    kanji: Option<Seq<char>>,
    meaning: Option<Seq<char>>,
    v: ListingView,
) -> bool {
    ||| (idx is Some && first_index_match(ks, idx->0 as int, 0) == Some(v))
    ||| (kanji is Some && first_kanji_match(ks, kanji->0, 0) == Some(v))
    ||| (meaning is Some && ks.contains(v) && meaning_matches(v, meaning->0))
}

impl KanjiListing {
    /// The first listing with exactly the given index.
    pub fn search_by_index<'a>(kanjis: &'a Vec<KanjiListing>, target_index: i32) -> (r: Option<
        &'a KanjiListing,
    >)
        ensures
            match r {
                Some(k) => first_index_match(listing_views(kanjis@), target_index as int, 0)
                    == Some(k@),
                None => first_index_match(listing_views(kanjis@), target_index as int, 0) is None,
            },
    {
        let ghost vs = listing_views(kanjis@);
        let mut i: usize = 0;
        while i < kanjis.len()
            invariant
                0 <= i <= kanjis.len(),
                first_index_match(vs, target_index as int, 0) == first_index_match(
                    vs,
                    target_index as int,
                    i as int,
                ),
            decreases kanjis.len() - i,
        {
            proof {
                assert(vs[i as int] == kanjis@[i as int]@);
            }
            if kanjis[i].index == target_index {
                return Some(&kanjis[i]);
            }
            i += 1;
        }
        None
    }

    /// The first listing whose glyph equals the target exactly.
    pub fn search_by_kanji<'a>(kanjis: &'a Vec<KanjiListing>, target_kanji: &str) -> (r: Option<
        &'a KanjiListing,
    >)
        ensures
            match r {
                Some(k) => first_kanji_match(listing_views(kanjis@), target_kanji@, 0) == Some(k@),
                None => first_kanji_match(listing_views(kanjis@), target_kanji@, 0) is None,
            },
    {
        let ghost vs = listing_views(kanjis@);
        let tk = chars_of(target_kanji);
        let mut i: usize = 0;
        while i < kanjis.len()
            invariant
                0 <= i <= kanjis.len(),
                tk@ == target_kanji@,
                first_kanji_match(vs, target_kanji@, 0) == first_kanji_match(
                    vs,
                    target_kanji@,
                    i as int,
                ),
            decreases kanjis.len() - i,
        {
            proof {
                assert(vs[i as int] == kanjis@[i as int]@);
            }
            let kk = chars_of(kanjis[i].kanji.as_str());
            if crate::text::chars_eq(&kk, &tk) {
                return Some(&kanjis[i]);
            }
            i += 1;
        }
        None
    }

    /// Every listing whose meaning contains the search term, both sides
    /// case-folded: exactly the matches of the collection, in collection
    /// order, each once.
    pub fn search_by_meaning<'a>(kanjis: &'a Vec<KanjiListing>, target_meaning: &str) -> (r: Vec<
        &'a KanjiListing,
    >)
        ensures
            ref_views(r@) == meaning_filter_from(listing_views(kanjis@), target_meaning@, 0),
            forall|j: int|
                0 <= j < r@.len() ==> kanjis@.contains(*r@[j]) && meaning_matches(
                    (#[trigger] r@[j])@,
                    target_meaning@,
                ),
            forall|i: int|
                0 <= i < kanjis@.len() && meaning_matches((#[trigger] kanjis@[i])@, target_meaning@)
                    ==> r@.contains(&kanjis@[i]),
    {
        let ghost vs = listing_views(kanjis@);
        let term = lowercase(target_meaning);
        let term_chars = chars_of(term.as_str());
        let mut r: Vec<&'a KanjiListing> = Vec::new();
        let mut i: usize = 0;
        while i < kanjis.len()
            invariant
                0 <= i <= kanjis.len(),
                vs == listing_views(kanjis@),
                term_chars@ == lower_of(target_meaning@),
                ref_views(r@) + meaning_filter_from(vs, target_meaning@, i as int) =~=
                    meaning_filter_from(vs, target_meaning@, 0),
                forall|j: int|
                    0 <= j < r@.len() ==> kanjis@.contains(*r@[j]) && meaning_matches(
                        (#[trigger] r@[j])@,
                        target_meaning@,
                    ),
                forall|k: int|
                    0 <= k < i && meaning_matches((#[trigger] kanjis@[k])@, target_meaning@)
                        ==> r@.contains(&kanjis@[k]),
            decreases kanjis.len() - i,
        {
            proof {
                assert(vs[i as int] == kanjis@[i as int]@);
            }
            let low = lowercase(kanjis[i].meaning.as_str());
            let low_chars = chars_of(low.as_str());
            if contains_seq(&low_chars, &term_chars) {
                let ghost old_r = r@;
                r.push(&kanjis[i]);
                proof {
                    assert(r@[r@.len() - 1] == &kanjis@[i as int]);
                    assert(forall|k: int| 0 <= k < old_r.len() ==> r@[k] == old_r[k]);
                    assert(ref_views(r@) =~= ref_views(old_r) + seq![kanjis@[i as int]@]);
                }
            }
            i += 1;
        }
        r
    }
}

/// The ghost values behind a vector of borrowed listings.
pub open spec fn ref_views(s: Seq<&KanjiListing>) -> Seq<ListingView> {
    s.map_values(|x: &KanjiListing| x@)
}

/// The ghost value of an optional string slice.
pub open spec fn opt_ref_view(s: Option<&str>) -> Option<Seq<char>> {
    match s {
        Some(v) => Some(v@),
        None => None,
    }
}

/// Whether `r` already holds a listing with the value `v`.
fn contains_listing(r: &Vec<&KanjiListing>, k: &KanjiListing) -> (res: bool)
    ensures
        res == ref_views(r@).contains(k@),
{
    let mut i: usize = 0;
    while i < r.len()
        invariant
            0 <= i <= r.len(),
            forall|j: int| 0 <= j < i ==> ref_views(r@)[j] != k@,
        decreases r.len() - i,
    {
        proof {
            assert(ref_views(r@)[i as int] == r@[i as int]@);
        }
        if r[i] == k {
            proof {
                assert(ref_views(r@).contains(k@)) by {
                    assert(ref_views(r@)[i as int] == k@);
                }
            }
            return true;
        }
        i += 1;
    }
    proof {
        assert(!ref_views(r@).contains(k@)) by {
            if ref_views(r@).contains(k@) {
                let j = choose|j: int| 0 <= j < ref_views(r@).len() && ref_views(r@)[j] == k@;
                assert(ref_views(r@)[j] != k@);
            }
        }
    }
    false
}

pub proof fn lemma_first_index_match_props(ks: Seq<ListingView>, idx: int, i: int)
    requires
        0 <= i <= ks.len(),
    ensures
        match first_index_match(ks, idx, i) {
            Some(v) => v.index == idx && ks.contains(v),
            None => true,
        },
    decreases ks.len() - i,
{
    if i < ks.len() && ks[i].index != idx {
        lemma_first_index_match_props(ks, idx, i + 1);
    }
}

pub proof fn lemma_first_kanji_match_props(ks: Seq<ListingView>, kanji: Seq<char>, i: int)
    requires
        0 <= i <= ks.len(),
    ensures
        match first_kanji_match(ks, kanji, i) {
            Some(v) => v.kanji == kanji && ks.contains(v),
            None => true,
        },
    decreases ks.len() - i,
{
    if i < ks.len() && ks[i].kanji != kanji {
        lemma_first_kanji_match_props(ks, kanji, i + 1);
    }
}


proof fn lemma_views_push(before: Seq<&KanjiListing>, after: Seq<&KanjiListing>, k: &KanjiListing)
    requires
        after == before.push(k),
    ensures
        ref_views(after) == ref_views(before) + seq![k@],
        forall|v: ListingView| ref_views(before).contains(v) ==> ref_views(after).contains(v),
        ref_views(after).contains(k@),
        forall|j: int| 0 <= j < before.len() ==> ref_views(after)[j] == ref_views(before)[j],
        (!ref_views(before).contains(k@) && ref_views(before).no_duplicates()) ==> ref_views(
            after,
        ).no_duplicates(),
{
    assert(ref_views(after) =~= ref_views(before) + seq![k@]);
    assert(ref_views(after)[after.len() - 1] == k@);
    assert(ref_views(after).contains(k@));
    assert forall|v: ListingView| ref_views(before).contains(v) implies ref_views(
        after,
    ).contains(v) by {
        let j = choose|j: int| 0 <= j < ref_views(before).len() && ref_views(before)[j] == v;
        assert(ref_views(after)[j] == v);
    }
    if !ref_views(before).contains(k@) && ref_views(before).no_duplicates() {
        assert forall|x: int, y: int|
            0 <= x < y < ref_views(after).len() implies ref_views(after)[x] != ref_views(
            after,
        )[y] by {
            if y == ref_views(after).len() - 1 {
                if ref_views(after)[x] == k@ {
                    assert(ref_views(before)[x] == k@);
                    assert(ref_views(before).contains(k@));
                }
            }
        }
    }
}

impl KanjiListing {
    /// Combined search. Each supplied criterion contributes its matches
    /// independently; the result is their union, de-duplicated by record
    /// value, so a record matching several criteria appears exactly once.
    /// With no criteria supplied the result is empty.
    pub fn search<'a>(
        kanjis: &'a Vec<KanjiListing>,
        index: Option<i32>,
        kanji: Option<&str>,
        meaning: Option<&str>,
    ) -> (r: Vec<&'a KanjiListing>)
        ensures
            ref_views(r@).no_duplicates(),
            forall|j: int|
                0 <= j < r@.len() ==> search_hit(
                    listing_views(kanjis@),
                    index,
                    opt_ref_view(kanji),
                    opt_ref_view(meaning),
                    #[trigger] ref_views(r@)[j],
                ),
            forall|v: ListingView|
                search_hit(listing_views(kanjis@), index, opt_ref_view(kanji), opt_ref_view(meaning), v)
                    ==> ref_views(r@).contains(v),
    {
        let ghost ks = listing_views(kanjis@);
        let ghost iv = index;
        let ghost kv = opt_ref_view(kanji);
        let ghost mv = opt_ref_view(meaning);
        let mut r: Vec<&'a KanjiListing> = Vec::new();

        if let Some(idx) = index {
            match Self::search_by_index(kanjis, idx) {
                Some(k) => {
                    let ghost before = r@;
                    r.push(k);
                    proof {
                        lemma_views_push(before, r@, k);
                    }
                },
                None => {},
            }
        }
        proof {
            assert(forall|j: int|
                0 <= j < r@.len() ==> search_hit(ks, iv, kv, mv, #[trigger] ref_views(r@)[j]));
            assert(ref_views(r@).no_duplicates());
            assert(forall|v: ListingView|
                (iv is Some && first_index_match(ks, iv->0 as int, 0) == Some(v)) ==> ref_views(
                    r@,
                ).contains(v)) by {
                if iv is Some {
                    if first_index_match(ks, iv->0 as int, 0) is Some {
                        assert(ref_views(r@)[0] == first_index_match(ks, iv->0 as int, 0)->0);
                    }
                }
            }
        }

        if let Some(s) = kanji {
            match Self::search_by_kanji(kanjis, s) {
                Some(k) => {
                    if !contains_listing(&r, k) {
                        let ghost before = r@;
                        r.push(k);
                        proof {
                            lemma_views_push(before, r@, k);
                        }
                    }
                },
                None => {},
            }
        }
        proof {
            assert(forall|j: int|
                0 <= j < r@.len() ==> search_hit(ks, iv, kv, mv, #[trigger] ref_views(r@)[j]));
            assert(ref_views(r@).no_duplicates());
            assert(forall|v: ListingView|
                ((iv is Some && first_index_match(ks, iv->0 as int, 0) == Some(v)) || (kv is Some
                    && first_kanji_match(ks, kv->0, 0) == Some(v))) ==> ref_views(r@).contains(v));
        }

        if let Some(m) = meaning {
            let ms = Self::search_by_meaning(kanjis, m);
            let mut i: usize = 0;
            while i < ms.len()
                invariant
                    0 <= i <= ms.len(),
                    kv == opt_ref_view(kanji),
                    mv == Some(m@),
                    forall|j: int|
                        0 <= j < ms@.len() ==> kanjis@.contains(*ms@[j]) && meaning_matches(
                            (#[trigger] ms@[j])@,
                            m@,
                        ),
                    ref_views(r@).no_duplicates(),
                    forall|j: int|
                        0 <= j < r@.len() ==> search_hit(ks, iv, kv, mv, #[trigger] ref_views(
                            r@,
                        )[j]),
                    forall|v: ListingView|
                        ((iv is Some && first_index_match(ks, iv->0 as int, 0) == Some(v)) || (
                        kv is Some && first_kanji_match(ks, kv->0, 0) == Some(v))) ==> ref_views(
                            r@,
                        ).contains(v),
                    forall|j: int| 0 <= j < i ==> ref_views(r@).contains((#[trigger] ms@[j])@),
                decreases ms.len() - i,
            {
                let k = ms[i];
                proof {
                    assert(ms@[i as int] == k);
                    let kj = choose|kj: int| 0 <= kj < kanjis@.len() && kanjis@[kj] == *k;
                    assert(ks[kj] == kanjis@[kj]@);
                    assert(ks.contains(k@));
                }
                if !contains_listing(&r, k) {
                    let ghost before = r@;
                    r.push(k);
                    proof {
                        lemma_views_push(before, r@, k);
                    }
                }
                i += 1;
            }
            proof {
                assert(forall|v: ListingView|
                    (mv is Some && ks.contains(v) && meaning_matches(v, mv->0)) ==> ref_views(
                        r@,
                    ).contains(v)) by {
                    assert forall|v: ListingView|
                        mv is Some && ks.contains(v) && meaning_matches(
                            v,
                            mv->0,
                        ) implies ref_views(r@).contains(v) by {
                        let kj = choose|kj: int| 0 <= kj < ks.len() && ks[kj] == v;
                        assert(ks[kj] == kanjis@[kj]@);
                        assert(meaning_matches(kanjis@[kj]@, m@));
                        assert(ms@.contains(&kanjis@[kj]));
                        let mj = choose|mj: int| 0 <= mj < ms@.len() && ms@[mj] == &kanjis@[kj];
                        assert(ref_views(r@).contains(ms@[mj]@));
                    }
                }
            }
        }
        r
    }
}

/// Search union and de-duplication: the combined search returns no
/// duplicate record values, so a listing matching several criteria — say
/// both an index criterion and a meaning-substring criterion — stands at
/// exactly one position of the result.
pub proof fn lemma_search_hit_appears_once(vs: Seq<ListingView>, v: ListingView)
    requires
        vs.no_duplicates(),
        vs.contains(v),
    ensures
        exists|i: int| 0 <= i < vs.len() && vs[i] == v,
        forall|i: int, j: int|
            0 <= i < vs.len() && 0 <= j < vs.len() && (#[trigger] vs[i]) == v && (#[trigger] vs[j])
                == v ==> i == j,
{
    assert forall|i: int, j: int|
        0 <= i < vs.len() && 0 <= j < vs.len() && (#[trigger] vs[i]) == v && (#[trigger] vs[j])
            == v implies i == j by {
        if i != j {
            assert(vs[i] != vs[j]);
        }
    }
}

/// The in-memory search index: the listing collection, queried in place.
pub struct KanjiDatabase {
    pub kanjis: Vec<KanjiListing>,
}

impl KanjiDatabase {
    /// Combined search over the held collection; see [`KanjiListing::search`].
    pub fn search<'a>(
        &'a self,
        index: Option<i32>,
        kanji: Option<&str>,
        meaning: Option<&str>,
    ) -> (r: Vec<&'a KanjiListing>)
        ensures
            ref_views(r@).no_duplicates(),
            forall|j: int|
                0 <= j < r@.len() ==> search_hit(
                    listing_views(self.kanjis@),
                    index,
                    opt_ref_view(kanji),
                    opt_ref_view(meaning),
                    #[trigger] ref_views(r@)[j],
                ),
            forall|v: ListingView|
                search_hit(
                    listing_views(self.kanjis@),
                    index,
                    opt_ref_view(kanji),
                    opt_ref_view(meaning),
                    v,
                ) ==> ref_views(r@).contains(v),
    {
        KanjiListing::search(&self.kanjis, index, kanji, meaning)
    }
}

#[verifier::external_type_specification]
#[verifier::external_body]
#[verifier::reject_recursive_types(T)]
pub struct ExMutex<T: ?Sized>(std::sync::Mutex<T>);

/// The process-wide search index behind a mutual-exclusion lock.
pub struct KanjiDatabaseState(pub std::sync::Mutex<KanjiDatabase>);

impl KanjiDatabaseState {
    /// Relies on `std::sync::Mutex::new` of std: stores the database behind
    /// a lock.
    #[verifier::external_body]
    pub fn new(db: KanjiDatabase) -> Self {
        KanjiDatabaseState(std::sync::Mutex::new(db))
    }

    /// Relies on `std::sync::Mutex::lock` of std: yields a copy of the
    /// listings stored at the time of the call, or an error when the lock is
    /// poisoned. Which listings those are depends on process state, so
    /// nothing is promised of the copied value.
    #[verifier::external_body]
    pub fn snapshot(&self) -> Result<Vec<KanjiListing>, CommandError> {
        match self.0.lock() {
            Ok(guard) => Ok(guard.kanjis.clone()),
            Err(_) => Err(CommandError { message: String::from("Failed to lock database") }),
        }
    }
}

/// Whether a single listing satisfies at least one supplied criterion on its
/// own: its index equals the index criterion, its glyph equals the glyph
/// criterion, or its case-folded meaning contains the case-folded term.
pub open spec fn criterion_hit(
    idx: Option<i32>,
    kanji: Option<Seq<char>>,
    meaning: Option<Seq<char>>,
    v: ListingView,
) -> bool {
    ||| (idx is Some && v.index == idx->0 as int)
    ||| (kanji is Some && v.kanji == kanji->0)
    ||| (meaning is Some && meaning_matches(v, meaning->0))
}

/// Queries the shared index: takes a snapshot of the listings under the
/// lock and runs the combined search on it. Whatever collection the
/// snapshot held, the result has no duplicate records and every returned
/// record satisfies one of the supplied criteria; locking failures are
/// reported as an error message.
pub fn search_kanji(
    state: &KanjiDatabaseState,
    index: Option<i32>,
    kanji: Option<&str>,
    meaning: Option<&str>,
) -> (r: Result<Vec<KanjiListing>, String>)
    ensures
        match r {
            Ok(v) => listing_views(v@).no_duplicates() && forall|j: int|
                0 <= j < v@.len() ==> criterion_hit(
                    index,
                    opt_ref_view(kanji),
                    opt_ref_view(meaning),
                    #[trigger] listing_views(v@)[j],
                ),
            Err(_) => true,
        },
{
    let ks = match state.snapshot() {
        Ok(ks) => ks,
        Err(e) => {
            return Err(e.message);
        },
    };
    let ghost kvs = listing_views(ks@);
    let found = KanjiListing::search(&ks, index, kanji, meaning);
    let mut out: Vec<KanjiListing> = Vec::new();
    let mut i: usize = 0;
    while i < found.len()
        invariant
            0 <= i <= found.len(),
            ref_views(found@).no_duplicates(),
            forall|j: int|
                0 <= j < found@.len() ==> search_hit(
                    kvs,
                    index,
                    opt_ref_view(kanji),
                    opt_ref_view(meaning),
                    #[trigger] ref_views(found@)[j],
                ),
            listing_views(out@) =~= ref_views(found@).subrange(0, i as int),
        decreases found.len() - i,
    {
        let ghost before = out@;
        out.push(found[i].clone());
        proof {
            assert(ref_views(found@)[i as int] == found@[i as int]@);
            assert(listing_views(out@) =~= listing_views(before) + seq![found@[i as int]@]);
        }
        i += 1;
    }
    proof {
        assert(listing_views(out@) =~= ref_views(found@));
        assert forall|j: int| 0 <= j < out@.len() implies criterion_hit(
            index,
            opt_ref_view(kanji),
            opt_ref_view(meaning),
            #[trigger] listing_views(out@)[j],
        ) by {
            assert(search_hit(
                kvs,
                index,
                opt_ref_view(kanji),
                opt_ref_view(meaning),
                ref_views(found@)[j],
            ));
            lemma_first_index_match_props(kvs, index->0 as int, 0);
            if opt_ref_view(kanji) is Some {
                lemma_first_kanji_match_props(kvs, opt_ref_view(kanji)->0, 0);
            }
        }
    }
    Ok(out)
}

} // verus!
