//! The metadata of one photo or video, and how it is normalized.
use vstd::prelude::*;

use crate::text::{same_text, to_sentence_case};

verus! {

use vstd::seq_lib::lemma_seq_contains_after_push;
use crate::text::{
    ascii_lowercase_and_trim_commute, ascii_lowercase_is_stable, ascii_sentence_case_is_stable,
    is_ascii_text, is_white_space, lowercase, lowercase_touches_capitals_only, sentence_cased,
    texts, trimmed, trimming_finds_what_white_space_surrounds, unicode_lowercase,
};

/// The title, caption and keywords of one photo or video.
#[derive(Debug, PartialEq, Eq)]
pub struct StockMetadata {
    pub title: String,
    pub description: String,
    pub keywords: Vec<String>,
}

/// The text of a `StockMetadata`.
#[verifier::ext_equal]
pub ghost struct MetadataText {
    pub title: Seq<char>,
    pub description: Seq<char>,
    pub keywords: Seq<Seq<char>>,
}

impl View for StockMetadata {
    type V = MetadataText;

    open spec fn view(&self) -> MetadataText {
        MetadataText {
            title: self.title@,
            description: self.description@,
            keywords: texts(self.keywords@),
        }
    }
}

fn copy_texts(v: &Vec<String>) -> (r: Vec<String>)
    ensures
        texts(r@) == texts(v@),
{
    let mut out: Vec<String> = Vec::new();
    for i in 0..v.len()
        invariant
            out@ == v@.take(i as int),
    {
        out.push(v[i].clone());
        assert(out@ =~= v@.take(i + 1));
    }
    assert(v@.take(v@.len() as int) == v@);
    out
}

impl Clone for StockMetadata {
    fn clone(&self) -> (r: Self)
        ensures
            r@ == self@,
    {
        StockMetadata {
            title: self.title.clone(),
            description: self.description.clone(),
            keywords: copy_texts(&self.keywords),
        }
    }
}

/// A keyword as it is embedded: trimmed and in lower case.
pub open spec fn keyword_form(k: Seq<char>) -> Seq<char> {
    lowercase(trimmed(k))
}

/// The texts in their order, without blank ones and without those that came
/// before.
pub open spec fn distinct_filled(forms: Seq<Seq<char>>) -> Seq<Seq<char>>
    decreases forms.len(),
{
    if forms.len() == 0 {
        Seq::empty()
    } else {
        let before = distinct_filled(forms.drop_last());
        let k = forms.last();
        if k.len() > 0 && !before.contains(k) {
            before.push(k)
        } else {
            before
        }
    }
}

/// The embedded forms of keywords.
pub open spec fn keyword_forms(ks: Seq<Seq<char>>) -> Seq<Seq<char>> {
    ks.map_values(|k: Seq<char>| keyword_form(k))
}

/// The keywords in the form in which they are embedded, in their order, without
/// blank ones and without those that came before.
pub open spec fn distinct_keywords(ks: Seq<Seq<char>>) -> Seq<Seq<char>> {
    distinct_filled(keyword_forms(ks))
}

/// Metadata as stock agencies expect it: sentence case for title and
/// description, distinct keywords in lower case.
pub open spec fn normalized(m: MetadataText) -> MetadataText {
    MetadataText {
        title: sentence_cased(m.title),
        description: sentence_cased(m.description),
        keywords: distinct_keywords(m.keywords),
    }
}

/// Whether `list` holds the text `k`.
fn holds_text(list: &Vec<String>, k: &str) -> (r: bool)
    ensures
        r == texts(list@).contains(k@),
{
    for i in 0..list.len()
        invariant
            forall|j: int| 0 <= j < i ==> texts(list@)[j] != k@,
    {
        if same_text(list[i].as_str(), k) {
            assert(texts(list@)[i as int] == k@);
            return true;
        }
    }
    false
}

/// Drops blank and repeated texts.
pub fn keep_distinct(forms: &Vec<String>) -> (r: Vec<String>)
    ensures
        texts(r@) == distinct_filled(texts(forms@)),
{
    let mut kept: Vec<String> = Vec::new();
    for i in 0..forms.len()
        invariant
            texts(kept@) == distinct_filled(texts(forms@).take(i as int)),
    {
        let k = forms[i].as_str();
        assert(k@ == texts(forms@)[i as int]);
        assert(texts(forms@).take(i + 1).drop_last() == texts(forms@).take(i as int));
        if !k.is_empty() && !holds_text(&kept, k) {
            let ghost before = texts(kept@);
            kept.push(k.to_owned());
            assert(texts(kept@) == before.push(k@));
        }
    }
    assert(texts(forms@).take(forms@.len() as int) == texts(forms@));
    kept
}

/// Brings keywords into the form in which they are embedded and drops blank and
/// repeated ones.
pub fn normalize_keywords(keywords: &Vec<String>) -> (r: Vec<String>)
    ensures
        texts(r@) == distinct_keywords(texts(keywords@)),
{
    let mut forms: Vec<String> = Vec::new();
    for i in 0..keywords.len()
        invariant
            texts(forms@) == keyword_forms(texts(keywords@)).take(i as int),
    {
        let k = keywords[i].as_str().trim().to_lowercase();
        let ghost before = texts(forms@);
        assert(k@ == keyword_forms(texts(keywords@))[i as int]);
        forms.push(k);
        assert(texts(forms@) == before.push(k@));
        assert(texts(forms@) =~= keyword_forms(texts(keywords@)).take(i + 1));
    }
    assert(texts(forms@) =~= keyword_forms(texts(keywords@)));
    keep_distinct(&forms)
}

/// Normalizes the metadata of one photo or video.
pub fn normalize(metadata: &StockMetadata) -> (r: StockMetadata)
    ensures
        r@ == normalized(metadata@),
{
    StockMetadata {
        title: to_sentence_case(metadata.title.as_str()),
        description: to_sentence_case(metadata.description.as_str()),
        keywords: normalize_keywords(&metadata.keywords),
    }
}

/// The texts of a list of metadata.
pub open spec fn metadata_texts(v: Seq<StockMetadata>) -> Seq<MetadataText> {
    v.map_values(|m: StockMetadata| m@)
}

/// Every entry normalized.
pub open spec fn all_normalized(ms: Seq<MetadataText>) -> Seq<MetadataText> {
    ms.map_values(|m: MetadataText| normalized(m))
}

/// Normalizes every entry of a reply.
pub fn normalize_results(results: &Vec<StockMetadata>) -> (r: Vec<StockMetadata>)
    ensures
        metadata_texts(r@) == all_normalized(metadata_texts(results@)),
{
    let mut out: Vec<StockMetadata> = Vec::new();
    for i in 0..results.len()
        invariant
            out.len() == i,
            forall|j: int| 0 <= j < i ==> (#[trigger] out[j])@ == normalized(results[j]@),
    {
        out.push(normalize(&results[i]));
    }
    out
}

proof fn lemma_distinct_filled(forms: Seq<Seq<char>>)
    ensures
        distinct_filled(forms).no_duplicates(),
        distinct_filled(forms).len() <= forms.len(),
    decreases forms.len(),
{
    if forms.len() > 0 {
        lemma_distinct_filled(forms.drop_last());
    }
}

proof fn lemma_filled_kept(forms: Seq<Seq<char>>, k: Seq<char>)
    ensures
        distinct_filled(forms).contains(k) <==> k.len() > 0 && forms.contains(k),
    decreases forms.len(),
{
    if forms.len() > 0 {
        let rest = forms.drop_last();
        let before = distinct_filled(rest);
        let last = forms.last();
        lemma_filled_kept(rest, k);
        lemma_filled_kept(rest, last);
        assert(rest.push(last) == forms);
        lemma_seq_contains_after_push(rest, last, k);
        lemma_seq_contains_after_push(before, last, k);
    }
}

proof fn lemma_filled_order(forms: Seq<Seq<char>>, a: int, b: int)
    requires
        0 <= a < b < distinct_filled(forms).len(),
    ensures
        exists|i: int|
            0 <= i < forms.len() && #[trigger] forms[i] == distinct_filled(forms)[a] && forall|
                j: int,
            |
                0 <= j <= i ==> #[trigger] forms[j] != distinct_filled(forms)[b],
    decreases forms.len(),
{
    let rest = forms.drop_last();
    let before = distinct_filled(rest);
    let last = forms.last();
    if b < before.len() {
        lemma_filled_order(rest, a, b);
        let i = choose|i: int|
            0 <= i < rest.len() && #[trigger] rest[i] == before[a] && forall|j: int|
                0 <= j <= i ==> #[trigger] rest[j] != before[b];
        assert(forms[i] == distinct_filled(forms)[a]);
        assert forall|j: int| 0 <= j <= i implies #[trigger] forms[j] != distinct_filled(
            forms,
        )[b] by {
            assert(rest[j] != before[b]);
        }
    } else {
        assert(before.contains(before[a]));
        lemma_filled_kept(rest, before[a]);
        lemma_filled_kept(rest, last);
        let i = choose|i: int| 0 <= i < rest.len() && rest[i] == before[a];
        assert(forms[i] == distinct_filled(forms)[a]);
        assert forall|j: int| 0 <= j <= i implies #[trigger] forms[j] != distinct_filled(
            forms,
        )[b] by {
            assert(rest[j] == forms[j]);
        }
    }
}

/// Of a list of texts the first of each is kept, in their order, and no blank
/// one: a text that is kept before another one comes before every occurrence of
/// the other.
pub proof fn distinct_texts_are_kept(forms: Seq<Seq<char>>, k: Seq<char>, a: int, b: int)
    ensures
        distinct_filled(forms).no_duplicates(),
        distinct_filled(forms).contains(k) <==> k.len() > 0 && forms.contains(k),
        0 <= a < b < distinct_filled(forms).len() ==> exists|i: int|
            0 <= i < forms.len() && #[trigger] forms[i] == distinct_filled(forms)[a] && forall|
                j: int,
            |
                0 <= j <= i ==> #[trigger] forms[j] != distinct_filled(forms)[b],
{
    lemma_distinct_filled(forms);
    lemma_filled_kept(forms, k);
    if 0 <= a < b < distinct_filled(forms).len() {
        lemma_filled_order(forms, a, b);
    }
}

/// Embedded keywords never repeat.
pub proof fn keywords_are_distinct(ks: Seq<Seq<char>>)
    ensures
        distinct_keywords(ks).no_duplicates(),
{
    lemma_distinct_filled(keyword_forms(ks));
}

/// The embedded keywords are the given ones, in their embedded form, but for
/// the blank ones: none is lost and none is added.
pub proof fn keywords_are_kept(ks: Seq<Seq<char>>, k: Seq<char>)
    ensures
        distinct_keywords(ks).contains(k) <==> k.len() > 0 && exists|i: int|
            0 <= i < ks.len() && keyword_form(#[trigger] ks[i]) == k,
{
    let forms = keyword_forms(ks);
    lemma_filled_kept(forms, k);
    if forms.contains(k) {
        let i = choose|i: int| 0 <= i < forms.len() && forms[i] == k;
        assert(keyword_form(ks[i]) == k);
    }
    if exists|i: int| 0 <= i < ks.len() && keyword_form(#[trigger] ks[i]) == k {
        let i = choose|i: int| 0 <= i < ks.len() && keyword_form(#[trigger] ks[i]) == k;
        assert(forms[i] == k);
    }
}

/// The embedded keywords keep the order of precedence: a keyword that is
/// embedded before another one occurs, among the given ones, before every
/// occurrence of the other.
pub proof fn keywords_keep_their_order(ks: Seq<Seq<char>>, a: int, b: int)
    requires
        0 <= a < b < distinct_keywords(ks).len(),
    ensures
        exists|i: int|
            0 <= i < ks.len() && keyword_form(#[trigger] ks[i]) == distinct_keywords(ks)[a]
                && forall|j: int|
                0 <= j <= i ==> keyword_form(#[trigger] ks[j]) != distinct_keywords(ks)[b],
{
    let forms = keyword_forms(ks);
    lemma_filled_order(forms, a, b);
    let i = choose|i: int|
        0 <= i < forms.len() && #[trigger] forms[i] == distinct_filled(forms)[a] && forall|j: int|
            0 <= j <= i ==> #[trigger] forms[j] != distinct_filled(forms)[b];
    assert(keyword_form(ks[i]) == distinct_keywords(ks)[a]);
    assert forall|j: int| 0 <= j <= i implies keyword_form(#[trigger] ks[j]) != distinct_keywords(
        ks,
    )[b] by {
        assert(forms[j] == keyword_form(ks[j]));
    }
}

/// Normalization never adds keywords: a reply that keeps to a limit still keeps
/// to it.
pub proof fn keywords_never_grow(ks: Seq<Seq<char>>)
    ensures
        distinct_keywords(ks).len() <= ks.len(),
{
    lemma_distinct_filled(keyword_forms(ks));
}

/// Keywords are compared without regard to case and to the white space around
/// them: two ASCII keywords that differ in no more have one embedded form.
pub proof fn keywords_ignore_case(a: Seq<char>, b: Seq<char>)
    requires
        is_ascii_text(a),
        is_ascii_text(b),
        trimmed(lowercase(a)) == trimmed(lowercase(b)),
    ensures
        keyword_form(a) == keyword_form(b),
{
    ascii_lowercase_and_trim_commute(a);
    ascii_lowercase_and_trim_commute(b);
}

/// Normalizing ASCII metadata a second time changes nothing.
pub proof fn ascii_normalization_is_stable(m: MetadataText)
    requires
        is_ascii_text(m.title),
        is_ascii_text(m.description),
        forall|i: int| 0 <= i < m.keywords.len() ==> is_ascii_text(#[trigger] m.keywords[i]),
    ensures
        normalized(normalized(m)) == normalized(m),
{
    ascii_sentence_case_is_stable(m.title);
    ascii_sentence_case_is_stable(m.description);
    let d = distinct_keywords(m.keywords);
    assert forall|i: int| 0 <= i < d.len() implies keyword_form(#[trigger] d[i]) == d[i]
        && d[i].len() > 0 by {
        assert(d.contains(d[i]));
        keywords_are_kept(m.keywords, d[i]);
        let k = choose|k: int|
            0 <= k < m.keywords.len() && keyword_form(#[trigger] m.keywords[k]) == d[i];
        assert(is_ascii_text(m.keywords[k]));
        ascii_lowercase_and_trim_commute(m.keywords[k]);
        ascii_lowercase_is_stable(m.keywords[k]);
        ascii_lowercase_is_stable(trimmed(m.keywords[k]));
    }
    keywords_are_distinct(m.keywords);
    assert(keyword_forms(d) =~= d);
    lemma_distinct_stays(d);
}

proof fn lemma_distinct_stays(d: Seq<Seq<char>>)
    requires
        d.no_duplicates(),
        forall|i: int| 0 <= i < d.len() ==> (#[trigger] d[i]).len() > 0,
    ensures
        distinct_filled(d) == d,
    decreases d.len(),
{
    if d.len() > 0 {
        let rest = d.drop_last();
        assert forall|i: int| 0 <= i < rest.len() implies (#[trigger] rest[i]).len() > 0 by {
            assert(d[i].len() > 0);
        }
        lemma_distinct_stays(rest);
        if rest.contains(d.last()) {
            let i = choose|i: int| 0 <= i < rest.len() && rest[i] == d.last();
            assert(d[i] == d[d.len() - 1]);
        }
        assert(d[d.len() - 1].len() > 0);
        assert(rest.push(d.last()) == d);
    }
}

/// One keyword more: a blank one adds nothing, and neither does one that is there
/// already but for case and the white space around it. Any other is added behind
/// the rest, trimmed and in lower case, however long it is.
pub proof fn keywords_are_taken_one_by_one(ks: Seq<Seq<char>>, k: Seq<char>)
    ensures
        distinct_keywords(Seq::empty()) == Seq::<Seq<char>>::empty(),
        distinct_keywords(ks.push(k)) == (if lowercase(trimmed(k)).len() == 0 || distinct_keywords(
            ks,
        ).contains(lowercase(trimmed(k))) {
            distinct_keywords(ks)
        } else {
            distinct_keywords(ks).push(lowercase(trimmed(k)))
        }),
{
    assert(keyword_forms(ks.push(k)).drop_last() =~= keyword_forms(ks));
    assert(keyword_forms(Seq::<Seq<char>>::empty()) =~= Seq::empty());
}

/// A keyword that has a character other than white space is kept, in lower case
/// and without the white space around it: where the core of a keyword is ASCII,
/// the result holds a keyword of the same length with a small letter for each
/// capital and the same characters otherwise; where it is not, the result holds
/// its Unicode lower case unless that is empty.
pub proof fn no_filled_keyword_is_lost(
    ks: Seq<Seq<char>>,
    i: int,
    before: Seq<char>,
    core: Seq<char>,
    behind: Seq<char>,
)
    requires
        0 <= i < ks.len(),
        ks[i] == before + core + behind,
        forall|j: int| 0 <= j < before.len() ==> is_white_space(#[trigger] before[j]),
        forall|j: int| 0 <= j < behind.len() ==> is_white_space(#[trigger] behind[j]),
        core.len() > 0,
        !is_white_space(core[0]),
        !is_white_space(core[core.len() - 1]),
    ensures
        (forall|j: int| 0 <= j < core.len() ==> (#[trigger] core[j] as u32) < 0x80)
            ==> distinct_keywords(ks).contains(
            Seq::new(
                core.len(),
                |j: int|
                    if 'A' <= core[j] <= 'Z' {
                        (core[j] as u32 + 32) as char
                    } else {
                        core[j]
                    },
            ),
        ),
        (exists|j: int| 0 <= j < core.len() && (#[trigger] core[j] as u32) >= 0x80)
            && unicode_lowercase(core).len() > 0 ==> distinct_keywords(ks).contains(
            unicode_lowercase(core),
        ),
{
    trimming_finds_what_white_space_surrounds(before, core, behind);
    lowercase_touches_capitals_only(core);
    keywords_are_kept(ks, lowercase(core));
    assert(keyword_form(ks[i]) == lowercase(core));
    let small = Seq::new(
        core.len(),
        |j: int|
            if 'A' <= core[j] <= 'Z' {
                (core[j] as u32 + 32) as char
            } else {
                core[j]
            },
    );
    if forall|j: int| 0 <= j < core.len() ==> (#[trigger] core[j] as u32) < 0x80 {
        assert(lowercase(core) =~= small);
    }
}

/// No keyword is made up: every keyword of the result is a given one, trimmed and
/// in lower case, and none is empty or there twice.
pub proof fn no_keyword_is_made_up(ks: Seq<Seq<char>>, a: int, b: int) -> (i: int)
    requires
        0 <= a < distinct_keywords(ks).len(),
        0 <= b < distinct_keywords(ks).len(),
    ensures
        0 <= i < ks.len(),
        distinct_keywords(ks)[a] == lowercase(trimmed(ks[i])),
        distinct_keywords(ks)[a].len() > 0,
        a != b ==> distinct_keywords(ks)[a] != distinct_keywords(ks)[b],
{
    let k = distinct_keywords(ks)[a];
    assert(distinct_keywords(ks).contains(k));
    keywords_are_kept(ks, k);
    keywords_are_distinct(ks);
    choose|i: int| 0 <= i < ks.len() && keyword_form(#[trigger] ks[i]) == k
}

/// Title and description are put in sentence case, each by itself, and the
/// keywords are normalized. Every entry of a reply is treated so, at its place.
pub proof fn every_entry_is_normalized(ms: Seq<MetadataText>, i: int)
    ensures
        all_normalized(ms).len() == ms.len(),
        0 <= i < ms.len() ==> all_normalized(ms)[i].title == sentence_cased(ms[i].title)
            && all_normalized(ms)[i].description == sentence_cased(ms[i].description)
            && all_normalized(ms)[i].keywords == distinct_keywords(ms[i].keywords) && normalized(
            ms[i],
        ) == all_normalized(ms)[i],
{
}

/// Metadata is seen as it is: title, description, and every keyword at its place.
pub proof fn metadata_is_seen_whole(v: Seq<StockMetadata>, i: int, k: int)
    ensures
        metadata_texts(v).len() == v.len(),
        0 <= i < v.len() ==> metadata_texts(v)[i].title == v[i].title@ && metadata_texts(
            v,
        )[i].description == v[i].description@ && metadata_texts(v)[i].keywords.len()
            == v[i].keywords@.len() && v[i]@ == metadata_texts(v)[i],
        0 <= i < v.len() && 0 <= k < v[i].keywords@.len() ==> metadata_texts(v)[i].keywords[k]
            == v[i].keywords@[k]@,
{
}

} // verus!
