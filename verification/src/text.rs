//! Text as sequences of characters: what the standard library's string
//! functions return, and the small string functions the tagger builds on them.
use vstd::prelude::*;

verus! {

/// The Unicode property `White_Space`.
pub open spec fn is_white_space(c: char) -> bool {
    let u = c as u32;
    ||| 0x9 <= u <= 0xd
    ||| u == 0x20
    ||| u == 0x85
    ||| u == 0xa0
    ||| u == 0x1680
    ||| 0x2000 <= u <= 0x200a
    ||| u == 0x2028
    ||| u == 0x2029
    ||| u == 0x202f
    ||| u == 0x205f
    ||| u == 0x3000
}

/// `s` without the white space that it starts with.
pub open spec fn trimmed_start(s: Seq<char>) -> Seq<char>
    decreases s.len(),
{
    if s.len() > 0 && is_white_space(s[0]) {
        trimmed_start(s.drop_first())
    } else {
        s
    }
}

/// `s` without the white space that it ends with.
pub open spec fn trimmed_end(s: Seq<char>) -> Seq<char>
    decreases s.len(),
{
    if s.len() > 0 && is_white_space(s.last()) {
        trimmed_end(s.drop_last())
    } else {
        s
    }
}

/// `s` without the white space around it.
pub open spec fn trimmed(s: Seq<char>) -> Seq<char> {
    trimmed_end(trimmed_start(s))
}

/// The characters of ASCII.
pub open spec fn is_ascii_char(c: char) -> bool {
    (c as u32) < 0x80
}

pub open spec fn is_ascii_text(s: Seq<char>) -> bool {
    forall|i: int| 0 <= i < s.len() ==> is_ascii_char(#[trigger] s[i])
}

pub open spec fn is_ascii_letter(c: char) -> bool {
    'a' <= c <= 'z' || 'A' <= c <= 'Z'
}

pub open spec fn ascii_lower(c: char) -> char {
    if 'A' <= c <= 'Z' {
        (c as u32 + 32) as char
    } else {
        c
    }
}

pub open spec fn ascii_upper(c: char) -> char {
    if 'a' <= c <= 'z' {
        (c as u32 - 32) as char
    } else {
        c
    }
}

/// Whether a character beyond ASCII has the Unicode property `Alphabetic`:
/// what `char::is_alphabetic` returns.
pub uninterp spec fn unicode_alphabetic(c: char) -> bool;

/// The Unicode upper case of a character beyond ASCII: what
/// `char::to_uppercase` yields.
pub uninterp spec fn unicode_uppercase(c: char) -> Seq<char>;

/// The Unicode lower case of a text that is not all ASCII: what
/// `str::to_lowercase` returns.
pub uninterp spec fn unicode_lowercase(s: Seq<char>) -> Seq<char>;

/// Whether `c` is a letter.
pub open spec fn alphabetic(c: char) -> bool {
    if is_ascii_char(c) {
        is_ascii_letter(c)
    } else {
        unicode_alphabetic(c)
    }
}

/// The upper case of `c`, which may take more than one character.
pub open spec fn uppercase(c: char) -> Seq<char> {
    if is_ascii_char(c) {
        seq![ascii_upper(c)]
    } else {
        unicode_uppercase(c)
    }
}

/// `s` in lower case.
pub open spec fn lowercase(s: Seq<char>) -> Seq<char> {
    if is_ascii_text(s) {
        s.map_values(|c: char| ascii_lower(c))
    } else {
        unicode_lowercase(s)
    }
}

/// `String::push` appends one character.
pub assume_specification[ String::push ](s: &mut String, c: char)
    ensures
        final(s)@ == old(s)@.push(c),
;

/// `str::trim` removes the white space (the Unicode property `White_Space`)
/// at both ends.
pub assume_specification[ str::trim ](s: &str) -> (r: &str)
    ensures
        r@ == trimmed(s@),
;

/// `str::trim_start` removes the white space at the start.
pub assume_specification[ str::trim_start ](s: &str) -> (r: &str)
    ensures
        r@ == trimmed_start(s@),
;

/// `str::to_lowercase` maps ASCII text letter by letter; of other text the
/// contract says that the result is a function of the text.
pub assume_specification[ str::to_lowercase ](s: &str) -> (r: String)
    ensures
        is_ascii_text(s@) ==> r@ == s@.map_values(|c: char| ascii_lower(c)),
        !is_ascii_text(s@) ==> r@ == unicode_lowercase(s@),
;

/// `char::is_alphabetic` holds of the ASCII letters and of no other ASCII
/// character; of other characters the contract says that the answer is a
/// function of the character.
pub assume_specification[ char::is_alphabetic ](c: char) -> (b: bool)
    ensures
        is_ascii_char(c) ==> b == is_ascii_letter(c),
        !is_ascii_char(c) ==> b == unicode_alphabetic(c),
;

/// The upper case of one character, from `char::to_uppercase`: one character
/// for ASCII; for other characters a function of the character.
#[verifier::external_body]
fn upper(c: char) -> (r: String)
    ensures
        is_ascii_char(c) ==> r@ == seq![ascii_upper(c)],
        !is_ascii_char(c) ==> r@ == unicode_uppercase(c),
{
    c.to_uppercase().to_string()
}

/// The views of a list of strings.
pub open spec fn texts(v: Seq<String>) -> Seq<Seq<char>> {
    v.map_values(|s: String| s@)
}

/// The view of an optional string.
pub open spec fn text_of(o: Option<String>) -> Option<Seq<char>> {
    match o {
        Some(s) => Some(s@),
        None => None,
    }
}

/// Whether `s` starts with `p`.
pub open spec fn has_prefix(s: Seq<char>, p: Seq<char>) -> bool {
    p.len() <= s.len() && s.take(p.len() as int) == p
}

/// Whether `s` ends with `p`.
pub open spec fn has_suffix(s: Seq<char>, p: Seq<char>) -> bool {
    p.len() <= s.len() && s.skip(s.len() - p.len()) == p
}

/// Whether two texts are the same.
pub fn same_text(a: &str, b: &str) -> (r: bool)
    ensures
        r == (a@ == b@),
{
    a.to_owned() == b.to_owned()
}

/// The rest of `s` behind `p`, if it starts with `p`.
pub fn strip_prefix<'a>(s: &'a str, p: &str) -> (r: Option<&'a str>)
    ensures
        r is Some <==> has_prefix(s@, p@),
        r matches Some(rest) ==> rest@ == s@.skip(p@.len() as int),
{
    let n: usize = s.unicode_len();
    let k: usize = p.unicode_len();
    if k <= n && same_text(s.substring_char(0, k), p) {
        Some(s.substring_char(k, n))
    } else {
        None
    }
}

/// What stands before `p` in `s`, if it ends with `p`.
pub fn strip_suffix<'a>(s: &'a str, p: &str) -> (r: Option<&'a str>)
    ensures
        r is Some <==> has_suffix(s@, p@),
        r matches Some(rest) ==> rest@ == s@.take(s@.len() - p@.len()),
{
    let n: usize = s.unicode_len();
    let k: usize = p.unicode_len();
    if k <= n && same_text(s.substring_char(n - k, n), p) {
        Some(s.substring_char(0, n - k))
    } else {
        None
    }
}

/// The marks with which a sentence can end.
pub open spec fn is_mark(c: char) -> bool {
    c == '.' || c == '!' || c == '?'
}

/// The punctuation that shows that the sentence goes on behind a mark, as it does
/// behind an abbreviation.
pub open spec fn goes_on(c: char) -> bool {
    c == ',' || c == ';' || c == ':'
}

/// What can stand between the mark that ends a sentence and the white space
/// behind it: more marks, quotes, brackets and other symbols, but no letter and
/// no digit.
pub open spec fn trails_mark(c: char) -> bool {
    !alphabetic(c) && !('0' <= c <= '9') && !is_white_space(c) && !goes_on(c)
}

/// The mark at position `k` ends a sentence: behind it, and behind what trails
/// it, the text ends or has white space at position `w`. A mark inside a number
/// or a word ends none.
pub open spec fn sentence_ends_at(s: Seq<char>, k: int, w: int) -> bool {
    &&& 0 <= k < w <= s.len()
    &&& is_mark(s[k])
    &&& forall|i: int| k < i < w ==> #[trigger] trails_mark(s[i])
    &&& w < s.len() ==> is_white_space(s[w])
}

/// Every letter before position `n` has a sentence end behind it, before `n`:
/// the next letter starts a sentence.
pub open spec fn at_sentence_start(s: Seq<char>, n: int) -> bool {
    forall|j: int|
        0 <= j < n && #[trigger] alphabetic(s[j]) ==> exists|k: int, w: int|
            j < k && w < n && #[trigger] sentence_ends_at(s, k, w)
}

/// Before position `n` stands a mark, with nothing behind it but what can trail
/// one.
spec fn behind_mark(s: Seq<char>, n: int) -> bool {
    exists|k: int|
        0 <= k < n && is_mark(#[trigger] s[k]) && forall|i: int|
            k < i < n ==> #[trigger] trails_mark(s[i])
}

/// The letter at position `i` is the first of its sentence.
pub open spec fn opens_sentence(s: Seq<char>, i: int) -> bool {
    alphabetic(s[i]) && at_sentence_start(s, i)
}

/// What sentence case makes of the character at position `i`.
pub open spec fn sentence_piece(s: Seq<char>, i: int) -> Seq<char> {
    if opens_sentence(s, i) {
        uppercase(s[i])
    } else {
        seq![s[i]]
    }
}

/// The first `n` characters of `s`, each sentence's first letter in upper case.
pub open spec fn sentences_capitalized_to(s: Seq<char>, n: int) -> Seq<char>
    decreases n,
{
    if n <= 0 {
        Seq::empty()
    } else {
        sentences_capitalized_to(s, n - 1) + sentence_piece(s, n - 1)
    }
}

/// `s` with each sentence's first letter in upper case.
pub open spec fn sentences_capitalized(s: Seq<char>) -> Seq<char> {
    sentences_capitalized_to(s, s.len() as int)
}

/// `s` in sentence case: trimmed, in lower case, and each sentence's first
/// letter in upper case.
pub open spec fn sentence_cased(s: Seq<char>) -> Seq<char> {
    sentences_capitalized(lowercase(trimmed(s)))
}

fn has_white_space_property(c: char) -> (r: bool)
    ensures
        r == is_white_space(c),
{
    let u: u32 = c as u32;
    (0x9 <= u && u <= 0xd) || u == 0x20 || u == 0x85 || u == 0xa0 || u == 0x1680 || (0x2000 <= u
        && u <= 0x200a) || u == 0x2028 || u == 0x2029 || u == 0x202f || u == 0x205f || u == 0x3000
}

/// How the character at position `i` changes what is known of the text before
/// it.
proof fn lemma_sentence_step(s: Seq<char>, i: int)
    requires
        0 <= i < s.len(),
    ensures
        alphabetic(s[i]) ==> !at_sentence_start(s, i + 1) && !behind_mark(s, i + 1),
        !alphabetic(s[i]) ==> (at_sentence_start(s, i + 1) <==> at_sentence_start(s, i) || (
        is_white_space(s[i]) && behind_mark(s, i))),
        behind_mark(s, i + 1) <==> is_mark(s[i]) || (behind_mark(s, i) && trails_mark(s[i])),
{
    if behind_mark(s, i + 1) {
        let k = choose|k: int|
            0 <= k < i + 1 && is_mark(#[trigger] s[k]) && forall|m: int|
                k < m < i + 1 ==> #[trigger] trails_mark(s[m]);
        if k < i {
            assert(trails_mark(s[i]));
            assert(is_mark(s[k]));
        }
    }
    if behind_mark(s, i) && trails_mark(s[i]) {
        let k = choose|k: int|
            0 <= k < i && is_mark(#[trigger] s[k]) && forall|m: int|
                k < m < i ==> #[trigger] trails_mark(s[m]);
        assert(is_mark(s[k]));
    }
    if !alphabetic(s[i]) {
        if at_sentence_start(s, i) {
            assert forall|j: int|
                0 <= j < i + 1 && #[trigger] alphabetic(s[j]) implies exists|k: int, w: int|
                j < k && w < i + 1 && #[trigger] sentence_ends_at(s, k, w) by {
                let (k, w) = choose|k: int, w: int|
                    j < k && w < i && #[trigger] sentence_ends_at(s, k, w);
                assert(sentence_ends_at(s, k, w));
            }
        } else if is_white_space(s[i]) && behind_mark(s, i) {
            let k = choose|k: int|
                0 <= k < i && is_mark(#[trigger] s[k]) && forall|m: int|
                    k < m < i ==> #[trigger] trails_mark(s[m]);
            assert(sentence_ends_at(s, k, i));
            assert forall|j: int|
                0 <= j < i + 1 && #[trigger] alphabetic(s[j]) implies exists|k: int, w: int|
                j < k && w < i + 1 && #[trigger] sentence_ends_at(s, k, w) by {
                if k < j {
                    assert(trails_mark(s[j]));
                }
                assert(j < k);
            }
        } else {
            let j = choose|j: int|
                0 <= j < i && #[trigger] alphabetic(s[j]) && !(exists|k: int, w: int|
                    j < k && w < i && #[trigger] sentence_ends_at(s, k, w));
            assert(alphabetic(s[j]));
            assert forall|k: int, w: int| j < k && w < i + 1 implies !#[trigger] sentence_ends_at(
                s,
                k,
                w,
            ) by {
                if sentence_ends_at(s, k, w) && w == i {
                    assert(is_mark(s[k]));
                    assert(behind_mark(s, i));
                }
            }
        }
    }
}

/// Puts the first letter of each sentence in upper case and leaves the rest.
pub fn capitalize_sentences(text: &str) -> (r: String)
    ensures
        r@ == sentences_capitalized(text@),
{
    let mut result = String::new();
    let mut capitalize_next = true;
    let mut mark_seen = false;
    for ch in it: text.chars()
        invariant
            it.seq() == text@,
            result@ == sentences_capitalized_to(text@, it.index()),
            capitalize_next == at_sentence_start(text@, it.index()),
            mark_seen == behind_mark(text@, it.index()),
    {
        let letter = ch.is_alphabetic();
        assert(ch == text@[it.index()]);
        if capitalize_next && letter {
            result.append(upper(ch).as_str());
        } else {
            result.push(ch);
            assert(result@ == sentences_capitalized_to(text@, it.index()) + seq![ch]);
        }
        proof {
            lemma_sentence_step(text@, it.index());
        }
        if letter {
            capitalize_next = false;
            mark_seen = false;
        } else if ch == '.' || ch == '!' || ch == '?' {
            mark_seen = true;
        } else if has_white_space_property(ch) {
            capitalize_next = capitalize_next || mark_seen;
            mark_seen = false;
        } else if ('0' <= ch && ch <= '9') || ch == ',' || ch == ';' || ch == ':' {
            mark_seen = false;
        }
    }
    result
}

/// A sentence starts only behind white space: a mark with no white space behind
/// it leaves the letters behind it as they are.
pub proof fn sentences_start_behind_white_space(s: Seq<char>, i: int)
    requires
        0 < i <= s.len(),
        !is_white_space(s[i - 1]),
    ensures
        at_sentence_start(s, i) ==> at_sentence_start(s, i - 1),
{
    lemma_sentence_step(s, i - 1);
}

/// Sentence case: a title or a caption reads the same however it was cased.
/// Proper nouns and acronyms lose their capitals too.
pub fn to_sentence_case(text: &str) -> (r: String)
    ensures
        r@ == sentence_cased(text@),
{
    let lowered = text.trim().to_lowercase();
    capitalize_sentences(lowered.as_str())
}

/// White space at the start does not count.
pub(crate) proof fn lemma_trimmed_start(s: Seq<char>)
    ensures
        trimmed_start(s).len() <= s.len(),
        trimmed_start(s) == s.skip(s.len() - trimmed_start(s).len()),
        trimmed_start(s).len() > 0 ==> !is_white_space(trimmed_start(s)[0]),
    decreases s.len(),
{
    if s.len() > 0 && is_white_space(s[0]) {
        lemma_trimmed_start(s.drop_first());
    }
}

pub(crate) proof fn lemma_trimmed_end(s: Seq<char>)
    ensures
        trimmed_end(s).len() <= s.len(),
        trimmed_end(s) == s.take(trimmed_end(s).len() as int),
        trimmed_end(s).len() > 0 ==> !is_white_space(trimmed_end(s).last()),
        s.len() > 0 && !is_white_space(s[0]) ==> trimmed_end(s).len() > 0,
    decreases s.len(),
{
    if s.len() > 0 && is_white_space(s.last()) {
        lemma_trimmed_end(s.drop_last());
    }
}

/// A trimmed text neither starts nor ends with white space, and trimming it
/// again changes nothing.
pub proof fn trimming_is_stable(s: Seq<char>)
    ensures
        trimmed(s).len() > 0 ==> !is_white_space(trimmed(s)[0]) && !is_white_space(
            trimmed(s).last(),
        ),
        trimmed(trimmed(s)) == trimmed(s),
{
    lemma_trimmed_start(s);
    lemma_trimmed_end(trimmed_start(s));
}

/// Trimming the start of `a + b` reaches `b` only where `a` is blank.
pub(crate) proof fn lemma_trimmed_start_concat(a: Seq<char>, b: Seq<char>)
    ensures
        trimmed_start(a).len() > 0 ==> trimmed_start(a + b) == trimmed_start(a) + b,
        trimmed_start(a).len() == 0 ==> trimmed_start(a + b) == trimmed_start(b),
    decreases a.len(),
{
    if a.len() == 0 {
        assert(a + b == b);
    } else if is_white_space(a[0]) {
        lemma_trimmed_start_concat(a.drop_first(), b);
        assert((a + b).drop_first() == a.drop_first() + b);
    }
}

proof fn lemma_lower_is_white_space(c: char)
    ensures
        is_white_space(ascii_lower(c)) == is_white_space(c),
{
}

proof fn lemma_lower_trimmed_start(s: Seq<char>)
    ensures
        trimmed_start(s.map_values(|c: char| ascii_lower(c))) == trimmed_start(s).map_values(
            |c: char| ascii_lower(c),
        ),
    decreases s.len(),
{
    let low = s.map_values(|c: char| ascii_lower(c));
    if s.len() > 0 {
        lemma_lower_is_white_space(s[0]);
        if is_white_space(s[0]) {
            lemma_lower_trimmed_start(s.drop_first());
            assert(low.drop_first() == s.drop_first().map_values(|c: char| ascii_lower(c)));
        }
    }
}

proof fn lemma_lower_trimmed_end(s: Seq<char>)
    ensures
        trimmed_end(s.map_values(|c: char| ascii_lower(c))) == trimmed_end(s).map_values(
            |c: char| ascii_lower(c),
        ),
    decreases s.len(),
{
    let low = s.map_values(|c: char| ascii_lower(c));
    if s.len() > 0 {
        lemma_lower_is_white_space(s.last());
        if is_white_space(s.last()) {
            lemma_lower_trimmed_end(s.drop_last());
            assert(low.drop_last() == s.drop_last().map_values(|c: char| ascii_lower(c)));
        }
    }
}

/// On ASCII text, trimming and lower case do not disturb each other.
pub proof fn ascii_lowercase_and_trim_commute(s: Seq<char>)
    requires
        is_ascii_text(s),
    ensures
        is_ascii_text(trimmed(s)),
        trimmed(lowercase(s)) == lowercase(trimmed(s)),
{
    lemma_trimmed_start(s);
    lemma_trimmed_end(trimmed_start(s));
    lemma_lower_trimmed_start(s);
    lemma_lower_trimmed_end(trimmed_start(s));
    assert(is_ascii_text(trimmed(s)));
}

/// ASCII text in lower case stays as it is under lower case, and under trimming
/// if it was trimmed.
pub proof fn ascii_lowercase_is_stable(s: Seq<char>)
    requires
        is_ascii_text(s),
    ensures
        is_ascii_text(lowercase(s)),
        lowercase(lowercase(s)) == lowercase(s),
        trimmed(lowercase(trimmed(s))) == lowercase(trimmed(s)),
{
    assert forall|i: int| 0 <= i < s.len() implies is_ascii_char(#[trigger] lowercase(s)[i]) by {
        assert(is_ascii_char(s[i]));
    }
    assert(lowercase(lowercase(s)) =~= lowercase(s));
    ascii_lowercase_and_trim_commute(s);
    ascii_lowercase_and_trim_commute(trimmed(s));
    trimming_is_stable(s);
}

proof fn lemma_ascii_capitalized_to(t: Seq<char>, n: int)
    requires
        is_ascii_text(t),
        0 <= n <= t.len(),
    ensures
        sentences_capitalized_to(t, n) == Seq::new(
            n as nat,
            |i: int|
                if opens_sentence(t, i) {
                    ascii_upper(t[i])
                } else {
                    t[i]
                },
        ),
    decreases n,
{
    if n > 0 {
        lemma_ascii_capitalized_to(t, n - 1);
        assert(is_ascii_char(t[n - 1]));
    }
}

/// Sentence case of ASCII text, character by character: the first letter of
/// each sentence is a capital and no other character is.
pub proof fn ascii_sentence_case_shape(s: Seq<char>)
    requires
        is_ascii_text(s),
    ensures
        sentence_cased(s) == Seq::new(
            trimmed(s).len(),
            |i: int|
                if opens_sentence(lowercase(trimmed(s)), i) {
                    ascii_upper(trimmed(s)[i])
                } else {
                    ascii_lower(trimmed(s)[i])
                },
        ),
{
    let t = lowercase(trimmed(s));
    ascii_lowercase_and_trim_commute(s);
    ascii_lowercase_is_stable(trimmed(s));
    lemma_ascii_capitalized_to(t, t.len() as int);
    assert forall|i: int| 0 <= i < t.len() && opens_sentence(t, i) implies ascii_upper(t[i])
        == ascii_upper(trimmed(s)[i]) by {}
}

/// Sentence case does not depend on how the text was cased: two texts with the
/// same lower case have the same sentence case. Of a text that is not all ASCII
/// the lower case that counts is that of the text without the white space around
/// it.
pub proof fn sentence_case_ignores_case(a: Seq<char>, b: Seq<char>)
    requires
        lowercase(trimmed(a)) == lowercase(trimmed(b)) || (is_ascii_text(a) && is_ascii_text(b)
            && lowercase(a) == lowercase(b)),
    ensures
        sentence_cased(a) == sentence_cased(b),
{
    if is_ascii_text(a) && is_ascii_text(b) {
        ascii_lowercase_and_trim_commute(a);
        ascii_lowercase_and_trim_commute(b);
    }
}

/// Text in sentence case stays as it is: putting ASCII text in sentence case a
/// second time changes nothing.
pub proof fn ascii_sentence_case_is_stable(s: Seq<char>)
    requires
        is_ascii_text(s),
    ensures
        is_ascii_text(sentence_cased(s)),
        sentence_cased(sentence_cased(s)) == sentence_cased(s),
{
    let t = lowercase(trimmed(s));
    let r = sentence_cased(s);
    ascii_lowercase_and_trim_commute(s);
    ascii_lowercase_is_stable(s);
    ascii_lowercase_is_stable(trimmed(s));
    lemma_ascii_capitalized_to(t, t.len() as int);
    assert forall|i: int| 0 <= i < r.len() implies is_ascii_char(#[trigger] r[i]) by {
        assert(is_ascii_char(t[i]));
    }
    assert(lowercase(r) =~= t) by {
        assert forall|i: int| 0 <= i < t.len() implies ascii_lower(#[trigger] r[i]) == t[i] by {
            assert(t[i] == ascii_lower(trimmed(s)[i]));
        }
    }
    assert(trimmed(r) == r) by {
        trimming_is_stable(t);
        if r.len() > 0 {
            lemma_lower_is_white_space(r[0]);
            lemma_lower_is_white_space(r.last());
            assert(ascii_lower(r[0]) == lowercase(r)[0]);
            assert(ascii_lower(r.last()) == lowercase(r).last());
        }
    }
}

/// In ASCII the space and the characters from the tab to the carriage return are
/// white space, and beyond it the spaces and separators of Unicode.
pub proof fn spaces_and_separators_are_white_space(c: char)
    ensures
        (c as u32) < 0x80 ==> (is_white_space(c) <==> c == ' ' || '\t' <= c <= '\r'),
        (c as u32) >= 0x80 ==> (is_white_space(c) <==> seq![
            0x85u32,
            0xa0,
            0x1680,
            0x2028,
            0x2029,
            0x202f,
            0x205f,
            0x3000,
        ].contains(c as u32) || 0x2000 <= c as u32 <= 0x200a),
{
    let others = seq![0x85u32, 0xa0, 0x1680, 0x2028, 0x2029, 0x202f, 0x205f, 0x3000];
    assert(others[0] == 0x85 && others[1] == 0xa0 && others[2] == 0x1680 && others[3] == 0x2028
        && others[4] == 0x2029 && others[5] == 0x202f && others[6] == 0x205f && others[7]
        == 0x3000);
}

proof fn lemma_white_start(before: Seq<char>, rest: Seq<char>)
    requires
        forall|i: int| 0 <= i < before.len() ==> is_white_space(#[trigger] before[i]),
    ensures
        trimmed_start(before + rest) == trimmed_start(rest),
    decreases before.len(),
{
    if before.len() == 0 {
        assert(before + rest =~= rest);
    } else {
        assert(is_white_space(before[0]));
        assert((before + rest).drop_first() =~= before.drop_first() + rest);
        lemma_white_start(before.drop_first(), rest);
    }
}

proof fn lemma_white_end(rest: Seq<char>, behind: Seq<char>)
    requires
        forall|i: int| 0 <= i < behind.len() ==> is_white_space(#[trigger] behind[i]),
    ensures
        trimmed_end(rest + behind) == trimmed_end(rest),
    decreases behind.len(),
{
    if behind.len() == 0 {
        assert(rest + behind =~= rest);
    } else {
        assert(is_white_space(behind[behind.len() - 1]));
        assert((rest + behind).drop_last() =~= rest + behind.drop_last());
        lemma_white_end(rest, behind.drop_last());
    }
}

/// Trimming finds what white space surrounds: whatever white space stands around
/// a text that neither starts nor ends with white space, the text alone is left.
pub proof fn trimming_finds_what_white_space_surrounds(
    before: Seq<char>,
    core: Seq<char>,
    behind: Seq<char>,
)
    requires
        forall|i: int| 0 <= i < before.len() ==> is_white_space(#[trigger] before[i]),
        forall|i: int| 0 <= i < behind.len() ==> is_white_space(#[trigger] behind[i]),
        core.len() > 0 ==> !is_white_space(core[0]) && !is_white_space(core[core.len() - 1]),
    ensures
        trimmed(before + core + behind) == core,
        core.len() > 0 ==> trimmed_start(before + core + behind) == core + behind,
        core.len() == 0 ==> trimmed_start(before + core + behind).len() == 0,
{
    assert(before + core + behind =~= before + (core + behind));
    lemma_white_start(before, core + behind);
    if core.len() == 0 {
        assert(core + behind =~= behind + core);
        lemma_white_start(behind, core);
    } else {
        assert((core + behind)[0] == core[0]);
        lemma_white_end(core, behind);
    }
}

proof fn lemma_cut_is_white(s: Seq<char>)
    ensures
        forall|k: int|
            0 <= k < s.len() - trimmed_start(s).len() ==> is_white_space(#[trigger] s[k]),
        forall|k: int| trimmed_end(s).len() <= k < s.len() ==> is_white_space(#[trigger] s[k]),
    decreases s.len(),
{
    lemma_trimmed_start(s);
    lemma_trimmed_end(s);
    if s.len() > 0 {
        if is_white_space(s[0]) {
            lemma_cut_is_white(s.drop_first());
            assert forall|k: int|
                0 <= k < s.len() - trimmed_start(s).len() implies is_white_space(#[trigger] s[k]) by {
                if k > 0 {
                    assert(s[k] == s.drop_first()[k - 1]);
                }
            }
        }
        if is_white_space(s.last()) {
            lemma_cut_is_white(s.drop_last());
            assert forall|k: int| trimmed_end(s).len() <= k < s.len() implies is_white_space(
                #[trigger] s[k],
            ) by {
                if k < s.len() - 1 {
                    assert(s[k] == s.drop_last()[k]);
                }
            }
        }
    }
}

/// Trimming takes nothing but white space off the two ends, and leaves nothing
/// only of a text that is white space throughout.
pub proof fn trimming_takes_white_space_only(s: Seq<char>) -> (at: (int, int))
    ensures
        0 <= at.0 <= at.1 <= s.len(),
        trimmed(s) == s.subrange(at.0, at.1),
        forall|k: int| 0 <= k < at.0 ==> is_white_space(#[trigger] s[k]),
        forall|k: int| at.1 <= k < s.len() ==> is_white_space(#[trigger] s[k]),
        trimmed(s).len() == 0 <==> forall|k: int|
            0 <= k < s.len() ==> is_white_space(#[trigger] s[k]),
{
    let t = trimmed_start(s);
    let i = s.len() - t.len();
    let j = i + trimmed(s).len();
    lemma_trimmed_start(s);
    lemma_trimmed_end(t);
    lemma_cut_is_white(s);
    lemma_cut_is_white(t);
    assert(trimmed(s) =~= s.subrange(i, j));
    assert forall|k: int| j <= k < s.len() implies is_white_space(#[trigger] s[k]) by {
        assert(s[k] == t[k - i]);
    }
    trimming_is_stable(s);
    if trimmed(s).len() > 0 {
        assert(trimmed(s)[0] == s[i]);
    }
    (i, j)
}

/// Lower case touches no character of an ASCII text but its capitals, each of
/// which becomes the small letter. Of another text it is what Unicode has.
pub proof fn lowercase_touches_capitals_only(s: Seq<char>)
    ensures
        (forall|i: int| 0 <= i < s.len() ==> (#[trigger] s[i] as u32) < 0x80) ==> lowercase(s).len()
            == s.len() && forall|i: int|
            0 <= i < s.len() ==> (if 'A' <= s[i] <= 'Z' {
                (#[trigger] lowercase(s)[i]) as u32 == s[i] as u32 + 32
            } else {
                lowercase(s)[i] == s[i]
            }),
        (exists|i: int| 0 <= i < s.len() && (#[trigger] s[i] as u32) >= 0x80) ==> lowercase(s)
            == unicode_lowercase(s),
{
    if forall|i: int| 0 <= i < s.len() ==> (#[trigger] s[i] as u32) < 0x80 {
        assert(is_ascii_text(s));
    }
    if exists|i: int| 0 <= i < s.len() && (#[trigger] s[i] as u32) >= 0x80 {
        let i = choose|i: int| 0 <= i < s.len() && (#[trigger] s[i] as u32) >= 0x80;
        assert(!is_ascii_char(s[i]));
    }
}

/// A text starts with another one exactly if it is that one and a rest.
pub proof fn prefixes_and_suffixes_are_parts(s: Seq<char>, p: Seq<char>)
    ensures
        has_prefix(s, p) <==> exists|rest: Seq<char>| s == #[trigger] (p + rest),
        has_suffix(s, p) <==> exists|rest: Seq<char>| s == #[trigger] (rest + p),
{
    if has_prefix(s, p) {
        assert(s =~= p + s.skip(p.len() as int));
    }
    if exists|rest: Seq<char>| s == #[trigger] (p + rest) {
        assert(s.take(p.len() as int) =~= p);
    }
    if has_suffix(s, p) {
        assert(s =~= s.take(s.len() - p.len()) + p);
    }
    if exists|rest: Seq<char>| s == #[trigger] (rest + p) {
        assert(s.skip(s.len() - p.len()) =~= p);
    }
}

/// The views of a list are the views of all its strings, in their order.
pub proof fn texts_are_complete(v: Seq<String>, i: int, s: String)
    ensures
        texts(v).len() == v.len(),
        0 <= i < v.len() ==> texts(v)[i] == v[i]@,
        text_of(Some(s)) == Some(s@),
        text_of(None) is None,
{
}

/// In the text `s` a sentence ends with the mark at position `k`: only symbols
/// stand between the mark and the white space at position `w`, and no letter
/// behind that.
pub open spec fn ends_last_sentence(s: Seq<char>, k: int, w: int) -> bool {
    &&& 0 <= k < w < s.len()
    &&& s[k] == '.' || s[k] == '!' || s[k] == '?'
    &&& is_white_space(s[w])
    &&& forall|m: int|
        #![trigger s[m]]
        k < m < w ==> !alphabetic(s[m]) && !is_white_space(s[m]) && !('0' <= s[m] <= '9') && s[m]
            != ',' && s[m] != ';' && s[m] != ':'
    &&& forall|m: int| w <= m < s.len() ==> !alphabetic(#[trigger] s[m])
}

/// A letter behind the text `s` opens a sentence: there is no letter in `s`, or
/// the last sentence that it holds has ended.
pub open spec fn sentence_is_due(s: Seq<char>) -> bool {
    ||| forall|j: int| 0 <= j < s.len() ==> !alphabetic(#[trigger] s[j])
    ||| exists|k: int, w: int| #[trigger] ends_last_sentence(s, k, w)
}

proof fn lemma_last_letter(s: Seq<char>, n: int) -> (j: int)
    requires
        0 <= n <= s.len(),
        exists|j: int| 0 <= j < n && alphabetic(#[trigger] s[j]),
    ensures
        0 <= j < n,
        alphabetic(s[j]),
        forall|m: int| j < m < n ==> !alphabetic(#[trigger] s[m]),
    decreases n,
{
    if alphabetic(s[n - 1]) {
        n - 1
    } else {
        lemma_last_letter(s, n - 1)
    }
}

proof fn lemma_sentence_is_due(s: Seq<char>, t: Seq<char>)
    requires
        s.len() <= t.len(),
        s == t.take(s.len() as int),
    ensures
        at_sentence_start(t, s.len() as int) <==> sentence_is_due(s),
{
    let n = s.len() as int;
    assert forall|j: int| 0 <= j < n implies #[trigger] s[j] == t[j] by {}
    if at_sentence_start(t, n) && exists|j: int| 0 <= j < n && alphabetic(#[trigger] s[j]) {
        let j = lemma_last_letter(s, n);
        assert(alphabetic(t[j]));
        let (k, w) = choose|k: int, w: int| j < k && w < n && #[trigger] sentence_ends_at(t, k, w);
        assert forall|m: int| #![trigger s[m]] k < m < w implies !alphabetic(s[m])
            && !is_white_space(s[m]) && !('0' <= s[m] <= '9') && s[m] != ',' && s[m] != ';' && s[m]
            != ':' by {
            assert(trails_mark(t[m]));
        }
        assert(ends_last_sentence(s, k, w));
    }
    if exists|k: int, w: int| #[trigger] ends_last_sentence(s, k, w) {
        let (k, w) = choose|k: int, w: int| #[trigger] ends_last_sentence(s, k, w);
        assert forall|m: int| k < m < w implies #[trigger] trails_mark(t[m]) by {
            assert(t[m] == s[m]);
        }
        assert(sentence_ends_at(t, k, w));
        assert forall|j: int| 0 <= j < n && #[trigger] alphabetic(t[j]) implies j < k by {
            assert(t[j] == s[j]);
        }
    }
    if forall|j: int| 0 <= j < n ==> !alphabetic(#[trigger] s[j]) {
        assert forall|j: int| 0 <= j < n implies !#[trigger] alphabetic(t[j]) by {
            assert(t[j] == s[j]);
        }
    }
}

proof fn lemma_capitalized_prefix(s: Seq<char>, t: Seq<char>, n: int)
    requires
        0 <= n <= s.len() <= t.len(),
        s == t.take(s.len() as int),
    ensures
        sentences_capitalized_to(s, n) == sentences_capitalized_to(t, n),
    decreases n,
{
    if n > 0 {
        lemma_capitalized_prefix(s, t, n - 1);
        let p = s.take(n - 1);
        assert(p =~= t.take(n - 1));
        lemma_sentence_is_due(p, s);
        lemma_sentence_is_due(p, t);
        assert(s[n - 1] == t[n - 1]);
    }
}

/// Capitalization, one character at a time: a letter that can open a sentence
/// comes out in upper case, and every other character as it is. What came before
/// is left alone.
pub proof fn capitals_open_sentences(s: Seq<char>, c: char)
    ensures
        sentences_capitalized(Seq::empty()) == Seq::<char>::empty(),
        sentences_capitalized(s.push(c)) == sentences_capitalized(s) + (if alphabetic(c)
            && sentence_is_due(s) {
            uppercase(c)
        } else {
            seq![c]
        }),
{
    let t = s.push(c);
    assert(t.take(s.len() as int) =~= s);
    lemma_capitalized_prefix(s, t, s.len() as int);
    lemma_sentence_is_due(s, t);
}

/// Upper case touches no ASCII character but the small letters, each of which
/// becomes the capital. Of another character it is what Unicode has. The letters
/// of ASCII are those from a to z.
pub proof fn uppercase_touches_small_letters_only(c: char)
    ensures
        (c as u32) < 0x80 ==> (alphabetic(c) <==> 'a' <= c <= 'z' || 'A' <= c <= 'Z'),
        'a' <= c <= 'z' ==> uppercase(c).len() == 1 && uppercase(c)[0] as u32 + 32 == c as u32,
        (c as u32) < 0x80 && !('a' <= c <= 'z') ==> uppercase(c) == seq![c],
        (c as u32) >= 0x80 ==> alphabetic(c) == unicode_alphabetic(c) && uppercase(c)
            == unicode_uppercase(c),
{
}

/// Sentence case of an ASCII text leaves its characters in their places and
/// changes no more than their case: a character of the trimmed text comes out as a
/// capital exactly if it is a letter that opens a sentence, and otherwise as a
/// small letter or as it is.
pub proof fn ascii_capitals_only_open_sentences(s: Seq<char>, i: int)
    requires
        forall|j: int| 0 <= j < s.len() ==> (#[trigger] s[j] as u32) < 0x80,
        0 <= i < trimmed(s).len(),
    ensures
        sentence_cased(s).len() == trimmed(s).len(),
        sentence_cased(s)[i] == trimmed(s)[i] || ('a' <= trimmed(s)[i] <= 'z' && sentence_cased(
            s,
        )[i] as u32 + 32 == trimmed(s)[i] as u32) || ('A' <= trimmed(s)[i] <= 'Z'
            && sentence_cased(s)[i] as u32 == trimmed(s)[i] as u32 + 32),
        'A' <= sentence_cased(s)[i] <= 'Z' <==> alphabetic(trimmed(s)[i]) && sentence_is_due(
            trimmed(s).take(i),
        ),
{
    assert(is_ascii_text(s));
    ascii_sentence_case_shape(s);
    ascii_lowercase_and_trim_commute(s);
    let t = trimmed(s);
    let low = lowercase(t);
    let p = low.take(i);
    let q = t.take(i);
    assert forall|j: int|
        0 <= j < i implies alphabetic(#[trigger] p[j]) == alphabetic(q[j]) && is_white_space(p[j])
        == is_white_space(q[j]) && (!alphabetic(q[j]) ==> p[j] == q[j]) by {
        assert(is_ascii_char(t[j]));
        assert(p[j] == ascii_lower(t[j]));
    }
    assert forall|j: int|
        0 <= j < i implies alphabetic(#[trigger] q[j]) == alphabetic(p[j]) && is_white_space(q[j])
        == is_white_space(p[j]) && (!alphabetic(p[j]) ==> q[j] == p[j]) by {
        assert(p[j] == low[j]);
    }
    assert(is_ascii_char(t[i]));
    lemma_sentence_is_due(p, low);
    lemma_due_carries(p, q);
    lemma_due_carries(q, p);
}

/// Sentence case is capitalization of what trimming and lower case leave.
pub proof fn sentence_case_capitalizes_lower_case(s: Seq<char>, t: Seq<char>, c: char)
    ensures
        lowercase(trimmed(s)) == t.push(c) ==> sentence_cased(s) == sentences_capitalized(t) + (
        if alphabetic(c) && sentence_is_due(t) {
            uppercase(c)
        } else {
            seq![c]
        }),
        lowercase(trimmed(s)).len() == 0 ==> sentence_cased(s).len() == 0,
{
    capitals_open_sentences(t, c);
}

proof fn lemma_due_carries(p: Seq<char>, q: Seq<char>)
    requires
        p.len() == q.len(),
        forall|j: int|
            0 <= j < p.len() ==> alphabetic(#[trigger] p[j]) == alphabetic(q[j]) && is_white_space(
                p[j],
            ) == is_white_space(q[j]) && (!alphabetic(q[j]) ==> p[j] == q[j]),
    ensures
        sentence_is_due(p) ==> sentence_is_due(q),
{
    if forall|j: int| 0 <= j < p.len() ==> !alphabetic(#[trigger] p[j]) {
        assert forall|j: int| 0 <= j < q.len() implies !alphabetic(#[trigger] q[j]) by {
            assert(!alphabetic(p[j]));
        }
    }
    if exists|k: int, w: int| #[trigger] ends_last_sentence(p, k, w) {
        let (k, w) = choose|k: int, w: int| #[trigger] ends_last_sentence(p, k, w);
        assert(!alphabetic(p[k]) && !alphabetic(p[w]));
        assert forall|m: int| #![trigger q[m]] k < m < w implies !alphabetic(q[m])
            && !is_white_space(q[m]) && !('0' <= q[m] <= '9') && q[m] != ',' && q[m] != ';' && q[m]
            != ':' by {
            assert(!alphabetic(p[m]));
        }
        assert forall|m: int| w <= m < q.len() implies !alphabetic(#[trigger] q[m]) by {
            assert(!alphabetic(p[m]));
        }
        assert(ends_last_sentence(q, k, w));
    }
}

/// A text has a character other than white space.
pub open spec fn is_not_blank(s: Seq<char>) -> bool {
    exists|i: int| 0 <= i < s.len() && !is_white_space(#[trigger] s[i])
}

} // verus!
