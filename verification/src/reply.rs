//! From a provider's reply to the metadata in it.
use vstd::prelude::*;

use crate::config::Provider;
use crate::metadata::{normalize_results, StockMetadata};
use crate::request::refusal_message;
use crate::text::{strip_prefix, strip_suffix};

verus! {

use crate::metadata::{all_normalized, metadata_texts};
use crate::request::refusal;
use crate::text::{
    has_prefix, has_suffix, is_white_space, lemma_trimmed_start, lemma_trimmed_start_concat,
    trimmed, trimmed_start, trimming_finds_what_white_space_surrounds,
};

/// `s` without the opening Markdown fence, with or without the language name.
pub open spec fn without_opening_fence(s: Seq<char>) -> Seq<char> {
    if has_prefix(s, "```json"@) {
        s.skip("```json"@.len() as int)
    } else if has_prefix(s, "```"@) {
        s.skip("```"@.len() as int)
    } else {
        s
    }
}

/// `s` without the closing Markdown fence.
pub open spec fn without_closing_fence(s: Seq<char>) -> Seq<char> {
    if has_suffix(s, "```"@) {
        s.take(s.len() - "```"@.len())
    } else {
        s
    }
}

/// What stands inside a Markdown fence, trimmed; text without a fence is only
/// trimmed.
pub open spec fn unfenced(raw: Seq<char>) -> Seq<char> {
    trimmed(without_closing_fence(trimmed_start(without_opening_fence(trimmed(raw)))))
}

/// Takes the Markdown fence off a reply.
pub fn strip_markdown_fence(raw: &str) -> (r: &str)
    ensures
        r@ == unfenced(raw@),
{
    let whole = raw.trim();
    let opened = match strip_prefix(whole, "```json") {
        Some(rest) => rest,
        None => match strip_prefix(whole, "```") {
            Some(rest) => rest,
            None => whole,
        },
    };
    let body = opened.trim_start();
    match strip_suffix(body, "```") {
        Some(rest) => rest.trim(),
        None => body.trim(),
    }
}

/// The message for a reply that holds no metadata.
pub open spec fn parse_failure(error: Seq<char>, clean: Seq<char>) -> Seq<char> {
    "Failed to parse model JSON: "@ + error + " (payload: "@ + clean + ")"@
}

/// The metadata of a reply `clean`, from its two readings: as an object with
/// the key `results`, which counts first, and as a bare list.
pub fn parse_batch(
    wrapped: Option<Vec<StockMetadata>>,
    bare: Result<Vec<StockMetadata>, String>,
    clean: &str,
) -> (r: Result<Vec<StockMetadata>, String>)
    ensures
        wrapped matches Some(results) ==> r == Ok::<Vec<StockMetadata>, String>(results),
        wrapped is None ==> (bare matches Ok(results) ==> r == Ok::<Vec<StockMetadata>, String>(
            results,
        )),
        wrapped is None ==> (bare matches Err(e) ==> r is Err && r->Err_0@ == parse_failure(
            e@,
            clean@,
        )),
{
    match wrapped {
        Some(results) => Ok(results),
        None => match bare {
            Ok(results) => Ok(results),
            Err(e) => {
                let mut message = "Failed to parse model JSON: ".to_owned();
                message.append(e.as_str());
                message.append(" (payload: ");
                message.append(clean);
                message.append(")");
                Err(message)
            },
        },
    }
}

/// Reads the metadata out of a reply `clean` and normalizes it. The two readings
/// of the reply are those that `parse_batch` takes.
pub fn read_results(
    wrapped: Option<Vec<StockMetadata>>,
    bare: Result<Vec<StockMetadata>, String>,
    clean: &str,
) -> (r: Result<Vec<StockMetadata>, String>)
    ensures
        wrapped matches Some(results) ==> r is Ok && metadata_texts(r->Ok_0@)
            == all_normalized(metadata_texts(results@)),
        wrapped is None ==> (bare matches Ok(results) ==> r is Ok && metadata_texts(r->Ok_0@)
            == all_normalized(metadata_texts(results@))),
        wrapped is None ==> (bare matches Err(e) ==> r is Err && r->Err_0@ == parse_failure(
            e@,
            clean@,
        )),
{
    match parse_batch(wrapped, bare, clean) {
        Ok(results) => Ok(normalize_results(&results)),
        Err(e) => Err(e),
    }
}

/// A reply of Gemini: alternative answers, each in parts.
#[derive(Debug, PartialEq, Eq)]
pub struct GeminiResponse {
    pub candidates: Vec<Candidate>,
}

#[derive(Debug, PartialEq, Eq)]
pub struct Candidate {
    pub content: Content,
}

#[derive(Debug, PartialEq, Eq)]
pub struct Content {
    pub parts: Vec<Part>,
}

#[derive(Debug, PartialEq, Eq)]
pub struct Part {
    pub text: String,
}

/// A reply of Groq: alternative answers.
#[derive(Debug, PartialEq, Eq)]
pub struct GroqResponse {
    pub choices: Vec<GroqChoice>,
}

#[derive(Debug, PartialEq, Eq)]
pub struct GroqChoice {
    pub message: GroqMessage,
}

#[derive(Debug, PartialEq, Eq)]
pub struct GroqMessage {
    pub content: String,
}

/// A result with texts in place of strings.
pub open spec fn answer_of(r: Result<String, String>) -> Result<Seq<char>, Seq<char>> {
    match r {
        Ok(s) => Ok(s@),
        Err(e) => Err(e@),
    }
}

/// The text of Gemini's answer: the first part of the first candidate.
pub open spec fn gemini_answer_text(response: GeminiResponse) -> Result<Seq<char>, Seq<char>> {
    let cs = response.candidates@;
    if cs.len() == 0 {
        Err("Gemini response contained no candidates"@)
    } else if cs[0].content.parts@.len() == 0 {
        Err("Gemini response candidate contained no parts"@)
    } else {
        Ok(cs[0].content.parts@[0].text@)
    }
}

/// The text of Groq's answer: the first choice.
pub open spec fn groq_answer_text(response: GroqResponse) -> Result<Seq<char>, Seq<char>> {
    let cs = response.choices@;
    if cs.len() == 0 {
        Err("Groq response contained no choices"@)
    } else {
        Ok(cs[0].message.content@)
    }
}

/// Takes the text out of Gemini's answer.
pub fn gemini_text(response: &GeminiResponse) -> (r: Result<String, String>)
    ensures
        answer_of(r) == gemini_answer_text(*response),
{
    if response.candidates.len() == 0 {
        return Err("Gemini response contained no candidates".to_owned());
    }
    let parts = &response.candidates[0].content.parts;
    if parts.len() == 0 {
        return Err("Gemini response candidate contained no parts".to_owned());
    }
    Ok(parts[0].text.clone())
}

/// Takes the text out of Groq's answer.
pub fn groq_text(response: &GroqResponse) -> (r: Result<String, String>)
    ensures
        answer_of(r) == groq_answer_text(*response),
{
    if response.choices.len() == 0 {
        return Err("Groq response contained no choices".to_owned());
    }
    Ok(response.choices[0].message.content.clone())
}

/// What comes of a call to Gemini. A call without success is refused, with the
/// status and the body of the reply; otherwise the reply was read, or could not
/// be for the given reason.
pub fn gemini_answer(
    success: bool,
    status: &str,
    body: &str,
    response: &Result<GeminiResponse, String>,
) -> (r: Result<String, String>)
    ensures
        answer_of(r) == (if !success {
            Err(refusal(Provider::Gemini, status@, body@))
        } else {
            match *response {
                Ok(reply) => gemini_answer_text(reply),
                Err(e) => Err(e@),
            }
        }),
{
    if !success {
        return Err(refusal_message(Provider::Gemini, status, body));
    }
    match response {
        Ok(reply) => gemini_text(reply),
        Err(e) => Err(e.clone()),
    }
}

/// What comes of a call to Groq. A call without success is refused, with the
/// status and the body of the reply; otherwise the reply was read, or could not
/// be for the given reason.
pub fn groq_answer(
    success: bool,
    status: &str,
    body: &str,
    response: &Result<GroqResponse, String>,
) -> (r: Result<String, String>)
    ensures
        answer_of(r) == (if !success {
            Err(refusal(Provider::Groq, status@, body@))
        } else {
            match *response {
                Ok(reply) => groq_answer_text(reply),
                Err(e) => Err(e@),
            }
        }),
{
    if !success {
        return Err(refusal_message(Provider::Groq, status, body));
    }
    match response {
        Ok(reply) => groq_text(reply),
        Err(e) => Err(e.clone()),
    }
}

proof fn lemma_fence_body(body: Seq<char>)
    ensures
        trimmed(without_closing_fence(trimmed_start(body + "```"@))) == trimmed(body),
{
    reveal_strlit("```");
    let close = "```"@;
    lemma_trimmed_start_concat(body, close);
    lemma_trimmed_start(body);
    let b = trimmed_start(body);
    assert(!is_white_space('`'));
    if b.len() == 0 {
        assert(trimmed_start(close) == close);
        assert(close.skip(0) == close);
        assert(close.take(0) == Seq::<char>::empty());
    } else {
        let full = b + close;
        assert(full.skip(full.len() - 3) == close);
        assert(full.take(full.len() - 3) == b);
    }
}

/// A fence costs nothing: a text in a Markdown fence reads as the text alone.
/// Behind a fence without a language name the text must not itself start with
/// that name.
pub proof fn fenced_text_reads_as_text(body: Seq<char>)
    ensures
        unfenced("```json"@ + body + "```"@) == trimmed(body),
        !has_prefix(body, "json"@) ==> unfenced("```"@ + body + "```"@) == trimmed(body),
{
    reveal_strlit("```json");
    reveal_strlit("```");
    reveal_strlit("json");
    assert(!is_white_space('`'));
    lemma_fence_body(body);
    let a = "```json"@ + body + "```"@;
    assert(trimmed(a) == a);
    assert(a.take(7) == "```json"@);
    assert(a.skip(7) == body + "```"@);
    let c = "```"@ + body + "```"@;
    assert(trimmed(c) == c);
    assert(c.take(3) == "```"@);
    assert(c.skip(3) == body + "```"@);
    if has_prefix(c, "```json"@) {
        assert(c.take(7)[3] == 'j' && c.take(7)[4] == 's' && c.take(7)[5] == 'o' && c.take(7)[6]
            == 'n');
        assert(body.take(4) == "json"@);
    }
}

/// A text without a fence is only trimmed.
pub proof fn unfenced_text_is_trimmed(raw: Seq<char>)
    requires
        !has_prefix(trimmed(raw), "```"@),
        !has_suffix(trimmed(raw), "```"@),
    ensures
        unfenced(raw) == trimmed(raw),
{
    reveal_strlit("```json");
    reveal_strlit("```");
    let t = trimmed(raw);
    crate::text::trimming_is_stable(raw);
    if has_prefix(t, "```json"@) {
        assert(t.take(7).take(3) == t.take(3));
        assert("```json"@.take(3) == "```"@);
    }
}

/// Half a fence comes off too: an opening fence with nothing to close it, and a
/// closing one that nothing opened. White space around the reply does not matter.
pub proof fn half_a_fence_comes_off(
    before: Seq<char>,
    core: Seq<char>,
    behind: Seq<char>,
    body: Seq<char>,
)
    requires
        forall|i: int| 0 <= i < before.len() ==> is_white_space(#[trigger] before[i]),
        forall|i: int| 0 <= i < behind.len() ==> is_white_space(#[trigger] behind[i]),
        core.len() > 0,
        !is_white_space(core[0]),
        !is_white_space(core[core.len() - 1]),
        body.len() > 0,
        !is_white_space(body[0]),
        !is_white_space(body[body.len() - 1]),
    ensures
        unfenced(before + core + behind) == unfenced(core),
        body[body.len() - 1] != '`' ==> unfenced("```json"@ + body) == body,
        body[body.len() - 1] != '`' && body[0] != 'j' && body[0] != '`' ==> unfenced("```"@ + body)
            == body,
        body[0] != '`' ==> unfenced(body + "```"@) == body,
{
    trimming_finds_what_white_space_surrounds(before, core, behind);
    let none = Seq::<char>::empty();
    trimming_finds_what_white_space_surrounds(none, core, none);
    assert(none + core + none =~= core);
    reveal_strlit("```json");
    reveal_strlit("```");
    assert(!is_white_space('`'));
    trimming_finds_what_white_space_surrounds(none, body, none);
    assert(none + body + none =~= body);
    if body[body.len() - 1] != '`' {
        let a = "```json"@ + body;
        trimming_finds_what_white_space_surrounds(none, a, none);
        assert(none + a + none =~= a);
        assert(a.take(7) =~= "```json"@);
        assert(a.skip(7) =~= body);
        if has_suffix(body, "```"@) {
            assert(body.skip(body.len() - 3)[2] == '`');
        }
    }
    if body[body.len() - 1] != '`' && body[0] != 'j' && body[0] != '`' {
        let a = "```"@ + body;
        trimming_finds_what_white_space_surrounds(none, a, none);
        assert(none + a + none =~= a);
        assert(a.take(3) =~= "```"@);
        assert(a.skip(3) =~= body);
        if has_prefix(a, "```json"@) {
            assert(a.take(7)[3] == 'j');
        }
        if has_suffix(body, "```"@) {
            assert(body.skip(body.len() - 3)[2] == '`');
        }
    }
    if body[0] != '`' {
        let a = body + "```"@;
        trimming_finds_what_white_space_surrounds(none, a, none);
        assert(none + a + none =~= a);
        assert(a[0] == body[0]);
        if has_prefix(a, "```json"@) {
            assert(a.take(7)[0] == '`');
        }
        if has_prefix(a, "```"@) {
            assert(a.take(3)[0] == '`');
        }
        assert(a.skip(a.len() - 3) =~= "```"@);
        assert(a.take(a.len() - 3) =~= body);
    }
}

/// An answer is the first text that a service gives, whole, whatever comes behind
/// it; only an answer without one is an error.
pub proof fn the_first_text_is_the_answer(
    gemini: GeminiResponse,
    groq: GroqResponse,
    error: Seq<char>,
    clean: Seq<char>,
)
    ensures
        gemini.candidates@.len() > 0 && gemini.candidates@[0].content.parts@.len() > 0
            ==> gemini_answer_text(gemini) == Ok::<Seq<char>, Seq<char>>(
            gemini.candidates@[0].content.parts@[0].text@,
        ),
        gemini.candidates@.len() == 0 ==> gemini_answer_text(gemini) == Err::<Seq<char>, Seq<char>>(
            "Gemini response contained no candidates"@,
        ),
        gemini.candidates@.len() > 0 && gemini.candidates@[0].content.parts@.len() == 0
            ==> gemini_answer_text(gemini) == Err::<Seq<char>, Seq<char>>(
            "Gemini response candidate contained no parts"@,
        ),
        groq.choices@.len() > 0 ==> groq_answer_text(groq) == Ok::<Seq<char>, Seq<char>>(
            groq.choices@[0].message.content@,
        ),
        groq.choices@.len() == 0 ==> groq_answer_text(groq) == Err::<Seq<char>, Seq<char>>(
            "Groq response contained no choices"@,
        ),
        parse_failure(error, clean) == "Failed to parse model JSON: "@ + error + " (payload: "@
            + clean + ")"@,
{
}

/// Answers are seen as they are.
pub proof fn answers_are_seen_whole(s: String)
    ensures
        answer_of(Ok(s)) == Ok::<Seq<char>, Seq<char>>(s@),
        answer_of(Err(s)) == Err::<Seq<char>, Seq<char>>(s@),
{
}

} // verus!
