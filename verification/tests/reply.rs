use photo_tagger::metadata::StockMetadata;
use photo_tagger::reply::{
    gemini_answer, gemini_text, groq_answer, groq_text, parse_batch, read_results, strip_markdown_fence, Candidate, Content,
    GeminiResponse, GroqChoice, GroqMessage, GroqResponse, Part,
};

fn entry(title: &str) -> StockMetadata {
    StockMetadata {
        title: title.to_string(),
        description: "d".to_string(),
        keywords: vec!["K".to_string()],
    }
}

#[test]
fn fences_come_off() {
    assert_eq!(strip_markdown_fence("```json\n{\"a\": 1}\n```"), "{\"a\": 1}");
    assert_eq!(strip_markdown_fence("```\n[1]\n```"), "[1]");
    assert_eq!(strip_markdown_fence("  ```json {} ```  \n"), "{}");
    assert_eq!(strip_markdown_fence("```json\n```"), "");
    assert_eq!(strip_markdown_fence("```"), "");
}

#[test]
fn text_without_a_fence_is_trimmed() {
    assert_eq!(strip_markdown_fence("  {\"a\": 1}\n"), "{\"a\": 1}");
    assert_eq!(strip_markdown_fence(""), "");
}

#[test]
fn half_a_fence_comes_off() {
    assert_eq!(strip_markdown_fence("```json {}"), "{}");
    assert_eq!(strip_markdown_fence("{} ```"), "{}");
}

#[test]
fn only_one_fence_comes_off() {
    assert_eq!(strip_markdown_fence("``````"), "");
    assert_eq!(strip_markdown_fence("``` ```x``` ```"), "```x```");
    assert_eq!(strip_markdown_fence("```jsonx```"), "x");
}

#[test]
fn the_wrapped_reading_counts_first() {
    let r = parse_batch(Some(vec![entry("a")]), Ok(vec![entry("b")]), "x");
    assert_eq!(r, Ok(vec![entry("a")]));
    let r = parse_batch(None, Ok(vec![entry("b")]), "x");
    assert_eq!(r, Ok(vec![entry("b")]));
}

#[test]
fn a_reply_that_is_no_metadata_is_an_error() {
    let r = parse_batch(None, Err("expected value".to_string()), "oops");
    assert_eq!(r, Err("Failed to parse model JSON: expected value (payload: oops)".to_string()));
}

#[test]
fn results_are_normalized() {
    let r = read_results(None, Ok(vec![entry("A Dog")]), "x").unwrap();
    assert_eq!(r.len(), 1);
    assert_eq!(r[0].title, "A dog");
    assert_eq!(r[0].keywords, vec!["k".to_string()]);
    let r = read_results(None, Err("e".to_string()), "c");
    assert_eq!(r, Err("Failed to parse model JSON: e (payload: c)".to_string()));
}

#[test]
fn gemini_answers_with_its_first_part() {
    let part = |t: &str| Part { text: t.to_string() };
    let response = GeminiResponse {
        candidates: vec![
            Candidate { content: Content { parts: vec![part("one"), part("two")] } },
            Candidate { content: Content { parts: vec![part("three")] } },
        ],
    };
    assert_eq!(gemini_text(&response), Ok("one".to_string()));
}

#[test]
fn gemini_may_answer_nothing() {
    let none = GeminiResponse { candidates: Vec::new() };
    assert_eq!(gemini_text(&none), Err("Gemini response contained no candidates".to_string()));
    let empty =
        GeminiResponse { candidates: vec![Candidate { content: Content { parts: Vec::new() } }] };
    assert_eq!(gemini_text(&empty), Err("Gemini response candidate contained no parts".to_string()));
}

#[test]
fn groq_answers_with_its_first_choice() {
    let choice = |t: &str| GroqChoice { message: GroqMessage { content: t.to_string() } };
    let response = GroqResponse { choices: vec![choice("one"), choice("two")] };
    assert_eq!(groq_text(&response), Ok("one".to_string()));
    let none = GroqResponse { choices: Vec::new() };
    assert_eq!(groq_text(&none), Err("Groq response contained no choices".to_string()));
}

#[test]
fn a_call_without_success_is_refused() {
    let reply = Ok(GeminiResponse {
        candidates: vec![Candidate { content: Content { parts: vec![Part { text: "t".to_string() }] } }],
    });
    assert_eq!(
        gemini_answer(false, "429 Too Many Requests", "slow down", &reply),
        Err("Gemini API error (429 Too Many Requests): slow down".to_string())
    );
    assert_eq!(gemini_answer(true, "200 OK", "", &reply), Ok("t".to_string()));
    let reply = Ok(GroqResponse {
        choices: vec![GroqChoice { message: GroqMessage { content: "c".to_string() } }],
    });
    assert_eq!(
        groq_answer(false, "500 Internal Server Error", "oops", &reply),
        Err("Groq API error (500 Internal Server Error): oops".to_string())
    );
    assert_eq!(groq_answer(true, "200 OK", "", &reply), Ok("c".to_string()));
}

#[test]
fn a_reply_that_holds_no_answer_is_an_error() {
    let none = Ok(GeminiResponse { candidates: vec![] });
    assert_eq!(
        gemini_answer(true, "200 OK", "", &none),
        Err("Gemini response contained no candidates".to_string())
    );
    assert_eq!(gemini_answer(true, "200 OK", "", &Err("bad".to_string())), Err("bad".to_string()));
    let none = Ok(GroqResponse { choices: vec![] });
    assert_eq!(
        groq_answer(true, "200 OK", "", &none),
        Err("Groq response contained no choices".to_string())
    );
    assert_eq!(groq_answer(true, "200 OK", "", &Err("bad".to_string())), Err("bad".to_string()));
}
