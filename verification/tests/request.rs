use photo_tagger::config::{LlmConfig, Provider};
use photo_tagger::request::{
    gemini_payload, gemini_url, groq_payload, refusal_message, request_for, Json, Request, GROQ_URL,
};

fn text(s: &str) -> Json {
    Json::Text(s.to_string())
}

fn object(members: Vec<(&str, Json)>) -> Json {
    Json::Object(members.into_iter().map(|(k, v)| (k.to_string(), v)).collect())
}

fn images() -> Vec<String> {
    vec!["AAAA".to_string(), "BBBB".to_string()]
}

#[test]
fn the_gemini_payload() {
    let image = |data: &str| {
        object(vec![(
            "inlineData",
            object(vec![("mimeType", text("image/jpeg")), ("data", text(data))]),
        )])
    };
    let parts = Json::List(vec![
        object(vec![("text", text("Do it"))]),
        object(vec![("text", text("Image 1:"))]),
        image("AAAA"),
        object(vec![("text", text("Image 2:"))]),
        image("BBBB"),
    ]);
    let expected = object(vec![
        ("contents", Json::List(vec![object(vec![("parts", parts)])])),
        ("generationConfig", object(vec![("responseMimeType", text("application/json"))])),
    ]);
    assert_eq!(gemini_payload("Do it", "Image", &images()), expected);
}

#[test]
fn the_groq_payload() {
    let words = |s: &str| object(vec![("type", text("text")), ("text", text(s))]);
    let image = |data: &str| {
        object(vec![
            ("type", text("image_url")),
            ("image_url", object(vec![("url", text(&format!("data:image/jpeg;base64,{}", data)))])),
        ])
    };
    let content = Json::List(vec![
        words("Do it"),
        words("Frame 1:"),
        image("AAAA"),
        words("Frame 2:"),
        image("BBBB"),
    ]);
    let expected = object(vec![
        ("model", text("m")),
        ("messages", Json::List(vec![object(vec![("role", text("user")), ("content", content)])])),
        ("response_format", object(vec![("type", text("json_object"))])),
    ]);
    assert_eq!(groq_payload("m", "Do it", "Frame", &images()), expected);
}

#[test]
fn a_payload_without_images_is_the_prompt() {
    let parts = Json::List(vec![object(vec![("text", text("p"))])]);
    let expected = object(vec![
        ("contents", Json::List(vec![object(vec![("parts", parts)])])),
        ("generationConfig", object(vec![("responseMimeType", text("application/json"))])),
    ]);
    assert_eq!(gemini_payload("p", "Image", &Vec::new()), expected);
}

#[test]
fn addresses() {
    assert_eq!(
        gemini_url("gemini-x", "key"),
        "https://generativelanguage.googleapis.com/v1beta/models/gemini-x:generateContent?key=key"
    );
    assert_eq!(GROQ_URL, "https://api.groq.com/openai/v1/chat/completions");
}

#[test]
fn refusals_name_the_service() {
    assert_eq!(
        refusal_message(Provider::Gemini, "404 Not Found", "gone"),
        "Gemini API error (404 Not Found): gone"
    );
    assert_eq!(
        refusal_message(Provider::Groq, "500 Internal Server Error", ""),
        "Groq API error (500 Internal Server Error): "
    );
}

fn config(provider: Provider) -> LlmConfig {
    LlmConfig {
        provider,
        api_key: "k".to_string(),
        model: "m".to_string(),
        rate_limit_ms: 2000,
        batch_size: 3,
    }
}

#[test]
fn gemini_takes_the_key_in_the_address() {
    assert_eq!(
        request_for(&config(Provider::Gemini), "Do it", "Image", &images()),
        Request {
            url: "https://generativelanguage.googleapis.com/v1beta/models/m:generateContent?key=k"
                .to_string(),
            bearer: None,
            body: gemini_payload("Do it", "Image", &images()),
        }
    );
}

#[test]
fn groq_takes_the_key_as_a_token() {
    assert_eq!(
        request_for(&config(Provider::Groq), "Do it", "Frame", &images()),
        Request {
            url: GROQ_URL.to_string(),
            bearer: Some("k".to_string()),
            body: groq_payload("m", "Do it", "Frame", &images()),
        }
    );
}
