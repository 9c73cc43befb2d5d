//! What is sent to a service.
use vstd::prelude::*;

use crate::config::{LlmConfig, Provider};
use crate::numbers::decimal_text;

verus! {

use crate::config::ConfigText;
use crate::numbers::decimal;
use crate::text::{text_of, texts};

/// A JSON value.
#[derive(Debug, PartialEq, Eq)]
pub enum Json {
    Text(String),
    List(Vec<Json>),
    Object(Vec<(String, Json)>),
}

/// A JSON value as mathematics has it; the members of an object are in the order
/// in which they were put in.
pub ghost enum JsonTree {
    Text(Seq<char>),
    List(Seq<JsonTree>),
    Object(Seq<(Seq<char>, JsonTree)>),
}

impl Json {
    /// The value as mathematics has it.
    pub open spec fn tree(self) -> JsonTree
        decreases self,
    {
        match self {
            Json::Text(s) => JsonTree::Text(s@),
            Json::List(v) => JsonTree::List(
                Seq::new(
                    v@.len(),
                    |i: int|
                        if 0 <= i < v@.len() {
                            v@[i].tree()
                        } else {
                            arbitrary()
                        },
                ),
            ),
            Json::Object(v) => JsonTree::Object(
                Seq::new(
                    v@.len(),
                    |i: int|
                        if 0 <= i < v@.len() {
                            (v@[i].0@, v@[i].1.tree())
                        } else {
                            arbitrary()
                        },
                ),
            ),
        }
    }
}

/// The elements of a list.
pub open spec fn trees(v: Seq<Json>) -> Seq<JsonTree> {
    v.map_values(|j: Json| j.tree())
}

/// The members of an object.
pub open spec fn members(v: Seq<(String, Json)>) -> Seq<(Seq<char>, JsonTree)> {
    v.map_values(|m: (String, Json)| (m.0@, m.1.tree()))
}

fn json_text(s: &str) -> (r: Json)
    ensures
        r.tree() == JsonTree::Text(s@),
{
    Json::Text(s.to_owned())
}

fn json_list(v: Vec<Json>) -> (r: Json)
    ensures
        r.tree() == JsonTree::List(trees(v@)),
{
    let ghost elements = trees(v@);
    let r = Json::List(v);
    assert(r.tree()->List_0 =~= elements);
    r
}

fn json_object(v: Vec<(String, Json)>) -> (r: Json)
    ensures
        r.tree() == JsonTree::Object(members(v@)),
{
    let ghost ms = members(v@);
    let r = Json::Object(v);
    assert(r.tree()->Object_0 =~= ms);
    r
}

fn push_member(v: &mut Vec<(String, Json)>, key: &str, value: Json)
    ensures
        members(final(v)@) == members(old(v)@).push((key@, value.tree())),
{
    let ghost t = value.tree();
    v.push((key.to_owned(), value));
    assert(members(v@) =~= members(old(v)@).push((key@, t)));
}

fn push_json(v: &mut Vec<Json>, value: Json)
    ensures
        trees(final(v)@) == trees(old(v)@).push(value.tree()),
{
    let ghost t = value.tree();
    v.push(value);
    assert(trees(v@) =~= trees(old(v)@).push(t));
}

/// An object with one member.
fn json_single(key: &str, value: Json) -> (r: Json)
    ensures
        r.tree() == JsonTree::Object(seq![(key@, value.tree())]),
{
    let ghost t = value.tree();
    let mut v: Vec<(String, Json)> = Vec::new();
    push_member(&mut v, key, value);
    assert(members(v@) =~= seq![(key@, t)]);
    json_object(v)
}

/// The label of the image at place `i`: images are counted from one.
pub open spec fn image_label(label: Seq<char>, i: int) -> Seq<char> {
    label + " "@ + decimal((i + 1) as nat) + ":"@
}

fn label_text(label: &str, i: usize) -> (r: String)
    requires
        i < usize::MAX,
    ensures
        r@ == image_label(label@, i as int),
{
    let mut s = label.to_owned();
    s.append(" ");
    s.append(decimal_text(i as u64 + 1).as_str());
    s.append(":");
    s
}

/// A text as Gemini takes it.
pub open spec fn gemini_text_part(text: Seq<char>) -> JsonTree {
    JsonTree::Object(seq![("text"@, JsonTree::Text(text))])
}

/// An image as Gemini takes it.
pub open spec fn gemini_image_part(data: Seq<char>) -> JsonTree {
    JsonTree::Object(
        seq![
            (
                "inlineData"@,
                JsonTree::Object(
                    seq![
                        ("mimeType"@, JsonTree::Text("image/jpeg"@)),
                        ("data"@, JsonTree::Text(data)),
                    ],
                ),
            ),
        ],
    )
}

/// The prompt, and then each image behind its label.
pub open spec fn gemini_parts(
    prompt: Seq<char>,
    label: Seq<char>,
    images: Seq<Seq<char>>,
) -> Seq<JsonTree>
    decreases images.len(),
{
    if images.len() == 0 {
        seq![gemini_text_part(prompt)]
    } else {
        gemini_parts(prompt, label, images.drop_last()).push(
            gemini_text_part(image_label(label, images.len() - 1)),
        ).push(gemini_image_part(images.last()))
    }
}

/// What is sent to Gemini.
pub open spec fn gemini_body(
    prompt: Seq<char>,
    label: Seq<char>,
    images: Seq<Seq<char>>,
) -> JsonTree {
    JsonTree::Object(
        seq![
            (
                "contents"@,
                JsonTree::List(
                    seq![
                        JsonTree::Object(
                            seq![("parts"@, JsonTree::List(gemini_parts(prompt, label, images)))],
                        ),
                    ],
                ),
            ),
            (
                "generationConfig"@,
                JsonTree::Object(
                    seq![("responseMimeType"@, JsonTree::Text("application/json"@))],
                ),
            ),
        ],
    )
}

fn gemini_image_json(data: &str) -> (r: Json)
    ensures
        r.tree() == gemini_image_part(data@),
{
    let mut v: Vec<(String, Json)> = Vec::new();
    push_member(&mut v, "mimeType", json_text("image/jpeg"));
    push_member(&mut v, "data", json_text(data));
    assert(members(v@) =~= seq![
        ("mimeType"@, JsonTree::Text("image/jpeg"@)),
        ("data"@, JsonTree::Text(data@)),
    ]);
    json_single("inlineData", json_object(v))
}

/// Builds what is sent to Gemini. `images` are in Base64, and `label` is what
/// they are called.
pub fn gemini_payload(prompt: &str, label: &str, images: &Vec<String>) -> (r: Json)
    ensures
        r.tree() == gemini_body(prompt@, label@, texts(images@)),
{
    let mut parts: Vec<Json> = Vec::new();
    push_json(&mut parts, json_single("text", json_text(prompt)));
    assert(texts(images@).take(0) =~= Seq::empty());
    assert(trees(parts@) =~= seq![gemini_text_part(prompt@)]);
    for i in 0..images.len()
        invariant
            trees(parts@) == gemini_parts(prompt@, label@, texts(images@).take(i as int)),
    {
        assert(texts(images@).take(i + 1).drop_last() == texts(images@).take(i as int));
        assert(texts(images@).take(i + 1).last() == images@[i as int]@);
        push_json(&mut parts, json_single("text", json_text(label_text(label, i).as_str())));
        push_json(&mut parts, gemini_image_json(images[i].as_str()));
    }
    assert(texts(images@).take(images@.len() as int) == texts(images@));
    let mut contents: Vec<Json> = Vec::new();
    push_json(&mut contents, json_single("parts", json_list(parts)));
    assert(trees(contents@) =~= seq![
        JsonTree::Object(
            seq![("parts"@, JsonTree::List(gemini_parts(prompt@, label@, texts(images@))))],
        ),
    ]);
    let mut body: Vec<(String, Json)> = Vec::new();
    push_member(&mut body, "contents", json_list(contents));
    push_member(
        &mut body,
        "generationConfig",
        json_single("responseMimeType", json_text("application/json")),
    );
    assert(members(body@) =~= gemini_body(prompt@, label@, texts(images@))->Object_0);
    json_object(body)
}

/// A text as Groq takes it.
pub open spec fn groq_text_part(text: Seq<char>) -> JsonTree {
    JsonTree::Object(seq![("type"@, JsonTree::Text("text"@)), ("text"@, JsonTree::Text(text))])
}

/// An image as Groq takes it.
pub open spec fn groq_image_part(data: Seq<char>) -> JsonTree {
    JsonTree::Object(
        seq![
            ("type"@, JsonTree::Text("image_url"@)),
            (
                "image_url"@,
                JsonTree::Object(
                    seq![("url"@, JsonTree::Text("data:image/jpeg;base64,"@ + data))],
                ),
            ),
        ],
    )
}

/// The prompt, and then each image behind its label.
pub open spec fn groq_parts(
    prompt: Seq<char>,
    label: Seq<char>,
    images: Seq<Seq<char>>,
) -> Seq<JsonTree>
    decreases images.len(),
{
    if images.len() == 0 {
        seq![groq_text_part(prompt)]
    } else {
        groq_parts(prompt, label, images.drop_last()).push(
            groq_text_part(image_label(label, images.len() - 1)),
        ).push(groq_image_part(images.last()))
    }
}

/// What is sent to Groq.
pub open spec fn groq_body(
    model: Seq<char>,
    prompt: Seq<char>,
    label: Seq<char>,
    images: Seq<Seq<char>>,
) -> JsonTree {
    JsonTree::Object(
        seq![
            ("model"@, JsonTree::Text(model)),
            (
                "messages"@,
                JsonTree::List(
                    seq![
                        JsonTree::Object(
                            seq![
                                ("role"@, JsonTree::Text("user"@)),
                                ("content"@, JsonTree::List(groq_parts(prompt, label, images))),
                            ],
                        ),
                    ],
                ),
            ),
            (
                "response_format"@,
                JsonTree::Object(seq![("type"@, JsonTree::Text("json_object"@))]),
            ),
        ],
    )
}

fn groq_text_json(text: &str) -> (r: Json)
    ensures
        r.tree() == groq_text_part(text@),
{
    let mut v: Vec<(String, Json)> = Vec::new();
    push_member(&mut v, "type", json_text("text"));
    push_member(&mut v, "text", json_text(text));
    assert(members(v@) =~= groq_text_part(text@)->Object_0);
    json_object(v)
}

fn groq_image_json(data: &str) -> (r: Json)
    ensures
        r.tree() == groq_image_part(data@),
{
    let mut url = "data:image/jpeg;base64,".to_owned();
    url.append(data);
    let mut v: Vec<(String, Json)> = Vec::new();
    push_member(&mut v, "type", json_text("image_url"));
    push_member(&mut v, "image_url", json_single("url", json_text(url.as_str())));
    assert(members(v@) =~= groq_image_part(data@)->Object_0);
    json_object(v)
}

/// Builds what is sent to Groq. `images` are in Base64, and `label` is what they
/// are called.
pub fn groq_payload(model: &str, prompt: &str, label: &str, images: &Vec<String>) -> (r: Json)
    ensures
        r.tree() == groq_body(model@, prompt@, label@, texts(images@)),
{
    let mut content: Vec<Json> = Vec::new();
    push_json(&mut content, groq_text_json(prompt));
    assert(texts(images@).take(0) =~= Seq::empty());
    assert(trees(content@) =~= seq![groq_text_part(prompt@)]);
    for i in 0..images.len()
        invariant
            trees(content@) == groq_parts(prompt@, label@, texts(images@).take(i as int)),
    {
        assert(texts(images@).take(i + 1).drop_last() == texts(images@).take(i as int));
        assert(texts(images@).take(i + 1).last() == images@[i as int]@);
        push_json(&mut content, groq_text_json(label_text(label, i).as_str()));
        push_json(&mut content, groq_image_json(images[i].as_str()));
    }
    assert(texts(images@).take(images@.len() as int) == texts(images@));
    let ghost parts = groq_parts(prompt@, label@, texts(images@));
    let mut message: Vec<(String, Json)> = Vec::new();
    push_member(&mut message, "role", json_text("user"));
    push_member(&mut message, "content", json_list(content));
    let ghost message_tree = JsonTree::Object(
        seq![("role"@, JsonTree::Text("user"@)), ("content"@, JsonTree::List(parts))],
    );
    assert(members(message@) =~= message_tree->Object_0);
    let mut messages: Vec<Json> = Vec::new();
    push_json(&mut messages, json_object(message));
    assert(trees(messages@) =~= seq![message_tree]);
    let mut body: Vec<(String, Json)> = Vec::new();
    push_member(&mut body, "model", json_text(model));
    push_member(&mut body, "messages", json_list(messages));
    push_member(&mut body, "response_format", json_single("type", json_text("json_object")));
    assert(members(body@) =~= groq_body(model@, prompt@, label@, texts(images@))->Object_0);
    json_object(body)
}

/// The address at which Gemini is asked.
pub open spec fn gemini_address(model: Seq<char>, api_key: Seq<char>) -> Seq<char> {
    "https://generativelanguage.googleapis.com/v1beta/models/"@ + model + ":generateContent?key="@
        + api_key
}

/// Builds the address at which Gemini is asked.
pub fn gemini_url(model: &str, api_key: &str) -> (r: String)
    ensures
        r@ == gemini_address(model@, api_key@),
{
    let mut url = "https://generativelanguage.googleapis.com/v1beta/models/".to_owned();
    url.append(model);
    url.append(":generateContent?key=");
    url.append(api_key);
    url
}

/// The address at which Groq is asked.
pub const GROQ_URL: &'static str = "https://api.groq.com/openai/v1/chat/completions";

/// A call to a service.
#[derive(Debug, PartialEq, Eq)]
pub struct Request {
    /// The address to which the body is posted.
    pub url: String,
    /// What the call is authorized by, if the address does not say it.
    pub bearer: Option<String>,
    pub body: Json,
}

/// The text of a `Request`.
pub ghost struct RequestText {
    pub url: Seq<char>,
    pub bearer: Option<Seq<char>>,
    pub body: JsonTree,
}

impl View for Request {
    type V = RequestText;

    open spec fn view(&self) -> RequestText {
        RequestText { url: self.url@, bearer: text_of(self.bearer), body: self.body.tree() }
    }
}

/// The call by which the configured service is asked. Gemini takes the model and
/// the key in the address; Groq takes the key as a bearer token and the model in
/// the body.
pub open spec fn request_text(
    cfg: ConfigText,
    prompt: Seq<char>,
    label: Seq<char>,
    images: Seq<Seq<char>>,
) -> RequestText {
    match cfg.provider {
        Provider::Gemini => RequestText {
            url: gemini_address(cfg.model, cfg.api_key),
            bearer: None,
            body: gemini_body(prompt, label, images),
        },
        Provider::Groq => RequestText {
            url: GROQ_URL@,
            bearer: Some(cfg.api_key),
            body: groq_body(cfg.model, prompt, label, images),
        },
    }
}

/// Builds the call by which the configured service is asked.
pub fn request_for(cfg: &LlmConfig, prompt: &str, label: &str, images: &Vec<String>) -> (r: Request)
    ensures
        r@ == request_text(cfg@, prompt@, label@, texts(images@)),
{
    match cfg.provider {
        Provider::Gemini => Request {
            url: gemini_url(cfg.model.as_str(), cfg.api_key.as_str()),
            bearer: None,
            body: gemini_payload(prompt, label, images),
        },
        Provider::Groq => Request {
            url: GROQ_URL.to_owned(),
            bearer: Some(cfg.api_key.clone()),
            body: groq_payload(cfg.model.as_str(), prompt, label, images),
        },
    }
}

/// The message for a call that a service refused.
pub open spec fn refusal(provider: Provider, status: Seq<char>, body: Seq<char>) -> Seq<char> {
    (match provider {
        Provider::Gemini => "Gemini API error ("@,
        Provider::Groq => "Groq API error ("@,
    }) + status + "): "@ + body
}

/// Says that a service refused a call.
pub fn refusal_message(provider: Provider, status: &str, body: &str) -> (r: String)
    ensures
        r@ == refusal(provider, status@, body@),
{
    let mut s = match provider {
        Provider::Gemini => "Gemini API error (".to_owned(),
        Provider::Groq => "Groq API error (".to_owned(),
    };
    s.append(status);
    s.append("): ");
    s.append(body);
    s
}

/// Gemini gets the prompt first, and then all images in their order, each right
/// behind a label with its number.
pub proof fn gemini_images_are_labelled(
    prompt: Seq<char>,
    label: Seq<char>,
    images: Seq<Seq<char>>,
    i: int,
)
    requires
        0 <= i < images.len(),
    ensures
        gemini_parts(prompt, label, images).len() == 2 * images.len() + 1,
        gemini_parts(prompt, label, images)[0] == gemini_text_part(prompt),
        gemini_parts(prompt, label, images)[2 * i + 1] == gemini_text_part(image_label(label, i)),
        gemini_parts(prompt, label, images)[2 * i + 2] == gemini_image_part(images[i]),
    decreases images.len(),
{
    if images.len() > 1 {
        gemini_images_are_labelled(
            prompt,
            label,
            images.drop_last(),
            if i < images.len() - 1 {
                i
            } else {
                0
            },
        );
    } else {
        assert(gemini_parts(prompt, label, images.drop_last()).len() == 1);
    }
}

/// Groq gets the prompt first, and then all images in their order, each right
/// behind a label with its number.
pub proof fn groq_images_are_labelled(
    prompt: Seq<char>,
    label: Seq<char>,
    images: Seq<Seq<char>>,
    i: int,
)
    requires
        0 <= i < images.len(),
    ensures
        groq_parts(prompt, label, images).len() == 2 * images.len() + 1,
        groq_parts(prompt, label, images)[0] == groq_text_part(prompt),
        groq_parts(prompt, label, images)[2 * i + 1] == groq_text_part(image_label(label, i)),
        groq_parts(prompt, label, images)[2 * i + 2] == groq_image_part(images[i]),
    decreases images.len(),
{
    if images.len() > 1 {
        groq_images_are_labelled(
            prompt,
            label,
            images.drop_last(),
            if i < images.len() - 1 {
                i
            } else {
                0
            },
        );
    } else {
        assert(groq_parts(prompt, label, images.drop_last()).len() == 1);
    }
}

/// What Gemini is sent, as JSON: the prompt whole, and then each image whole and
/// in its order, right behind a text with the label and its number.
pub proof fn gemini_gets_every_image_whole(
    prompt: Seq<char>,
    label: Seq<char>,
    images: Seq<Seq<char>>,
    i: int,
) -> (parts: Seq<JsonTree>)
    ensures
        gemini_body(prompt, label, images) == JsonTree::Object(
            seq![
                (
                    "contents"@,
                    JsonTree::List(
                        seq![JsonTree::Object(seq![("parts"@, JsonTree::List(parts))])],
                    ),
                ),
                (
                    "generationConfig"@,
                    JsonTree::Object(
                        seq![("responseMimeType"@, JsonTree::Text("application/json"@))],
                    ),
                ),
            ],
        ),
        parts.len() == 2 * images.len() + 1,
        parts[0] == JsonTree::Object(seq![("text"@, JsonTree::Text(prompt))]),
        0 <= i < images.len() ==> parts[2 * i + 1] == JsonTree::Object(
            seq![("text"@, JsonTree::Text(label + " "@ + decimal((i + 1) as nat) + ":"@))],
        ),
        0 <= i < images.len() ==> parts[2 * i + 2] == JsonTree::Object(
            seq![
                (
                    "inlineData"@,
                    JsonTree::Object(
                        seq![
                            ("mimeType"@, JsonTree::Text("image/jpeg"@)),
                            ("data"@, JsonTree::Text(images[i])),
                        ],
                    ),
                ),
            ],
        ),
{
    if images.len() > 0 {
        gemini_images_are_labelled(
            prompt,
            label,
            images,
            if 0 <= i < images.len() {
                i
            } else {
                0
            },
        );
    }
    gemini_parts(prompt, label, images)
}

/// What Groq is sent, as JSON: the model, the prompt whole, and then each image
/// whole and in its order, right behind a text with the label and its number.
pub proof fn groq_gets_every_image_whole(
    model: Seq<char>,
    prompt: Seq<char>,
    label: Seq<char>,
    images: Seq<Seq<char>>,
    i: int,
) -> (parts: Seq<JsonTree>)
    ensures
        groq_body(model, prompt, label, images) == JsonTree::Object(
            seq![
                ("model"@, JsonTree::Text(model)),
                (
                    "messages"@,
                    JsonTree::List(
                        seq![
                            JsonTree::Object(
                                seq![
                                    ("role"@, JsonTree::Text("user"@)),
                                    ("content"@, JsonTree::List(parts)),
                                ],
                            ),
                        ],
                    ),
                ),
                (
                    "response_format"@,
                    JsonTree::Object(seq![("type"@, JsonTree::Text("json_object"@))]),
                ),
            ],
        ),
        parts.len() == 2 * images.len() + 1,
        parts[0] == JsonTree::Object(
            seq![("type"@, JsonTree::Text("text"@)), ("text"@, JsonTree::Text(prompt))],
        ),
        0 <= i < images.len() ==> parts[2 * i + 1] == JsonTree::Object(
            seq![
                ("type"@, JsonTree::Text("text"@)),
                ("text"@, JsonTree::Text(label + " "@ + decimal((i + 1) as nat) + ":"@)),
            ],
        ),
        0 <= i < images.len() ==> parts[2 * i + 2] == JsonTree::Object(
            seq![
                ("type"@, JsonTree::Text("image_url"@)),
                (
                    "image_url"@,
                    JsonTree::Object(
                        seq![("url"@, JsonTree::Text("data:image/jpeg;base64,"@ + images[i]))],
                    ),
                ),
            ],
        ),
{
    if images.len() > 0 {
        groq_images_are_labelled(
            prompt,
            label,
            images,
            if 0 <= i < images.len() {
                i
            } else {
                0
            },
        );
    }
    groq_parts(prompt, label, images)
}

/// The service that is configured is the one that is asked, at its address, with
/// the configured model and key, and the whole body.
pub proof fn the_configured_service_is_asked(
    cfg: ConfigText,
    prompt: Seq<char>,
    label: Seq<char>,
    images: Seq<Seq<char>>,
)
    ensures
        cfg.provider == Provider::Gemini ==> ({
            let r = request_text(cfg, prompt, label, images);
            &&& r.url == "https://generativelanguage.googleapis.com/v1beta/models/"@ + cfg.model
                + ":generateContent?key="@ + cfg.api_key
            &&& r.bearer is None
            &&& r.body == gemini_body(prompt, label, images)
        }),
        cfg.provider == Provider::Groq ==> ({
            let r = request_text(cfg, prompt, label, images);
            &&& r.url == "https://api.groq.com/openai/v1/chat/completions"@
            &&& r.bearer == Some(cfg.api_key)
            &&& r.body == groq_body(cfg.model, prompt, label, images)
        }),
        gemini_address(cfg.model, cfg.api_key)
            == "https://generativelanguage.googleapis.com/v1beta/models/"@ + cfg.model
            + ":generateContent?key="@ + cfg.api_key,
        image_label(label, 0) == label + " "@ + decimal(1) + ":"@,
{
}

/// The message for a refused call names the service and tells the status and the
/// whole body.
pub proof fn refusals_are_reported_whole(status: Seq<char>, body: Seq<char>)
    ensures
        refusal(Provider::Gemini, status, body) == "Gemini API error ("@ + status + "): "@ + body,
        refusal(Provider::Groq, status, body) == "Groq API error ("@ + status + "): "@ + body,
{
}

/// A JSON value is seen as it is: a text whole, a list with every element, and an
/// object with every member, each at its place.
pub proof fn json_is_seen_whole(
    s: String,
    list: Vec<Json>,
    object: Vec<(String, Json)>,
    i: int,
    r: Request,
)
    ensures
        Json::Text(s).tree() == JsonTree::Text(s@),
        Json::List(list).tree() is List,
        Json::List(list).tree()->List_0.len() == list@.len(),
        0 <= i < list@.len() ==> Json::List(list).tree()->List_0[i] == list@[i].tree(),
        Json::Object(object).tree() is Object,
        Json::Object(object).tree()->Object_0.len() == object@.len(),
        0 <= i < object@.len() ==> Json::Object(object).tree()->Object_0[i] == (
            object@[i].0@,
            object@[i].1.tree(),
        ),
        r@.url == r.url@,
        r@.bearer == (match r.bearer {
            Some(t) => Some(t@),
            None => None,
        }),
        r@.body == r.body.tree(),
{
}

} // verus!
