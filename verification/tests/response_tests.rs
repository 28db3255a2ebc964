use alexa_sdk::response::{
    AlexaPresentationHTMLStartDirective, AlexaPresentationHTMLStartDirectiveConfiguration,
    AlexaPresentationHTMLStartDirectiveRequest, AlexaPresentationHTMLStartDirectiveTransformer,
    AlexaPresentationHTMLStartDirectiveTransformerType, Card, Directive, Image, PlayBehavior,
    Response, Speech,
};
use alexa_sdk::kvmap::KvMap;
use alexa_sdk::json::Json;
use alexa_sdk::request::DecodeError;

#[test]
fn response_test_version() {
    let r = Response::simple("hello, world", "hello, dude");
    assert_eq!(r.version, "1.0");
}

#[test]
fn test_builder() {
    let mut res = Response::new(Some(false))
        .card(Card::standard(
            "foo",
            "bar",
            Image {
                small_image_url: Some(String::from("baaz.png")),
                large_image_url: Some(String::from("baazLarge.png")),
            },
        ))
        .speech(Speech::plain("hello"));
    res.add_attribute("attr", "value");
    let t = res.body.card.as_ref().unwrap().title.as_ref().unwrap();
    assert_eq!(t, "foo");
    let txt = res.body.card.as_ref().unwrap().text.as_ref().unwrap();
    assert_eq!(txt, "bar");
    let attr = res
        .session_attributes
        .as_ref()
        .unwrap()
        .get("attr")
        .unwrap();
    assert_eq!(attr, "value");
}

#[test]
fn test_builder_with_image_builder() {
    let mut res = Response::new(Some(false))
        .card(Card::standard(
            "foo",
            "bar",
            Image::new()
                .small_image_url(String::from("baaz.png"))
                .large_image_url(String::from("baazLarge.png")),
        ))
        .speech(Speech::plain("hello"));
    res.add_attribute("attr", "value");
    let t = res.body.card.as_ref().unwrap().title.as_ref().unwrap();
    assert_eq!(t, "foo");
    let txt = res.body.card.as_ref().unwrap().text.as_ref().unwrap();
    assert_eq!(txt, "bar");
    let small_img = res
        .body
        .card
        .as_ref()
        .unwrap()
        .image
        .as_ref()
        .unwrap()
        .small_image_url
        .as_ref()
        .unwrap();
    let large_img = res
        .body
        .card
        .as_ref()
        .unwrap()
        .image
        .as_ref()
        .unwrap()
        .large_image_url
        .as_ref()
        .unwrap();

    assert_eq!(small_img, "baaz.png");
    assert_eq!(large_img, "baazLarge.png");

    let attr = res
        .session_attributes
        .as_ref()
        .unwrap()
        .get("attr")
        .unwrap();
    assert_eq!(attr, "value");
}

#[test]
fn test_title() {
    let t = "hello, world";
    let r = Response::simple(t, "hello, dude");

    assert_eq!(r.body.card.unwrap().title.unwrap(), t);
}

#[test]
fn test_text() {
    let t = "hello, dude";
    let r = Response::simple("hello,world", t);

    assert_eq!(r.body.card.unwrap().content.unwrap(), t);
}

#[test]
fn test_should_end() {
    let r = Response::simple("foo", "bar");
    assert_eq!(r.body.should_end_session, Some(true));
}

#[test]
fn test_simple_serialization_omits_empty_parts() {
    let r = Response::simple("T", "X");
    assert_eq!(r.body.should_end_session, Some(true));
    let text = r.to_json_string();
    assert!(!text.contains("sessionAttributes"));
    assert!(!text.contains("directives"));
    assert!(!text.contains("reprompt"));
    assert!(text.contains("\"type\":\"Simple\""));
    assert!(text.contains("\"title\":\"T\""));
    assert!(text.contains("\"content\":\"X\""));
    assert!(text.contains("\"type\":\"PlainText\""));
    assert!(text.contains("\"text\":\"X\""));
}

#[test]
fn test_end_serialization_exact() {
    let r = Response::end();
    assert_eq!(
        r.to_json_string(),
        "{\"version\":\"1.0\",\"response\":{\"shouldEndSession\":true}}"
    );
}

#[test]
fn test_attribute_last_write_wins() {
    let mut r = Response::new(None);
    r.add_attribute("k", "first");
    r.add_attribute("k", "second");
    r.add_attribute("other", "third");
    let attrs = r.session_attributes.as_ref().unwrap();
    assert_eq!(attrs.get("k").unwrap(), "second");
    assert_eq!(attrs.get("other").unwrap(), "third");
    assert_eq!(attrs.len(), 2);
    let text = r.to_json_string();
    assert!(text.contains("sessionAttributes"));
    assert!(text.contains("\"k\":\"second\""));
    assert!(!text.contains("first"));
}

#[test]
fn test_directive_order_preserved() {
    let mut r = Response::end();
    let first = AlexaPresentationHTMLStartDirective::new(
        KvMap::new(),
        AlexaPresentationHTMLStartDirectiveRequest::new(String::from("https://example.com/a")),
        AlexaPresentationHTMLStartDirectiveConfiguration::new(5),
        Vec::new(),
    );
    let second = AlexaPresentationHTMLStartDirective::new(
        KvMap::new(),
        AlexaPresentationHTMLStartDirectiveRequest::new(String::from("https://example.com/b")),
        AlexaPresentationHTMLStartDirectiveConfiguration::new(7),
        Vec::new(),
    );
    r.add_directive(Directive::AlexaPresentationHTMLStartDirective(first));
    r.add_directive(Directive::AlexaPresentationHTMLStartDirective(second));
    let text = r.to_json_string();
    let a = text.find("https://example.com/a").expect("first directive");
    let b = text.find("https://example.com/b").expect("second directive");
    assert!(a < b);
    assert!(text.contains("\"type\":\"Alexa.Presentation.HTML.Start\""));
    assert!(text.contains("\"method\":\"GET\""));
    assert!(text.contains("\"timeoutInSeconds\":5"));
}

#[test]
fn test_directive_data_and_transformers() {
    let mut data: KvMap<String> = KvMap::new();
    data.insert(String::from("greeting"), String::from("hi"));
    let transformer = AlexaPresentationHTMLStartDirectiveTransformer {
        input_path: String::from("greeting"),
        output_name: Some(String::from("speech")),
        transformer: AlexaPresentationHTMLStartDirectiveTransformerType::TextToSpeech,
    };
    let d = AlexaPresentationHTMLStartDirective::new(
        data,
        AlexaPresentationHTMLStartDirectiveRequest::new(String::from("https://example.com")),
        AlexaPresentationHTMLStartDirectiveConfiguration::new(30),
        vec![transformer],
    );
    let mut r = Response::end();
    r.add_directive(Directive::AlexaPresentationHTMLStartDirective(d));
    let text = r.to_json_string();
    assert!(text.contains("\"data\":{\"greeting\":\"hi\"}"));
    assert!(text.contains("\"transformer\":\"textToSpeech\""));
    assert!(text.contains("\"inputPath\":\"greeting\""));
    assert!(text.contains("\"outputName\":\"speech\""));
}

#[test]
fn test_ssml_and_play_behavior() {
    let mut s = Speech::ssml("<speak>Hello</speak>");
    s.play_behavior(PlayBehavior::ReplaceAll);
    let r = Response::new(Some(true)).speech(s);
    let text = r.to_json_string();
    assert!(text.contains("\"type\":\"SSML\""));
    assert!(text.contains("\"ssml\":\"<speak>Hello<\\/speak>\"") || text.contains("\"ssml\":\"<speak>Hello</speak>\""));
    assert!(text.contains("\"playBehavior\":\"REPLACE_ALL\""));
}

#[test]
fn test_link_account_and_permission_cards() {
    let r = Response::new(None).card(Card::link_account());
    let text = r.to_json_string();
    assert!(text.contains("\"type\":\"LinkAccount\""));
    assert!(!text.contains("title"));

    let r = Response::new(None).card(Card::ask_for_permission(vec![String::from(
        "alexa::devices:all:address:full:read",
    )]));
    let text = r.to_json_string();
    assert!(text.contains("\"type\":\"AskForPermissonConsent\""));
    assert!(text.contains("\"permissions\":[\"alexa::devices:all:address:full:read\"]"));
}

#[test]
fn test_string_escaping() {
    let r = Response::simple("a\"b", "c\\d\ne");
    let text = r.to_json_string();
    assert!(text.contains("\"title\":\"a\\\"b\""));
    assert!(text.contains("\"content\":\"c\\\\d\\ne\""));
}

#[test]
fn test_kvmap_basics() {
    let mut m: KvMap<String> = KvMap::new();
    assert!(m.is_empty());
    assert!(m.get("a").is_none());
    m.insert(String::from("a"), String::from("1"));
    m.insert(String::from("b"), String::from("2"));
    m.insert(String::from("a"), String::from("3"));
    assert_eq!(m.len(), 2);
    assert_eq!(m.get("a").unwrap(), "3");
    assert_eq!(m.get("b").unwrap(), "2");
    assert_eq!(m.key_at(0), "a");
    assert_eq!(m.key_at(1), "b");
}

#[test]
fn test_directive_decode_round_trip() {
    let mut data: KvMap<String> = KvMap::new();
    data.insert(String::from("page"), String::from("index.html"));
    let d = AlexaPresentationHTMLStartDirective::new(
        data,
        AlexaPresentationHTMLStartDirectiveRequest::new(String::from("https://example.com")),
        AlexaPresentationHTMLStartDirectiveConfiguration::new(30),
        Vec::new(),
    );
    let built = Directive::AlexaPresentationHTMLStartDirective(d);
    let encoded = built.to_json();
    let Directive::AlexaPresentationHTMLStartDirective(back) =
        Directive::from_json(&encoded).expect("decode should succeed");
    assert_eq!(back.request.uri, "https://example.com");
    assert_eq!(back.request.method, "GET");
    assert_eq!(back.configuration.timeout_in_seconds, Some(30));
    assert_eq!(back.data.get("page").unwrap(), "index.html");
    assert!(back.transformers.is_empty());
}

#[test]
fn test_directive_unknown_type_fails() {
    let j = Json::Obj(vec![
        (String::from("type"), Json::Str(String::from("Alexa.Presentation.APL.RenderDocument"))),
        (String::from("request"), Json::Obj(Vec::new())),
        (String::from("configuration"), Json::Obj(Vec::new())),
    ]);
    match Directive::from_json(&j) {
        Err(DecodeError::Invalid) => {}
        other => panic!("expected an invalid-schema error, got {:?}", other),
    }
}
