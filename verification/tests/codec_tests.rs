use alexa_sdk::response::Card;
use alexa_sdk::response::Image;
use alexa_sdk::response::Speech;
use alexa_sdk::response::parse_response;
use alexa_sdk::Response;

#[test]
fn test_render_end_exact() {
    let r = Response::end();
    assert_eq!(
        r.render(),
        "{\"version\":\"1.0\",\"response\":{\"shouldEndSession\":true}}"
    );
}

#[test]
fn test_render_speech_exact() {
    let r = Response::new(false).speech(Speech::plain("hi"));
    assert_eq!(
        r.render(),
        "{\"version\":\"1.0\",\"response\":{\"outputSpeech\":{\"type\":\"PlainText\",\"text\":\"hi\"},\"shouldEndSession\":false}}"
    );
}

#[test]
fn test_render_simple_exact() {
    let r = Response::simple("t", "x");
    assert_eq!(
        r.render(),
        "{\"version\":\"1.0\",\"response\":{\"outputSpeech\":{\"type\":\"PlainText\",\"text\":\"x\"},\"card\":{\"type\":\"Simple\",\"title\":\"t\",\"content\":\"x\"},\"shouldEndSession\":true}}"
    );
}

#[test]
fn test_render_omits_absent_fields() {
    let rendered = Response::end().render();
    assert!(!rendered.contains("null"));
    assert!(!rendered.contains("outputSpeech"));
    assert!(!rendered.contains("card"));
    assert!(!rendered.contains("reprompt"));
    assert!(!rendered.contains("sessionAttributes"));
}

#[test]
fn test_render_escapes_exact() {
    let r = Response::new(true).speech(Speech::plain("a\"b\\c\nd"));
    assert_eq!(
        r.render(),
        "{\"version\":\"1.0\",\"response\":{\"outputSpeech\":{\"type\":\"PlainText\",\"text\":\"a\\\"b\\\\c\\u000ad\"},\"shouldEndSession\":true}}"
    );
}

#[test]
fn test_attribute_round_trip() {
    let mut r = Response::simple("title", "text");
    r.add_attribute("attr", "value");
    let rendered = r.render();
    let back = parse_response(&rendered).unwrap();
    assert_eq!(
        back.session_attributes().as_ref().unwrap().get("attr").unwrap(),
        "value"
    );
}

#[test]
fn test_response_round_trip_full() {
    let mut r = Response::new(false)
        .card(Card::standard(
            "title here",
            "body text",
            Image::new()
                .small_image_url(String::from("small.png"))
                .large_image_url(String::from("large.png")),
        ))
        .speech(Speech::ssml("<speak>hello world</speak>"));
    r.add_attribute("count", "3");
    r.add_attribute("name", "jane");
    let rendered = r.render();
    let back = parse_response(&rendered).unwrap();

    assert_eq!(back.version(), "1.0");
    assert_eq!(back.body().should_end_session(), false);
    let speech = back.body().output_speech().as_ref().unwrap();
    assert_eq!(speech.speech_type(), "SSML");
    assert_eq!(speech.ssml_text().as_ref().unwrap(), "<speak>hello world</speak>");
    assert!(speech.text().is_none());
    let card = back.body().card().as_ref().unwrap();
    assert_eq!(card.card_type(), "Standard");
    assert_eq!(card.title().as_ref().unwrap(), "title here");
    assert_eq!(card.text().as_ref().unwrap(), "body text");
    assert!(card.content().is_none());
    let image = card.image().as_ref().unwrap();
    assert_eq!(image.small_url().as_ref().unwrap(), "small.png");
    assert_eq!(image.large_url().as_ref().unwrap(), "large.png");
    let attrs = back.session_attributes().as_ref().unwrap();
    assert_eq!(attrs.len(), 2);
    assert_eq!(attrs.get("count").unwrap(), "3");
    assert_eq!(attrs.get("name").unwrap(), "jane");
}

#[test]
fn test_escaped_text_round_trip() {
    let r = Response::new(true).speech(Speech::plain("tabs\tand \"quotes\" and \\slashes\\ and\nnewlines"));
    let back = parse_response(&r.render()).unwrap();
    assert_eq!(
        back.body().output_speech().as_ref().unwrap().text().as_ref().unwrap(),
        "tabs\tand \"quotes\" and \\slashes\\ and\nnewlines"
    );
}

#[test]
fn test_permissions_round_trip() {
    let r = Response::new(true).card(Card::ask_for_permission(vec![
        String::from("alexa::alerts:reminders:skill:readwrite"),
        String::from("read::alexa:device:all:address"),
    ]));
    let back = parse_response(&r.render()).unwrap();
    let card = back.body().card().as_ref().unwrap();
    assert_eq!(card.card_type(), "AskForPermissionsConsent");
    let perms = card.permissions().as_ref().unwrap();
    assert_eq!(perms.len(), 2);
    assert_eq!(perms[0], "alexa::alerts:reminders:skill:readwrite");
    assert_eq!(perms[1], "read::alexa:device:all:address");
}

#[test]
fn test_parse_response_rejects_malformed() {
    assert!(parse_response("{}").is_err());
    assert!(parse_response("{\"version\":\"1.0\"}").is_err());
    assert!(parse_response("{\"version\":\"1.0\",\"response\":{}}").is_err());
    assert!(parse_response("not json at all").is_err());
}

#[test]
fn test_play_behavior_round_trip() {
    let mut s = Speech::plain("hello");
    s.play_behavior(alexa_sdk::response::PlayBehavior::Enqueue);
    let r = Response::new(false).speech(s);
    let back = parse_response(&r.render()).unwrap();
    assert_eq!(
        back.body().output_speech().as_ref().unwrap().behavior().as_ref().unwrap(),
        "ENQUEUE"
    );
}
