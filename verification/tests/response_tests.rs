use alexa_sdk::response::Card;
use alexa_sdk::response::Image;
use alexa_sdk::response::PlayBehavior;
use alexa_sdk::response::Speech;
use alexa_sdk::Response;

#[test]
fn response_test_version() {
    let r = Response::simple("hello, world", "hello, dude");
    assert_eq!(r.version(), "1.0");
}

#[test]
fn test_builder() {
    let mut res = Response::new(false)
        .card(Card::standard(
            "foo",
            "bar",
            Image::new()
                .small_image_url(String::from("baaz.png"))
                .large_image_url(String::from("baazLarge.png")),
        ))
        .speech(Speech::plain("hello"));
    res.add_attribute("attr", "value");
    let t = res.body().card().as_ref().unwrap().title().as_ref().unwrap();
    assert_eq!(t, "foo");
    let txt = res.body().card().as_ref().unwrap().text().as_ref().unwrap();
    assert_eq!(txt, "bar");
    let attr = res
        .session_attributes()
        .as_ref()
        .unwrap()
        .get("attr")
        .unwrap();
    assert_eq!(attr, "value");
}

#[test]
fn test_builder_with_image_builder() {
    let mut res = Response::new(false)
        .card(Card::standard(
            "foo",
            "bar",
            Image::new()
                .small_image_url(String::from("baaz.png"))
                .large_image_url(String::from("baazLarge.png")),
        ))
        .speech(Speech::plain("hello"));
    res.add_attribute("attr", "value");
    let t = res.body().card().as_ref().unwrap().title().as_ref().unwrap();
    assert_eq!(t, "foo");
    let txt = res.body().card().as_ref().unwrap().text().as_ref().unwrap();
    assert_eq!(txt, "bar");
    let card = res.body().card().as_ref().unwrap();
    let small_img = card.image().as_ref().unwrap().small_url().as_ref().unwrap();
    let large_img = card.image().as_ref().unwrap().large_url().as_ref().unwrap();

    assert_eq!(small_img, "baaz.png");
    assert_eq!(large_img, "baazLarge.png");

    let attr = res
        .session_attributes()
        .as_ref()
        .unwrap()
        .get("attr")
        .unwrap();
    assert_eq!(attr, "value");
}

#[test]
fn test_title() {
    let t = "hello, world";
    let r = Response::simple(t, "hello, dude");

    assert_eq!(r.body().card().as_ref().unwrap().title().as_ref().unwrap(), t);
}

#[test]
fn test_text() {
    let t = "hello, dude";
    let r = Response::simple("hello,world", t);

    assert_eq!(r.body().card().as_ref().unwrap().content().as_ref().unwrap(), t);
}

#[test]
fn test_should_end() {
    let r = Response::simple("foo", "bar");
    assert_eq!(r.body().should_end_session(), true);
}

#[test]
fn test_simple_builder_invariant() {
    let r = Response::simple("t", "x");
    assert_eq!(r.body().should_end_session(), true);
    let card = r.body().card().as_ref().unwrap();
    assert_eq!(card.card_type(), "Simple");
    assert_eq!(card.title().as_ref().unwrap(), "t");
    assert_eq!(card.content().as_ref().unwrap(), "x");
    assert!(card.text().is_none());
    assert!(card.image().is_none());
    assert!(card.permissions().is_none());
    let speech = r.body().output_speech().as_ref().unwrap();
    assert_eq!(speech.speech_type(), "PlainText");
    assert_eq!(speech.text().as_ref().unwrap(), "x");
    assert!(speech.ssml_text().is_none());
}

#[test]
fn test_end_is_bare() {
    let r = Response::end();
    assert_eq!(r.version(), "1.0");
    assert!(r.session_attributes().is_none());
    assert!(r.body().output_speech().is_none());
    assert!(r.body().card().is_none());
    assert!(r.body().reprompt().is_none());
    assert_eq!(r.body().should_end_session(), true);
}

#[test]
fn test_add_attribute_overwrites() {
    let mut r = Response::new(false);
    r.add_attribute("k", "v1");
    r.add_attribute("k", "v2");
    r.add_attribute("other", "w");
    let attrs = r.session_attributes().as_ref().unwrap();
    assert_eq!(attrs.len(), 2);
    assert_eq!(attrs.get("k").unwrap(), "v2");
    assert_eq!(attrs.get("other").unwrap(), "w");
}

#[test]
fn test_ssml_speech() {
    let s = Speech::ssml("<speak>hi</speak>");
    assert_eq!(s.speech_type(), "SSML");
    assert_eq!(s.ssml_text().as_ref().unwrap(), "<speak>hi</speak>");
    assert!(s.text().is_none());
    assert!(s.behavior().is_none());
}

#[test]
fn test_play_behavior() {
    let mut s = Speech::plain("hi");
    s.play_behavior(PlayBehavior::ReplaceAll);
    assert_eq!(s.behavior().as_ref().unwrap(), "REPLACE_ALL");
}

#[test]
fn test_link_account_card() {
    let c = Card::link_account();
    assert_eq!(c.card_type(), "LinkAccount");
    assert!(c.title().is_none());
    assert!(c.content().is_none());
    assert!(c.text().is_none());
    assert!(c.image().is_none());
    assert!(c.permissions().is_none());
}

#[test]
fn test_ask_for_permission_card() {
    let c = Card::ask_for_permission(vec![
        String::from("read::alexa:device:all:address"),
    ]);
    assert_eq!(c.card_type(), "AskForPermissionsConsent");
    let perms = c.permissions().as_ref().unwrap();
    assert_eq!(perms.len(), 1);
    assert_eq!(perms[0], "read::alexa:device:all:address");
}

#[test]
fn test_image_default() {
    let i = Image::default();
    assert!(i.small_url().is_none());
    assert!(i.large_url().is_none());
}
