use alexa_sdk::request::IntentType;
use alexa_sdk::request::Locale;
use alexa_sdk::request::ReqType;
use alexa_sdk::request::parse_request;
use alexa_sdk::Request;

fn default_req() -> &'static str {
    r#"{
	"version": "1.0",
	"session": {
		"new": true,
		"sessionId": "amzn1.echo-api.session.abc123",
		"application": {
			"applicationId": "amzn1.ask.skill.myappid"
		},
        "attributes": {
            "lastSpeech": "Jupiter has the shortest day of all the planets"
        },
		"user": {
			"userId": "amzn1.ask.account.theuserid"
		}
	},
	"context": {
		"System": {
			"application": {
				"applicationId": "amzn1.ask.skill.myappid"
			},
			"user": {
				"userId": "amzn1.ask.account.theuserid"
			},
			"device": {
				"deviceId": "amzn1.ask.device.superfakedevice",
				"supportedInterfaces": {}
			},
			"apiEndpoint": "https://api.amazonalexa.com",
			"apiAccessToken": "53kr14t.k3y.d4t4-otherstuff"
		},
		"Viewport": {
			"experiences": [
				{
					"arcMinuteWidth": 246,
					"arcMinuteHeight": 144,
					"canRotate": false,
					"canResize": false
				}
			],
			"shape": "RECTANGLE",
			"pixelWidth": 1024,
			"pixelHeight": 600,
			"dpi": 160,
			"currentPixelWidth": 1024,
			"currentPixelHeight": 600,
			"touch": [
				"SINGLE"
			]
		}
	},
	"request": {
		"type": "IntentRequest",
		"requestId": "amzn1.echo-api.request.b8b49fde-4370-423f-bbb0-dc7305b788a0",
		"timestamp": "2018-12-03T00:33:58Z",
		"locale": "en-US",
		"intent": {
			"name": "hello",
			"confirmationStatus": "NONE"
		}
	}
}"#
}

fn req_with_slots() -> &'static str {
    r#"{
	"version": "1.0",
	"session": {
		"new": true,
		"sessionId": "amzn1.echo-api.session.blahblahblah",
		"application": {
			"applicationId": "amzn1.ask.skill.testappliction"
		},
		"user": {
			"userId": "amzn1.ask.account.longstringuseridentifier"
		}
	},
	"context": {
		"Display": {},
		"System": {
			"application": {
				"applicationId": "amzn1.ask.skill.tehappz"
			},
			"user": {
				"userId": "amzn1.ask.account.longstringuseridentifier"
			},
			"device": {
				"deviceId": "amzn1.ask.device.testdevice",
				"supportedInterfaces": {
					"Display": {
						"templateVersion": "1.0",
						"markupVersion": "1.0"
					}
				}
			},
			"apiEndpoint": "https://api.amazonalexa.com",
			"apiAccessToken": "teh.token.with-long-string-more-more-more-more"
		},
		"Viewport": {
			"experiences": [
				{
					"arcMinuteWidth": 246,
					"arcMinuteHeight": 144,
					"canRotate": false,
					"canResize": false
				}
			],
			"shape": "RECTANGLE",
			"pixelWidth": 1024,
			"pixelHeight": 600,
			"dpi": 160,
			"currentPixelWidth": 1024,
			"currentPixelHeight": 600,
			"touch": [
				"SINGLE"
			]
		}
	},
	"request": {
		"type": "IntentRequest",
		"requestId": "amzn1.echo-api.request.id",
		"timestamp": "2018-12-08T05:37:32Z",
		"locale": "en-US",
		"intent": {
			"name": "hello",
			"confirmationStatus": "NONE",
			"slots": {
				"name": {
					"name": "name",
					"value": "bob",
					"confirmationStatus": "NONE",
					"source": "USER"
				}
			}
		}
	}
}"#
}

#[test]
fn request_test_version() {
    let p: Result<Request, _> = parse_request(default_req());
    match p {
        Ok(req) => assert_eq!(req.version, "1.0"),
        Err(_) => panic!("deserialization failed"),
    }
}

#[test]
fn test_locale() {
    let p: Result<Request, _> = parse_request(default_req());
    match p {
        Ok(req) => assert_eq!(req.locale(), Locale::AmericanEnglish),
        Err(_) => panic!("deserialization failed"),
    }
}

#[test]
fn test_is_english() {
    let p: Result<Request, _> = parse_request(default_req());
    match p {
        Ok(req) => assert!(req.locale().is_english()),
        Err(_) => panic!("deserialization failed"),
    }
}

#[test]
fn test_intent() {
    let p: Result<Request, _> = parse_request(default_req());
    match p {
        Ok(req) => assert_eq!(req.intent(), IntentType::User(String::from("hello"))),
        Err(_) => panic!("deserialization failed"),
    }
}

#[test]
fn test_slot() {
    let p: Result<Request, _> = parse_request(req_with_slots());
    match p {
        Ok(req) => assert_eq!(req.slot_value("name"), Some(String::from("bob"))),
        Err(_) => panic!("deserialization failed"),
    }
}

#[test]
fn test_attribute() {
    let p: Result<Request, _> = parse_request(default_req());
    match p {
        Ok(req) => {
            assert!(req.session.is_some());
            assert!(req.session.unwrap().attributes.is_some());
        }
        Err(_) => panic!("deserialization failed"),
    }
}

#[test]
fn test_attribute_val() {
    let p: Result<Request, _> = parse_request(default_req());
    match p {
        Ok(req) => assert_eq!(
            req.attribute_value("lastSpeech"),
            Some(&String::from(
                "Jupiter has the shortest day of all the planets"
            ))
        ),
        Err(_) => panic!("deserialization failed"),
    }
}

#[test]
fn test_slot_missing() {
    let req = parse_request(req_with_slots()).unwrap();
    assert_eq!(req.slot_value("missing"), None);
}

#[test]
fn test_intent_help_builtin() {
    let doc = default_req().replace("\"hello\"", "\"AMAZON.HelpIntent\"");
    let req = parse_request(&doc).unwrap();
    assert_eq!(req.intent(), IntentType::Help);
}

#[test]
fn test_reqtype() {
    let req = parse_request(default_req()).unwrap();
    assert_eq!(req.reqtype(), ReqType::IntentRequest);
}

#[test]
fn test_reqtype_other() {
    let doc = default_req().replace("\"IntentRequest\"", "\"SomethingBrandNew\"");
    let req = parse_request(&doc).unwrap();
    assert_eq!(req.reqtype(), ReqType::Other(String::from("SomethingBrandNew")));
}

#[test]
fn test_locale_bucket() {
    assert!(Locale::from_tag("en-US").is_english());
    assert!(!Locale::from_tag("ja-JP").is_english());
    assert_eq!(Locale::from_tag("xx-XX"), Locale::Unknown);
    assert!(!Locale::from_tag("xx-XX").is_english());
}

#[test]
fn test_classifier_totality_empty() {
    assert_eq!(Locale::from_tag(""), Locale::Unknown);
    assert_eq!(ReqType::from_tag(""), ReqType::Other(String::new()));
    let doc = default_req().replace("\"hello\"", "\"\"");
    let req = parse_request(&doc).unwrap();
    assert_eq!(req.intent(), IntentType::User(String::new()));
}

#[test]
fn test_is_new() {
    let req = parse_request(default_req()).unwrap();
    assert!(req.is_new());
}

#[test]
fn test_missing_required_field_fails() {
    let doc = default_req().replace("\"version\": \"1.0\",", "");
    assert!(parse_request(&doc).is_err());
}

#[test]
fn test_wrong_type_fails() {
    let doc = default_req().replace("\"version\": \"1.0\"", "\"version\": 5");
    assert!(parse_request(&doc).is_err());
}

#[test]
fn test_invalid_json_fails() {
    assert!(parse_request("{\"version\": ").is_err());
    assert!(parse_request("").is_err());
    assert!(parse_request("[1, 2]").is_err());
}

#[test]
fn test_offset_in_milliseconds() {
    let doc = default_req().replace(
        "\"context\": {",
        "\"context\": {\n\t\t\"AudioPlayer\": {\"token\": \"tok\", \"offsetInMilliseconds\": 12345, \"playerActivity\": \"PLAYING\"},",
    );
    let req = parse_request(&doc).unwrap();
    let player = req.context.audio_player.unwrap();
    assert_eq!(player.offset_in_milliseconds, Some(12345));
    assert_eq!(player.token, Some(String::from("tok")));
}

#[test]
fn test_offset_overflow_fails() {
    let doc = default_req().replace(
        "\"context\": {",
        "\"context\": {\n\t\t\"AudioPlayer\": {\"offsetInMilliseconds\": 99999999999999999999999999},",
    );
    assert!(parse_request(&doc).is_err());
}

#[test]
fn test_unicode_escape() {
    let doc = default_req().replace("\"version\": \"1.0\"", "\"version\": \"\\u0041\\uD834\\uDD1E\"");
    let req = parse_request(&doc).unwrap();
    assert_eq!(req.version, "A\u{1D11E}");
}

#[test]
fn test_duplicate_attribute_key_last_wins() {
    let doc = default_req().replace(
        "\"lastSpeech\": \"Jupiter has the shortest day of all the planets\"",
        "\"a\": \"1\", \"a\": \"2\"",
    );
    let req = parse_request(&doc).unwrap();
    assert_eq!(req.attribute_value("a"), Some(&String::from("2")));
}

#[test]
fn test_locale_table() {
    assert_eq!(Locale::from_tag("it-IT"), Locale::Italian);
    assert_eq!(Locale::from_tag("de-DE"), Locale::German);
    assert_eq!(Locale::from_tag("en-AU"), Locale::AustralianEnglish);
    assert_eq!(Locale::from_tag("en-CA"), Locale::CanadianEnglish);
    assert_eq!(Locale::from_tag("en-GB"), Locale::BritishEnglish);
    assert_eq!(Locale::from_tag("en-IN"), Locale::IndianEnglish);
    assert_eq!(Locale::from_tag("en-US"), Locale::AmericanEnglish);
    assert_eq!(Locale::from_tag("ja-JP"), Locale::Japanese);
    assert_eq!(Locale::from_tag("en-us"), Locale::Unknown);
}

#[test]
fn test_intent_table() {
    for (name, expected) in [
        ("AMAZON.CancelIntent", IntentType::Cancel),
        ("AMAZON.StopIntent", IntentType::Stop),
        ("AMAZON.YesIntent", IntentType::Yes),
        ("AMAZON.NoIntent", IntentType::No),
        ("AMAZON.FallbackIntent", IntentType::Fallback),
    ] {
        let doc = default_req().replace("\"hello\"", &format!("\"{}\"", name));
        let req = parse_request(&doc).unwrap();
        assert_eq!(req.intent(), expected);
    }
    // Exact match only: a prefix or different case is a custom intent.
    let doc = default_req().replace("\"hello\"", "\"AMAZON.HelpInten\"");
    let req = parse_request(&doc).unwrap();
    assert_eq!(req.intent(), IntentType::User(String::from("AMAZON.HelpInten")));
}

#[test]
fn test_session_less_request() {
    let doc = r#"{
	"version": "1.0",
	"context": { "System": {} },
	"request": {
		"type": "LaunchRequest",
		"requestId": "id",
		"timestamp": "2021-01-01T00:00:00Z",
		"locale": "de-DE"
	}
}"#;
    let req = parse_request(doc).unwrap();
    assert!(!req.is_new());
    assert_eq!(req.reqtype(), ReqType::LaunchRequest);
    assert_eq!(req.locale(), Locale::German);
    assert_eq!(req.intent(), IntentType::NoIntent);
    assert_eq!(req.attribute_value("anything"), None);
    assert_eq!(req.slot_value("anything"), None);
}
