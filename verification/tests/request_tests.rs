use alexa_sdk::json::Json;
use alexa_sdk::request::{DecodeError, IntentType, Locale, Request};

fn default_req() -> &'static str {
    r#"{
	"version": "1.0",
	"session": {
		"new": true,
		"sessionId": "amzn1.echo-api.session.abc123",
		"application": {
			"applicationId": "amzn1.ask.skill.myappid"
		},
		"user": {
			"userId": "amzn1.ask.account.theuserid"
		}
	},
	"context": {
		"System": {
			"application": {
				"applicationId": "amzn1.ask.skill.myappid"
			},
			"user": {
				"userId": "amzn1.ask.account.theuserid"
			},
			"device": {
				"deviceId": "amzn1.ask.device.superfakedevice",
				"supportedInterfaces": {}
			},
			"apiEndpoint": "https://api.amazonalexa.com",
			"apiAccessToken": "53kr14t.k3y.d4t4-otherstuff"
		},
		"Viewport": {
			"experiences": [
				{
					"arcMinuteWidth": 246,
					"arcMinuteHeight": 144,
					"canRotate": false,
					"canResize": false
				}
			],
			"shape": "RECTANGLE",
			"pixelWidth": 1024,
			"pixelHeight": 600,
			"dpi": 160,
			"currentPixelWidth": 1024,
			"currentPixelHeight": 600,
			"touch": [
				"SINGLE"
			]
		}
	},
	"request": {
		"type": "IntentRequest",
		"requestId": "amzn1.echo-api.request.b8b49fde-4370-423f-bbb0-dc7305b788a0",
		"timestamp": "2018-12-03T00:33:58Z",
		"locale": "en-US",
		"intent": {
			"name": "hello",
			"confirmationStatus": "NONE"
		}
	}
}"#
}

#[test]
fn request_test_version() {
    let p: Result<Request, DecodeError> = Request::decode(default_req());
    match p {
        Ok(req) => assert_eq!(req.version, "1.0"),
        Err(e) => panic!("{:?}", e),
    }
}

#[test]
fn test_locale() {
    let p: Result<Request, DecodeError> = Request::decode(default_req());
    match p {
        Ok(req) => assert_eq!(req.locale(), Locale::AmericanEnglish),
        Err(e) => panic!("{:?}", e),
    }
}

#[test]
fn test_is_english() {
    let p: Result<Request, DecodeError> = Request::decode(default_req());
    match p {
        Ok(req) => assert!(req.locale().is_english()),
        Err(e) => panic!("{:?}", e),
    }
}

#[test]
fn test_intent() {
    let p: Result<Request, DecodeError> = Request::decode(default_req());
    match p {
        Ok(req) => assert_eq!(req.intent(), IntentType::User(String::from("hello"))),
        Err(e) => panic!("{:?}", e),
    }
}

#[test]
fn test_locale_classify_table() {
    assert_eq!(Locale::classify("it-IT"), Locale::Italian);
    assert_eq!(Locale::classify("de-DE"), Locale::German);
    assert_eq!(Locale::classify("en-AU"), Locale::AustralianEnglish);
    assert_eq!(Locale::classify("en-CA"), Locale::CanadianEnglish);
    assert_eq!(Locale::classify("en-GB"), Locale::BritishEnglish);
    assert_eq!(Locale::classify("en-IN"), Locale::IndianEnglish);
    assert_eq!(Locale::classify("en-US"), Locale::AmericanEnglish);
    assert_eq!(Locale::classify("ja-JP"), Locale::Japanese);
    assert_eq!(Locale::classify("fr-FR"), Locale::Unknown);
    assert_eq!(Locale::classify("en-us"), Locale::Unknown);
    assert_eq!(Locale::classify(""), Locale::Unknown);
}

#[test]
fn test_is_english_exactly_five() {
    assert!(Locale::AmericanEnglish.is_english());
    assert!(Locale::AustralianEnglish.is_english());
    assert!(Locale::CanadianEnglish.is_english());
    assert!(Locale::BritishEnglish.is_english());
    assert!(Locale::IndianEnglish.is_english());
    assert!(!Locale::Italian.is_english());
    assert!(!Locale::German.is_english());
    assert!(!Locale::Japanese.is_english());
    assert!(!Locale::Unknown.is_english());
}

#[test]
fn test_intent_builtin() {
    let text = default_req().replace("hello", "AMAZON.HelpIntent");
    let req = Request::decode(&text).unwrap();
    assert_eq!(req.intent(), IntentType::Help);
    let text = default_req().replace("hello", "AMAZON.StopIntent");
    let req = Request::decode(&text).unwrap();
    assert_eq!(req.intent(), IntentType::Stop);
}

#[test]
fn test_intent_absent() {
    let text = default_req().replace(
        "\"intent\": {\n\t\t\t\"name\": \"hello\",\n\t\t\t\"confirmationStatus\": \"NONE\"\n\t\t}",
        "\"reason\": \"SessionEnded\"",
    );
    let req = Request::decode(&text).unwrap();
    assert_eq!(req.intent(), IntentType::Absent);
    assert_eq!(req.body.reason.as_deref(), Some("SessionEnded"));
}

#[test]
fn test_intent_whitespace_is_custom() {
    let text = default_req().replace("hello", "AMAZON.HelpIntent ");
    let req = Request::decode(&text).unwrap();
    assert_eq!(
        req.intent(),
        IntentType::User(String::from("AMAZON.HelpIntent "))
    );
}

#[test]
fn test_missing_request_id_fails() {
    let text = default_req().replace("requestId", "requestIdentifier");
    match Request::decode(&text) {
        Err(DecodeError::Invalid) => {}
        other => panic!("expected an invalid-schema error, got {:?}", other),
    }
}

#[test]
fn test_malformed_text_fails() {
    match Request::decode("this is not json") {
        Err(DecodeError::Malformed) => {}
        other => panic!("expected a malformed-text error, got {:?}", other),
    }
}

#[test]
fn test_session_fields() {
    let req = Request::decode(default_req()).unwrap();
    let session = req.session.expect("session should be present");
    assert!(session.new);
    assert_eq!(session.session_id, "amzn1.echo-api.session.abc123");
    assert_eq!(session.application.application_id, "amzn1.ask.skill.myappid");
    assert_eq!(session.user.user_id, "amzn1.ask.account.theuserid");
    assert!(session.user.access_token.is_none());
    assert!(session.attributes.is_none());
    assert_eq!(
        req.context.system.device.expect("device").device_id,
        "amzn1.ask.device.superfakedevice"
    );
    assert_eq!(req.body.reqtype, "IntentRequest");
    assert_eq!(req.body.timestamp, "2018-12-03T00:33:58Z");
}

#[test]
fn test_slots_and_resolutions() {
    let text = r#"{
	"version": "1.0",
	"context": { "System": { "apiAccessToken": "t" } },
	"request": {
		"type": "IntentRequest",
		"requestId": "r1",
		"timestamp": "2020-01-01T00:00:00Z",
		"locale": "en-GB",
		"intent": {
			"name": "OrderIntent",
			"confirmationStatus": "NONE",
			"slots": {
				"drink": {
					"name": "drink",
					"value": "tea",
					"confirmationStatus": "NONE",
					"resolutions": {
						"resolutionsPerAuthority": [
							{
								"authority": "a1",
								"status": { "code": "ER_SUCCESS_MATCH" },
								"values": [ { "name": "tea", "id": "TEA" } ]
							}
						]
					}
				}
			}
		}
	}
}"#;
    let req = Request::decode(text).unwrap();
    let intent = req.body.intent.expect("intent");
    let slots = intent.slots.expect("slots");
    let slot = slots.get("drink").expect("drink slot");
    assert_eq!(slot.value, "tea");
    let res = slot.resolutions.as_ref().expect("resolutions");
    assert_eq!(res.resolutions_per_authority.len(), 1);
    assert_eq!(res.resolutions_per_authority[0].status.code, "ER_SUCCESS_MATCH");
    assert_eq!(res.resolutions_per_authority[0].values[0].id, "TEA");
}

#[test]
fn test_audio_player_offset() {
    let text = r#"{
	"version": "1.0",
	"context": {
		"System": { "apiAccessToken": "t" },
		"AudioPlayer": { "token": "tk", "offsetInMilliseconds": 5000, "playerActivity": "PLAYING" }
	},
	"request": {
		"type": "LaunchRequest",
		"requestId": "r1",
		"timestamp": "2020-01-01T00:00:00Z",
		"locale": "en-US"
	}
}"#;
    let req = Request::decode(text).unwrap();
    let player = req.context.audio_player.expect("audio player");
    assert_eq!(player.offset_in_milliseconds, 5000);
    assert_eq!(player.player_activity, "PLAYING");
}

#[test]
fn test_fractional_offset_fails() {
    let text = r#"{
	"version": "1.0",
	"context": {
		"System": { "apiAccessToken": "t" },
		"AudioPlayer": { "token": "tk", "offsetInMilliseconds": 1.5, "playerActivity": "PLAYING" }
	},
	"request": {
		"type": "LaunchRequest",
		"requestId": "r1",
		"timestamp": "2020-01-01T00:00:00Z",
		"locale": "en-US"
	}
}"#;
    match Request::decode(text) {
        Err(DecodeError::Invalid) => {}
        other => panic!("expected an invalid-schema error, got {:?}", other),
    }
}

#[test]
fn test_from_json_tree() {
    let j = Json::Obj(vec![
        (String::from("version"), Json::Str(String::from("1.0"))),
        (
            String::from("context"),
            Json::Obj(vec![(
                String::from("System"),
                Json::Obj(vec![(
                    String::from("apiAccessToken"),
                    Json::Str(String::from("t")),
                )]),
            )]),
        ),
        (
            String::from("request"),
            Json::Obj(vec![
                (String::from("type"), Json::Str(String::from("LaunchRequest"))),
                (String::from("requestId"), Json::Str(String::from("r9"))),
                (
                    String::from("timestamp"),
                    Json::Str(String::from("2020-01-01T00:00:00Z")),
                ),
                (String::from("locale"), Json::Str(String::from("ja-JP"))),
            ]),
        ),
    ]);
    let req = Request::from_json(&j).unwrap();
    assert_eq!(req.body.request_id, "r9");
    assert_eq!(req.locale(), Locale::Japanese);
    assert!(!req.locale().is_english());
}

#[test]
fn test_float_in_optional_field_fails() {
    let text = r#"{
	"version": "1.0",
	"context": { "System": { "apiAccessToken": "t" } },
	"request": {
		"type": "SessionEndedRequest",
		"requestId": "r1",
		"timestamp": "2020-01-01T00:00:00Z",
		"locale": "en-US",
		"reason": 1.5
	}
}"#;
    match Request::decode(text) {
        Err(DecodeError::Invalid) => {}
        other => panic!("expected an invalid-schema error, got {:?}", other),
    }
}

#[test]
fn test_float_in_optional_object_fails() {
    let text = r#"{
	"version": "1.0",
	"session": -2.75,
	"context": { "System": { "apiAccessToken": "t" } },
	"request": {
		"type": "LaunchRequest",
		"requestId": "r1",
		"timestamp": "2020-01-01T00:00:00Z",
		"locale": "en-US"
	}
}"#;
    match Request::decode(text) {
        Err(DecodeError::Invalid) => {}
        other => panic!("expected an invalid-schema error, got {:?}", other),
    }
}
