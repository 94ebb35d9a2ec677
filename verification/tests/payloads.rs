use george_ai::daemon::Daemon;
use george_ai::daemon::click_outcome;
use george_ai::daemon::existence_request_outcome;
use george_ai::daemon::find_request_outcome;
use george_ai::daemon::first_choice_content;
use george_ai::daemon::health_outcome;
use george_ai::daemon::screenshot_outcome;
use george_ai::daemon::type_text_outcome;
use george_ai::errors::DaemonError;
use george_ai::payload::bearer_header;
use george_ai::payload::click_request_body;
use george_ai::payload::type_request_body;
use george_ai::payload::vision_endpoint;
use george_ai::payload::vision_request_body;
use george_ai::vision::build_vision_request;
use george_ai::vision::screenshot_dimensions;

#[test]
fn click_body_is_exact_json() {
    assert_eq!(click_request_body(512, 384), "{\"x\":512,\"y\":384}");
    assert_eq!(click_request_body(0, 0), "{\"x\":0,\"y\":0}");
}

#[test]
fn type_body_escapes_its_text() {
    assert_eq!(type_request_body("Ada Lovelace"), "{\"text\":\"Ada Lovelace\"}");
    assert_eq!(
        type_request_body("a \"quoted\" back\\slash\nline"),
        "{\"text\":\"a \\\"quoted\\\" back\\\\slash\\nline\"}"
    );
    assert_eq!(
        type_request_body("bell\u{7} tab\t"),
        "{\"text\":\"bell\\u0007 tab\\t\"}"
    );
}

#[test]
fn vision_body_embeds_prompt_and_image() {
    let body = vision_request_body("find the button", "AQID");
    let expected = "{\"model\":\"allenai/Molmo-7B-D-0924\",\"messages\":[{\"role\":\"user\",\"content\":[{\"type\":\"text\",\"text\":\"find the button\"},{\"type\":\"image_url\",\"image_url\":{\"url\":\"data:image/jpeg;base64,AQID\"}}]}],\"temperature\":0,\"top_k\":1}";
    assert_eq!(body, expected);
}

#[test]
fn vision_request_uses_real_base64() {
    // the standard encoding of [1, 2, 3] is AQID; a wrapper handing its
    // input back unchanged would not produce it
    let body = build_vision_request("p", &vec![1u8, 2, 3]);
    assert!(body.contains("data:image/jpeg;base64,AQID\""));
}

#[test]
fn screenshot_dimensions_come_from_the_png() {
    let mut png: Vec<u8> = Vec::new();
    let img = image::RgbaImage::new(3, 2);
    img.write_to(&mut std::io::Cursor::new(&mut png), image::ImageFormat::Png)
        .unwrap();
    assert_eq!(screenshot_dimensions(&png).unwrap(), (3, 2));

    let garbage = vec![1u8, 2, 3, 4];
    assert!(matches!(
        screenshot_dimensions(&garbage),
        Err(DaemonError::ImageDecodingError(_))
    ));
}

#[test]
fn urls_and_headers_are_exact() {
    let mut daemon = Daemon::new("https://llm.example");
    assert!(matches!(
        daemon.build_url("click"),
        Err(DaemonError::NotStarted)
    ));
    daemon.set_port("8080".to_string());
    assert_eq!(daemon.build_url("click").unwrap(), "http://127.0.0.1:8080/click");
    assert_eq!(
        vision_endpoint("https://llm.example"),
        "https://llm.example/v1/chat/completions"
    );
    assert_eq!(bearer_header("secret"), "Bearer secret");
}

#[test]
fn coordinate_prompt_appends_the_selector() {
    let daemon = Daemon::new("https://llm.example");
    let prompt = daemon.coordinate_prompt_for("blue submit button");
    assert!(prompt.ends_with(" blue submit button"));
    assert!(prompt.starts_with("You are a helpful assistant"));
}

#[test]
fn response_outcomes_follow_the_status() {
    assert!(screenshot_outcome(200, vec![9, 9], "ok").is_ok());
    match screenshot_outcome(500, vec![], "boom") {
        Err(DaemonError::ScreenshotFailed(m)) => {
            assert_eq!(m, "Failed to retrieve screenshot. Status: 500, Body: boom");
        }
        _ => panic!("expected ScreenshotFailed"),
    }
    match click_outcome(404, "missing") {
        Err(DaemonError::Unexpected(m)) => {
            assert_eq!(m, "Failed to send click: Status: 404, Body: missing");
        }
        _ => panic!("expected Unexpected"),
    }
    assert!(click_outcome(204, "").is_ok());
    match type_text_outcome(418, "teapot") {
        Err(DaemonError::Unexpected(m)) => {
            assert_eq!(m, "Failed to send text: Status: 418, Body: teapot");
        }
        _ => panic!("expected Unexpected"),
    }
    assert!(type_text_outcome(200, "").is_ok());
    assert!(health_outcome(200).is_ok());
    assert!(matches!(health_outcome(503), Err(DaemonError::Unexpected(_))));
    assert!(find_request_outcome(200).is_ok());
    assert!(matches!(
        find_request_outcome(500),
        Err(DaemonError::Unexpected(_))
    ));
    assert!(existence_request_outcome(200).is_ok());
    assert!(matches!(
        existence_request_outcome(500),
        Err(DaemonError::Unexpected(_))
    ));
}

#[test]
fn first_choice_is_taken_and_no_choices_is_fatal() {
    let contents = vec!["the answer".to_string(), "ignored".to_string()];
    assert_eq!(first_choice_content(contents, "p").unwrap(), "the answer");
    match first_choice_content(Vec::new(), "find the button") {
        Err(DaemonError::Unexpected(m)) => {
            assert_eq!(m, "No choices in response. Prompt: find the button");
        }
        _ => panic!("expected Unexpected"),
    }
}
