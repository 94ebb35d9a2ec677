use george_ai::daemon::Daemon;
use george_ai::errors::DaemonError;

#[test]
fn test_parse_coordinates() {
    let daemon = Daemon::new("https://doesnotmatter.com");
    let input = r#"<points x1="0.6" y1="13.0" x2="104.7" y2="12.8" alt="the point coordinate of the sign up name input field">the point coordinate of the sign up name input field</points>"#;
    let result = daemon.parse_coordinates(input).unwrap();
    // the first in-range match wins: (0.6, 13.0)
    assert_eq!(result.0.digits, vec![0u8, 6]);
    assert_eq!(result.0.scale, 1);
    assert_eq!(result.1.digits, vec![1u8, 3, 0]);
    assert_eq!(result.1.scale, 1);
}

#[test]
fn test_parse_coordinates_in_parens() {
    let daemon = Daemon::new("https://doesnotmatter.com");
    let input = r#"The center of the name input field is at coordinates (10.9, 14.1) in the image. This point represents the midpoint of the horizontal rectangle that contains the input field for the user's name.""#;
    let result = daemon.parse_coordinates(input).unwrap();
    // (10.9, 14.1) via the pair strategy
    assert_eq!(result.0.digits, vec![1u8, 0, 9]);
    assert_eq!(result.0.scale, 1);
    assert_eq!(result.1.digits, vec![1u8, 4, 1]);
    assert_eq!(result.1.scale, 1);
}

#[test]
fn test_parse_the_visible_text() {
    let daemon = Daemon::new("https://doesnotmatter.com");
    let input = r#" Here's an array list containing all the text visible on the screen:\n\n[\n  \"host.docker.internal:3001\",\n  \"Firefox Privacy Notice\",\n  \"End-to-End Test\",\n  \"Name\",\n  \"Phone\",\n  \"Email\",\n  \"First Programmer\",\n  \"Analytical Engine\",\n  \"Programming\",\n  \"Submit\"\n]\n\nThis list includes all the text elements present in the browser tab, address bar, form fields, and buttons visible in the image."#;
    let result = daemon.parse_visible_text(input).unwrap();
    assert_eq!(
        result,
        vec![
            "host.docker.internal:3001",
            "Firefox Privacy Notice",
            "End-to-End Test",
            "Name",
            "Phone",
            "Email",
            "First Programmer",
            "Analytical Engine",
            "Programming",
            "Submit"
        ]
    );
}

#[test]
fn out_of_range_candidates_are_excluded() {
    let daemon = Daemon::new("https://doesnotmatter.com");
    // well-formed markup, but one component above 100 in each candidate
    let input = r#"x1="104.7" y1="12.8" and also (250.0, 3.5) and (7, 101)"#;
    let result = daemon.parse_coordinates(input);
    match result {
        Err(DaemonError::FailedToParseCoordinates(raw)) => {
            assert_eq!(raw, input);
        }
        _ => panic!("expected FailedToParseCoordinates"),
    }
}

#[test]
fn attribute_strategy_takes_precedence_over_pairs() {
    let daemon = Daemon::new("https://doesnotmatter.com");
    let input = r#"pair (1.5, 2.5) before markup x="30" y="40""#;
    let result = daemon.parse_coordinates(input).unwrap();
    // the attribute candidate wins although a pair occurs earlier
    assert_eq!(result.0.digits, vec![3u8, 0]);
    assert_eq!(result.0.scale, 0);
    assert_eq!(result.1.digits, vec![4u8, 0]);
    assert_eq!(result.1.scale, 0);
}

#[test]
fn visible_text_in_order_and_empty_is_an_error() {
    let daemon = Daemon::new("https://doesnotmatter.com");
    let result = daemon.parse_visible_text(r#""A", "B", "C""#).unwrap();
    assert_eq!(result, vec!["A", "B", "C"]);

    let none = daemon.parse_visible_text("no quotes anywhere");
    assert!(matches!(
        none,
        Err(DaemonError::FailedToParseExistence(_))
    ));
}

#[test]
fn visible_text_pipeline_trims_and_lowercases() {
    let daemon = Daemon::new("https://doesnotmatter.com");
    let result = daemon
        .visible_text_from_content("  \"Hello World\", \"SUBMIT\"  ")
        .unwrap();
    assert_eq!(result, vec!["hello world", "submit"]);
}

#[test]
fn quoted_fragment_never_spans_a_line_break() {
    let daemon = Daemon::new("https://doesnotmatter.com");
    let result = daemon
        .parse_visible_text("\"broken\nquote\" then \"whole\"")
        .unwrap();
    // the first quote finds no partner on its line, so the pair that
    // matches is the one around ` then `
    assert_eq!(result, vec![" then "]);
}

#[test]
fn trailing_escape_is_trimmed_from_fragments() {
    let daemon = Daemon::new("https://doesnotmatter.com");
    let result = daemon.parse_visible_text(r#"\"Name\", \"Phone\""#).unwrap();
    assert_eq!(result, vec!["Name", "Phone"]);
}

#[test]
fn is_text_visible_is_case_insensitive() {
    let daemon = Daemon::new("https://doesnotmatter.com");
    let visible = vec!["Hello World".to_string(), "Submit".to_string()];
    assert!(daemon.is_text_visible(&visible, "hELLo wORLD"));
    assert!(daemon.is_text_visible(&visible, "submit"));
    assert!(!daemon.is_text_visible(&visible, "absent"));
}
