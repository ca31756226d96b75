//! Parser behavior: leniency, trimming, precedence, and the validation
//! errors for every required field and for the port.

use config_generator::parse::{parse_authn_file, parse_settings, Field, ParseError};

fn full_input_without(missing: &str) -> String {
    let lines = [
        "GOOGLE_OAUTH_CLIENT_ID=id",
        "GOOGLE_OAUTH_CLIENT_SECRET=cs",
        "EMAIL_SMTP_HOST=host",
        "EMAIL_SMTP_PORT=25",
        "EMAIL_SMTP_USERNAME=user",
        "EMAIL_SMTP_PASSWORD=pw",
        "EMAIL_SENDER_NAME=name",
        "EMAIL_SENDER_ADDRESS=addr",
    ];
    let mut out = String::new();
    for line in lines {
        if !line.starts_with(missing) {
            out.push_str(line);
            out.push('\n');
        }
    }
    out
}

#[test]
fn each_missing_field_is_named() {
    let cases = [
        ("GOOGLE_OAUTH_CLIENT_ID=", Field::ClientId),
        ("GOOGLE_OAUTH_CLIENT_SECRET=", Field::ClientSecret),
        ("EMAIL_SMTP_HOST=", Field::SmtpHost),
        ("EMAIL_SMTP_PORT=", Field::SmtpPort),
        ("EMAIL_SMTP_USERNAME=", Field::SmtpUsername),
        ("EMAIL_SMTP_PASSWORD=", Field::SmtpPassword),
        ("EMAIL_SENDER_NAME=", Field::SenderName),
        ("EMAIL_SENDER_ADDRESS=", Field::SenderAddress),
    ];
    for (prefix, field) in cases {
        let input = full_input_without(prefix);
        let err = parse_authn_file(&input).unwrap_err();
        assert_eq!(err, ParseError::MissingField(field));
        let msg = err.message();
        assert!(msg.contains(field.name()));
        assert!(msg.ends_with("not found in authn file"));
    }
}

#[test]
fn complete_input_is_accepted() {
    assert!(parse_authn_file(&full_input_without("NONE")).is_ok());
}

#[test]
fn port_must_be_numeric() {
    let input = full_input_without("EMAIL_SMTP_PORT=") + "EMAIL_SMTP_PORT=smtp\n";
    let err = parse_authn_file(&input).unwrap_err();
    assert_eq!(err, ParseError::InvalidPort);
    assert_eq!(err.message(), "Error: EMAIL_SMTP_PORT must be a valid number");
}

#[test]
fn port_must_be_in_range() {
    let input = full_input_without("EMAIL_SMTP_PORT=") + "EMAIL_SMTP_PORT=65536\n";
    assert_eq!(parse_authn_file(&input).unwrap_err(), ParseError::InvalidPort);
}

#[test]
fn port_boundaries() {
    let base = full_input_without("EMAIL_SMTP_PORT=");
    let max = base.clone() + "EMAIL_SMTP_PORT=65535\n";
    assert_eq!(parse_authn_file(&max).unwrap().email.unwrap().smtp_port, 65535);
    let zero = base.clone() + "EMAIL_SMTP_PORT=0\n";
    assert_eq!(parse_authn_file(&zero).unwrap().email.unwrap().smtp_port, 0);
    let plus = base.clone() + "EMAIL_SMTP_PORT=+465\n";
    assert_eq!(parse_authn_file(&plus).unwrap().email.unwrap().smtp_port, 465);
    let empty = base + "EMAIL_SMTP_PORT=\n";
    assert_eq!(parse_authn_file(&empty).unwrap_err(), ParseError::InvalidPort);
}

#[test]
fn comments_blanks_and_stray_lines_ignored() {
    let input = "# leading comment\n\n   \n\
GOOGLE_OAUTH_CLIENT_ID=abc\n\
this line has no separator\n\
   # indented comment\n\
GOOGLE_OAUTH_CLIENT_SECRET=xyz\n";
    let d = parse_settings(input, false).unwrap();
    assert_eq!(d.client_id, "abc");
    assert_eq!(d.client_secret, "xyz");
}

#[test]
fn whitespace_around_key_and_value_trimmed() {
    let input = "  GOOGLE_OAUTH_CLIENT_ID  =  abc  \nGOOGLE_OAUTH_CLIENT_SECRET=xyz\n";
    let d = parse_settings(input, false).unwrap();
    assert_eq!(d.client_id, "abc");
}

#[test]
fn value_may_contain_separator() {
    let input = "GOOGLE_OAUTH_CLIENT_ID=a=b=c\nGOOGLE_OAUTH_CLIENT_SECRET=s\n";
    let d = parse_settings(input, false).unwrap();
    assert_eq!(d.client_id, "a=b=c");
}

#[test]
fn last_occurrence_wins() {
    let input =
        "GOOGLE_OAUTH_CLIENT_ID=first\nGOOGLE_OAUTH_CLIENT_ID=second\nGOOGLE_OAUTH_CLIENT_SECRET=s\n";
    let d = parse_settings(input, false).unwrap();
    assert_eq!(d.client_id, "second");
}

#[test]
fn unknown_keys_ignored() {
    let input = "SOME_OTHER_KEY=1\nGOOGLE_OAUTH_CLIENT_ID=abc\nGOOGLE_OAUTH_CLIENT_SECRET=xyz\n";
    assert!(parse_settings(input, false).is_ok());
}

#[test]
fn email_fields_ignored_when_group_inactive() {
    let input = "GOOGLE_OAUTH_CLIENT_ID=abc\nGOOGLE_OAUTH_CLIENT_SECRET=xyz\nEMAIL_SMTP_HOST=h\n";
    let d = parse_settings(input, false).unwrap();
    assert!(d.email.is_none());
}

#[test]
fn empty_input_names_first_missing_field() {
    let err = parse_settings("", false).unwrap_err();
    assert_eq!(err, ParseError::MissingField(Field::ClientId));
    let err = parse_settings("   \n# only a comment\n", true).unwrap_err();
    assert_eq!(err, ParseError::MissingField(Field::ClientId));
}

#[test]
fn crlf_line_endings_accepted() {
    let input = "GOOGLE_OAUTH_CLIENT_ID=abc\r\nGOOGLE_OAUTH_CLIENT_SECRET=xyz\r\n";
    let d = parse_settings(input, false).unwrap();
    assert_eq!(d.client_id, "abc");
    assert_eq!(d.client_secret, "xyz");
}
