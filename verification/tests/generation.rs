//! End-to-end scenarios: parsing, materializing and vault emission over
//! concrete inputs.

use config_generator::generate_documents;
use config_generator::parse::{parse_authn_file, parse_settings, Field, ParseError};
use config_generator::template::materialize_template;
use config_generator::vault::{generate_vault_file, vault_document};

const FULL_AUTHN: &str = "GOOGLE_OAUTH_CLIENT_ID=my-client-id\n\
GOOGLE_OAUTH_CLIENT_SECRET=super-secret\n\
EMAIL_SMTP_HOST=smtp.example.com\n\
EMAIL_SMTP_PORT=587\n\
EMAIL_SMTP_USERNAME=mailer\n\
EMAIL_SMTP_PASSWORD=mail-secret\n\
EMAIL_SENDER_NAME=Example\n\
EMAIL_SENDER_ADDRESS=noreply@example.com\n";

#[test]
fn oauth_only_scenario() {
    let authn = "GOOGLE_OAUTH_CLIENT_ID=abc\nGOOGLE_OAUTH_CLIENT_SECRET=xyz\n";
    let template = "provider {\n  client_id: \"<REDACTED>\"\n  client_secret: \"<REDACTED>\"\n}\n";
    let (config, vault) = generate_documents(template, authn, false).unwrap();
    assert!(config.contains("client_id: \"abc\""));
    assert!(!config.contains("client_id: \"<REDACTED>\""));
    assert!(vault.contains("TRAIL_AUTH_OAUTH_PROVIDERS_GOOGLE_CLIENT_SECRET"));
    assert!(vault.contains("xyz"));
    assert!(!vault.contains("abc"));
    assert_eq!(
        vault,
        "# Auto-generated config.Vault textproto\n\
         secrets {\n  key: \"TRAIL_AUTH_OAUTH_PROVIDERS_GOOGLE_CLIENT_SECRET\"\n  value: \"xyz\"\n}\n"
    );
}

#[test]
fn missing_client_id_rejected() {
    let authn = "GOOGLE_OAUTH_CLIENT_SECRET=xyz\n";
    let err = parse_settings(authn, false).unwrap_err();
    assert_eq!(err, ParseError::MissingField(Field::ClientId));
    assert_eq!(
        err.message(),
        "Error: GOOGLE_OAUTH_CLIENT_ID not found in authn file"
    );
    assert!(generate_documents("client_id: \"<REDACTED>\"", authn, false).is_err());
}

#[test]
fn full_record_parses() {
    let d = parse_authn_file(FULL_AUTHN).unwrap();
    assert_eq!(d.client_id, "my-client-id");
    assert_eq!(d.client_secret, "super-secret");
    let e = d.email.as_ref().unwrap();
    assert_eq!(e.smtp_host, "smtp.example.com");
    assert_eq!(e.smtp_port, 587);
    assert_eq!(e.smtp_username, "mailer");
    assert_eq!(e.smtp_password, "mail-secret");
    assert_eq!(e.sender_name, "Example");
    assert_eq!(e.sender_address, "noreply@example.com");
}

#[test]
fn email_block_expanded() {
    let d = parse_authn_file(FULL_AUTHN).unwrap();
    let template = "client_id: \"<REDACTED>\"\nemail {}\n";
    let config = materialize_template(template, &d);
    assert_eq!(
        config,
        "client_id: \"my-client-id\"\n\
         email {\n  smtp_host: \"smtp.example.com\"\n  smtp_port: 587\n  \
         smtp_username: \"mailer\"\n  smtp_password: \"<REDACTED>\"\n  \
         sender_name: \"Example\"\n  sender_address: \"noreply@example.com\"\n}\n"
    );
    assert!(!config.contains("mail-secret"));
    assert!(!config.contains("super-secret"));
}

#[test]
fn vault_has_exactly_the_secrets() {
    let d = parse_authn_file(FULL_AUTHN).unwrap();
    let vault = vault_document(&d);
    assert_eq!(
        vault,
        "# Auto-generated config.Vault textproto\n\
         secrets {\n  key: \"TRAIL_AUTH_OAUTH_PROVIDERS_GOOGLE_CLIENT_SECRET\"\n  value: \"super-secret\"\n}\n\
         secrets {\n  key: \"TRAIL_EMAIL_SMTP_PASSWORD\"\n  value: \"mail-secret\"\n}\n"
    );
    assert!(!vault.contains("my-client-id"));
    assert!(!vault.contains("smtp.example.com"));
    assert!(!vault.contains("mailer"));
}

#[test]
fn generate_vault_file_both_entries() {
    let vault = generate_vault_file("s1", "s2");
    assert_eq!(
        vault,
        "# Auto-generated config.Vault textproto\n\
         secrets {\n  key: \"TRAIL_AUTH_OAUTH_PROVIDERS_GOOGLE_CLIENT_SECRET\"\n  value: \"s1\"\n}\n\
         secrets {\n  key: \"TRAIL_EMAIL_SMTP_PASSWORD\"\n  value: \"s2\"\n}\n"
    );
}

#[test]
fn generation_is_idempotent() {
    let template = "client_id: \"<REDACTED>\"\nemail {}\n";
    let first = generate_documents(template, FULL_AUTHN, true).unwrap();
    let second = generate_documents(template, FULL_AUTHN, true).unwrap();
    assert_eq!(first.0, second.0);
    assert_eq!(first.1, second.1);
}

#[test]
fn unmatched_template_passes_through() {
    let authn = "GOOGLE_OAUTH_CLIENT_ID=abc\nGOOGLE_OAUTH_CLIENT_SECRET=xyz\n";
    let d = parse_settings(authn, false).unwrap();
    let template = "name: \"server\"\nport: 4000\n";
    assert_eq!(materialize_template(template, &d), template);
}
