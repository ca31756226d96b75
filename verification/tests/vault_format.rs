//! Vault rendering details: escaping of secret values and the
//! generated-file header.

use config_generator::vault::generate_vault_file;

#[test]
fn header_line_first() {
    let vault = generate_vault_file("a", "b");
    assert!(vault.starts_with("# Auto-generated config.Vault textproto\n"));
}

#[test]
fn quotes_and_backslashes_escaped() {
    let vault = generate_vault_file("pa\"ss", "with\\slash");
    assert!(vault.contains("value: \"pa\\\"ss\""));
    assert!(vault.contains("value: \"with\\\\slash\""));
}

#[test]
fn control_characters_escaped() {
    let vault = generate_vault_file("line\nbreak", "tab\there\rreturn");
    assert!(vault.contains("value: \"line\\nbreak\""));
    assert!(vault.contains("value: \"tab\\there\\rreturn\""));
}

#[test]
fn plain_value_unchanged() {
    let vault = generate_vault_file("plain-value_123", "x");
    assert!(vault.contains("value: \"plain-value_123\""));
}
