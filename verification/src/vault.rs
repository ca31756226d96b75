//! Vault emitter: produces the secrets document from the settings record.
//! Every secret-classified field present in the record — and nothing else —
//! is written as a mapping entry from its fixed, stable secret identifier to
//! its literal value, rendered as a pretty-printed structured-text message
//! under a generated-file comment line. Entries are emitted in a fixed
//! order, so the output is deterministic.

use vstd::prelude::*;
use crate::parse::{AuthnData, SettingsView};
use crate::text::{from_chars, append_str, to_chars};

verus! {

/// The stable identifier the OAuth client secret is vaulted under.
pub open spec fn oauth_secret_id() -> Seq<char> {
    "TRAIL_AUTH_OAUTH_PROVIDERS_GOOGLE_CLIENT_SECRET"@
}

/// The stable identifier the e-mail password is vaulted under.
pub open spec fn email_password_id() -> Seq<char> {
    "TRAIL_EMAIL_SMTP_PASSWORD"@
}

/// The generated-file comment line opening the vault document.
pub open spec fn vault_preface() -> Seq<char> {
    "# Auto-generated config.Vault textproto"@
}

/// Structured-text escape of one character inside a quoted string: backslash,
/// quote, newline, carriage return and tab are escaped; every other
/// character stands for itself.
pub open spec fn esc_char(c: char) -> Seq<char> {
    if c == '\\' {
        seq!['\\', '\\']
    } else if c == '"' {
        seq!['\\', '"']
    } else if c == '\n' {
        seq!['\\', 'n']
    } else if c == '\r' {
        seq!['\\', 'r']
    } else if c == '\t' {
        seq!['\\', 't']
    } else {
        seq![c]
    }
}

/// Structured-text escape of a whole string.
pub open spec fn spec_escape(s: Seq<char>) -> Seq<char>
    decreases s.len(),
{
    if s.len() == 0 {
        Seq::empty()
    } else {
        spec_escape(s.drop_last()) + esc_char(s.last())
    }
}

/// One vault mapping entry, rendered: the identifier as the entry's key and
/// the escaped secret value as its value.
pub open spec fn entry_text(k: Seq<char>, v: Seq<char>) -> Seq<char> {
    "secrets {\n  key: \""@ + k + "\"\n  value: \""@ + spec_escape(v) + "\"\n}\n"@
}

/// The vault's entries: one per secret-classified field present in the
/// record — the OAuth client secret always, the e-mail password exactly when
/// the e-mail group is present.
pub open spec fn vault_entries(d: SettingsView) -> Seq<(Seq<char>, Seq<char>)> {
    match d.email {
        Some(e) => seq![
            (oauth_secret_id(), d.client_secret),
            (email_password_id(), e.smtp_password),
        ],
        None => seq![(oauth_secret_id(), d.client_secret)],
    }
}

/// Entry list, rendered in order.
pub open spec fn render_entries(entries: Seq<(Seq<char>, Seq<char>)>) -> Seq<char>
    decreases entries.len(),
{
    if entries.len() == 0 {
        Seq::empty()
    } else {
        entry_text(entries[0].0, entries[0].1) + render_entries(entries.drop_first())
    }
}

/// The full vault document: the generated-file comment line, a newline, and
/// the rendered entries.
pub open spec fn spec_vault_doc(d: SettingsView) -> Seq<char> {
    vault_preface() + "\n"@ + render_entries(vault_entries(d))
}

/// Appends the escaped characters of `s` to `out`.
fn append_escaped(out: &mut Vec<char>, s: &str)
    ensures
        final(out)@ == old(out)@ + spec_escape(s@),
{
    let cs = to_chars(s);
    let mut k: usize = 0;
    while k < cs.len()
        invariant
            cs@ == s@,
            k <= cs@.len(),
            out@ == old(out)@ + spec_escape(cs@.take(k as int)),
        decreases cs@.len() - k,
    {
        let ghost pre = out@;
        let c = cs[k];
        if c == '\\' {
            out.push('\\');
            out.push('\\');
        } else if c == '"' {
            out.push('\\');
            out.push('"');
        } else if c == '\n' {
            out.push('\\');
            out.push('n');
        } else if c == '\r' {
            out.push('\\');
            out.push('r');
        } else if c == '\t' {
            out.push('\\');
            out.push('t');
        } else {
            out.push(c);
        }
        proof {
            assert(cs@.take(k + 1 as int).drop_last() =~= cs@.take(k as int));
            assert(cs@.take(k + 1 as int).last() == cs@[k as int]);
            assert(out@ =~= pre + esc_char(cs@[k as int]));
        }
        k = k + 1;
    }
    proof {
        assert(cs@.take(cs@.len() as int) =~= cs@);
    }
}

/// Appends one rendered vault entry to `out`.
fn append_entry(out: &mut Vec<char>, key: &str, value: &str)
    ensures
        final(out)@ == old(out)@ + entry_text(key@, value@),
{
    append_str(out, "secrets {\n  key: \"");
    append_str(out, key);
    append_str(out, "\"\n  value: \"");
    append_escaped(out, value);
    append_str(out, "\"\n}\n");
    proof {
        assert(out@ =~= old(out)@ + entry_text(key@, value@));
    }
}

/// Builds the vault document of the richest variant, holding the OAuth
/// client secret and the e-mail password under their stable identifiers.
pub fn generate_vault_file(client_secret: &str, email_password: &str) -> (r: String)
    ensures
        r@ == vault_preface() + "\n"@ + entry_text(oauth_secret_id(), client_secret@)
            + entry_text(email_password_id(), email_password@),
{
    let mut out: Vec<char> = Vec::new();
    append_str(&mut out, "# Auto-generated config.Vault textproto");
    append_str(&mut out, "\n");
    append_entry(&mut out, "TRAIL_AUTH_OAUTH_PROVIDERS_GOOGLE_CLIENT_SECRET", client_secret);
    append_entry(&mut out, "TRAIL_EMAIL_SMTP_PASSWORD", email_password);
    proof {
        assert(out@ =~= vault_preface() + "\n"@ + entry_text(oauth_secret_id(), client_secret@)
            + entry_text(email_password_id(), email_password@));
    }
    from_chars(&out)
}

/// Builds the vault document for the record: one entry per secret field
/// present, as `spec_vault_doc` says.
pub fn vault_document(d: &AuthnData) -> (r: String)
    ensures
        r@ == spec_vault_doc(d@),
{
    match &d.email {
        Some(e) => {
            let r = generate_vault_file(d.client_secret.as_str(), e.smtp_password.as_str());
            proof {
                let entries = vault_entries(d@);
                let rest = entries.drop_first();
                assert(rest.drop_first() =~= Seq::<(Seq<char>, Seq<char>)>::empty());
                assert(render_entries(rest.drop_first()) == Seq::<char>::empty());
                assert(render_entries(rest) == entry_text(rest[0].0, rest[0].1)
                    + render_entries(rest.drop_first()));
                assert(render_entries(rest) =~= entry_text(
                    email_password_id(),
                    e@.smtp_password,
                ));
                assert(render_entries(entries) == entry_text(entries[0].0, entries[0].1)
                    + render_entries(rest));
                assert(r@ =~= spec_vault_doc(d@));
            }
            r
        },
        None => {
            let mut out: Vec<char> = Vec::new();
            append_str(&mut out, "# Auto-generated config.Vault textproto");
            append_str(&mut out, "\n");
            append_entry(
                &mut out,
                "TRAIL_AUTH_OAUTH_PROVIDERS_GOOGLE_CLIENT_SECRET",
                d.client_secret.as_str(),
            );
            proof {
                let entries = vault_entries(d@);
                assert(entries.drop_first() =~= Seq::<(Seq<char>, Seq<char>)>::empty());
                assert(render_entries(entries.drop_first()) == Seq::<char>::empty());
                assert(render_entries(entries) == entry_text(entries[0].0, entries[0].1)
                    + render_entries(entries.drop_first()));
                assert(render_entries(entries) =~= entry_text(
                    oauth_secret_id(),
                    d@.client_secret,
                ));
                assert(out@ =~= spec_vault_doc(d@));
            }
            from_chars(&out)
        },
    }
}

/// The set of identifiers the vault document is keyed by.
pub open spec fn vault_key_set(d: SettingsView) -> Set<Seq<char>> {
    vault_entries(d).map_values(|kv: (Seq<char>, Seq<char>)| kv.0).to_set()
}

/// Vault completeness and exclusivity: the vault's key set equals exactly
/// the set of secret identifiers active for the record's field-group shape —
/// no missing keys, no extra keys — and the entries' values are exactly the
/// record's secret-classified field values, so no public field reaches the
/// vault.
pub proof fn lemma_vault_complete_and_exclusive(d: SettingsView)
    ensures
        d.email is Some ==> vault_key_set(d) =~= set![oauth_secret_id(), email_password_id()],
        d.email is None ==> vault_key_set(d) =~= set![oauth_secret_id()],
        vault_entries(d)[0] == (oauth_secret_id(), d.client_secret),
        d.email matches Some(e) ==> vault_entries(d)[1] == (email_password_id(), e.smtp_password),
        vault_entries(d).len() == 1 + (if d.email is Some {
            1int
        } else {
            0int
        }),
{
    let mapped = vault_entries(d).map_values(|kv: (Seq<char>, Seq<char>)| kv.0);
    match d.email {
        Some(e) => {
            assert(mapped.len() == 2);
            assert(mapped[0] == oauth_secret_id());
            assert(mapped[1] == email_password_id());
            assert forall|x: Seq<char>| vault_key_set(d).contains(x) implies (x
                == oauth_secret_id() || x == email_password_id()) by {
                let i = choose|i: int| 0 <= i < mapped.len() && mapped[i] == x;
            }
            assert(mapped.contains(oauth_secret_id()));
            assert(mapped.contains(email_password_id()));
        },
        None => {
            assert(mapped.len() == 1);
            assert(mapped[0] == oauth_secret_id());
            assert forall|x: Seq<char>| vault_key_set(d).contains(x) implies x
                == oauth_secret_id() by {
                let i = choose|i: int| 0 <= i < mapped.len() && mapped[i] == x;
            }
            assert(mapped.contains(oauth_secret_id()));
        },
    }
}

/// The vault document is a function of the record's secret fields alone: two
/// records with the same secrets — whatever their public fields hold —
/// produce the same vault document, so no public value can reach it.
pub proof fn lemma_vault_free_of_publics(d1: SettingsView, d2: SettingsView)
    requires
        d1.client_secret == d2.client_secret,
        match (d1.email, d2.email) {
            (None, None) => true,
            (Some(e1), Some(e2)) => e1.smtp_password == e2.smtp_password,
            _ => false,
        },
    ensures
        spec_vault_doc(d1) == spec_vault_doc(d2),
{
    assert(vault_entries(d1) =~= vault_entries(d2));
}

} // verus!
