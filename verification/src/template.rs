//! Template materializer: produces the public configuration text from the
//! template and the settings record. Public fields are substituted with
//! their literal values; secret fields are never written — the client secret
//! stays behind the fixed redaction marker of the template, and the expanded
//! e-mail block carries the marker in place of the password.

use vstd::prelude::*;
use crate::parse::{AuthnData, SettingsView, EmailView};
use crate::replace::{
    spec_replace_all, replace_all, contains_seq, match_at, lemma_replace_absent,
    lemma_replace_first, lemma_first_occurrence, lemma_contains_mid, lemma_contains_trans,
};
use crate::text::{to_chars, from_chars, append_str, append_chars};

verus! {

/// The fixed redaction marker: wherever a secret would appear in the public
/// document, this string stands instead.
pub open spec fn redaction_marker() -> Seq<char> {
    "<REDACTED>"@
}

/// The template pattern binding the OAuth client identifier: the structured
/// field assignment with the redaction marker as its value.
pub open spec fn cid_pattern() -> Seq<char> {
    "client_id: \"<REDACTED>\""@
}

/// The same structural pattern with the real client identifier substituted
/// for the marker; the enclosing syntax is preserved verbatim.
pub open spec fn cid_binding(v: Seq<char>) -> Seq<char> {
    "client_id: \""@ + v + "\""@
}

/// The empty-block marker that the e-mail section expands from.
pub open spec fn email_marker() -> Seq<char> {
    "email {}"@
}

/// Decimal digit character.
pub open spec fn digit_char(d: nat) -> char {
    if d == 0 {
        '0'
    } else if d == 1 {
        '1'
    } else if d == 2 {
        '2'
    } else if d == 3 {
        '3'
    } else if d == 4 {
        '4'
    } else if d == 5 {
        '5'
    } else if d == 6 {
        '6'
    } else if d == 7 {
        '7'
    } else if d == 8 {
        '8'
    } else {
        '9'
    }
}

/// Decimal rendering of `n`, most significant digit first, no leading zeros.
pub open spec fn dec_digits(n: nat) -> Seq<char>
    decreases n,
{
    if n < 10 {
        seq![digit_char(n)]
    } else {
        dec_digits(n / 10).push(digit_char(n % 10))
    }
}

/// Decimal digit character of `d`.
fn digit_char_exec(d: u16) -> (c: char)
    requires
        d < 10,
    ensures
        c == digit_char(d as nat),
{
    if d == 0 {
        '0'
    } else if d == 1 {
        '1'
    } else if d == 2 {
        '2'
    } else if d == 3 {
        '3'
    } else if d == 4 {
        '4'
    } else if d == 5 {
        '5'
    } else if d == 6 {
        '6'
    } else if d == 7 {
        '7'
    } else if d == 8 {
        '8'
    } else {
        '9'
    }
}

/// Decimal rendering of `n`.
pub fn u16_digits(n: u16) -> (r: Vec<char>)
    ensures
        r@ == dec_digits(n as nat),
    decreases n,
{
    if n < 10 {
        let mut r: Vec<char> = Vec::new();
        r.push(digit_char_exec(n));
        proof {
            assert(r@ =~= seq![digit_char(n as nat)]);
        }
        r
    } else {
        let mut r = u16_digits(n / 10);
        r.push(digit_char_exec(n % 10));
        r
    }
}

/// The part of the e-mail section that stands before the redaction marker:
/// host, port and username, substituted literally, up to the password
/// binding's opening quote.
pub open spec fn email_block_pre(e: EmailView) -> Seq<char> {
    "email {\n  smtp_host: \""@ + e.smtp_host + "\"\n  smtp_port: "@ + dec_digits(
        e.smtp_port as nat,
    ) + "\n  smtp_username: \""@ + e.smtp_username + "\"\n  smtp_password: \""@
}

/// The part of the e-mail section that stands after the redaction marker:
/// the sender fields, substituted literally, and the closing brace.
pub open spec fn email_block_post(e: EmailView) -> Seq<char> {
    "\"\n  sender_name: \""@ + e.sender_name + "\"\n  sender_address: \""@ + e.sender_address
        + "\"\n}"@
}

/// The populated e-mail section: every public field of the group substituted
/// literally, the password represented by the redaction marker.
pub open spec fn email_block(e: EmailView) -> Seq<char> {
    email_block_pre(e) + redaction_marker() + email_block_post(e)
}

/// The public configuration text: the template with the client-identifier
/// pattern rewritten to the real identifier and, when the e-mail group is
/// present, the empty-block marker expanded; everything else passes through
/// unchanged.
pub open spec fn spec_materialize(t: Seq<char>, d: SettingsView) -> Seq<char> {
    let step1 = spec_replace_all(t, cid_pattern(), cid_binding(d.client_id));
    match d.email {
        Some(e) => spec_replace_all(step1, email_marker(), email_block(e)),
        None => step1,
    }
}

/// Builds the e-mail section for the given group.
fn build_email_block(e: &crate::parse::EmailConfig) -> (r: Vec<char>)
    ensures
        r@ == email_block(e@),
{
    let mut out: Vec<char> = Vec::new();
    append_str(&mut out, "email {\n  smtp_host: \"");
    append_str(&mut out, e.smtp_host.as_str());
    append_str(&mut out, "\"\n  smtp_port: ");
    let pd = u16_digits(e.smtp_port);
    append_chars(&mut out, &pd);
    append_str(&mut out, "\n  smtp_username: \"");
    append_str(&mut out, e.smtp_username.as_str());
    append_str(&mut out, "\"\n  smtp_password: \"");
    append_str(&mut out, "<REDACTED>");
    append_str(&mut out, "\"\n  sender_name: \"");
    append_str(&mut out, e.sender_name.as_str());
    append_str(&mut out, "\"\n  sender_address: \"");
    append_str(&mut out, e.sender_address.as_str());
    append_str(&mut out, "\"\n}");
    proof {
        assert(out@ =~= email_block(e@));
    }
    out
}

/// Materializes the template against the settings record, as
/// `spec_materialize` says.
pub fn materialize_template(template: &str, d: &AuthnData) -> (r: String)
    ensures
        r@ == spec_materialize(template@, d@),
{
    let t = to_chars(template);
    let pat = to_chars("client_id: \"<REDACTED>\"");
    proof {
        reveal_strlit("client_id: \"<REDACTED>\"");
        assert(pat@.len() == 23);
    }
    let mut bind: Vec<char> = Vec::new();
    append_str(&mut bind, "client_id: \"");
    append_str(&mut bind, d.client_id.as_str());
    append_str(&mut bind, "\"");
    proof {
        assert(bind@ =~= cid_binding(d@.client_id));
    }
    let step1 = replace_all(&t, &pat, &bind);
    match &d.email {
        None => from_chars(&step1),
        Some(e) => {
            let block = build_email_block(e);
            let em = to_chars("email {}");
            proof {
                reveal_strlit("email {}");
                assert(em@.len() == 8);
            }
            let step2 = replace_all(&step1, &em, &block);
            from_chars(&step2)
        },
    }
}

/// The public e-mail fields of two records agree; nothing is said of either
/// record's secrets.
pub open spec fn emails_publicly_agree(a: Option<EmailView>, b: Option<EmailView>) -> bool {
    match (a, b) {
        (None, None) => true,
        (Some(e1), Some(e2)) => e1.smtp_host == e2.smtp_host && e1.smtp_port == e2.smtp_port
            && e1.smtp_username == e2.smtp_username && e1.sender_name == e2.sender_name
            && e1.sender_address == e2.sender_address,
        _ => false,
    }
}

/// Secret non-leak, as non-interference: the public configuration document
/// is a function of the template and the public fields alone. Two records
/// that agree on every public field — whatever their client secret and
/// e-mail password hold — produce the same public document, so no secret
/// value can reach it.
pub proof fn lemma_config_free_of_secrets(t: Seq<char>, d1: SettingsView, d2: SettingsView)
    requires
        d1.client_id == d2.client_id,
        emails_publicly_agree(d1.email, d2.email),
    ensures
        spec_materialize(t, d1) == spec_materialize(t, d2),
{
    match (d1.email, d2.email) {
        (Some(e1), Some(e2)) => {
            assert(email_block(e1) == email_block(e2));
        },
        _ => {},
    }
}

/// The expanded e-mail section represents the password by the redaction
/// marker: the password binding with the marker as its value occurs in the
/// block, whatever the group's field values are.
pub proof fn lemma_email_block_redacts_password(e: EmailView)
    ensures
        contains_seq(email_block(e), "smtp_password: \"<REDACTED>\""@),
        contains_seq(email_block(e), redaction_marker()),
{
    let pre = "email {\n  smtp_host: \""@ + e.smtp_host + "\"\n  smtp_port: "@ + dec_digits(
        e.smtp_port as nat,
    ) + "\n  smtp_username: \""@ + e.smtp_username + "\"\n  "@;
    let post = "\n  sender_name: \""@ + e.sender_name + "\"\n  sender_address: \""@
        + e.sender_address + "\"\n}"@;
    let bound = "smtp_password: \"<REDACTED>\""@;
    reveal_strlit("\"\n  smtp_password: \"");
    reveal_strlit("\"\n  ");
    reveal_strlit("<REDACTED>");
    reveal_strlit("smtp_password: \"<REDACTED>\"");
    reveal_strlit("\"\n  sender_name: \"");
    reveal_strlit("\n  sender_name: \"");
    assert(email_block(e) =~= pre + bound + post);
    lemma_contains_mid(pre, bound, post);
    assert(bound.subrange(16, 26) =~= redaction_marker());
    assert(match_at(bound, redaction_marker(), 16));
    lemma_contains_trans(email_block(e), bound, redaction_marker());
}

/// Round-trip of the client identifier: when the template carries the
/// client-identifier pattern, the rewritten text carries the same structural
/// binding with the identifier's literal value inside it, and so the value
/// itself, verbatim.
pub proof fn lemma_step1_contains_client_id(t: Seq<char>, v: Seq<char>)
    requires
        contains_seq(t, cid_pattern()),
    ensures
        contains_seq(spec_replace_all(t, cid_pattern(), cid_binding(v)), cid_binding(v)),
        contains_seq(spec_replace_all(t, cid_pattern(), cid_binding(v)), v),
{
    reveal_strlit("client_id: \"<REDACTED>\"");
    let n = lemma_first_occurrence(t, cid_pattern());
    lemma_replace_first(t, cid_pattern(), cid_binding(v), n);
    let r = spec_replace_all(t, cid_pattern(), cid_binding(v));
    assert(r =~= t.take(n) + cid_binding(v) + spec_replace_all(
        t.skip(n + cid_pattern().len()),
        cid_pattern(),
        cid_binding(v),
    ));
    lemma_contains_mid(
        t.take(n),
        cid_binding(v),
        spec_replace_all(t.skip(n + cid_pattern().len()), cid_pattern(), cid_binding(v)),
    );
    lemma_contains_mid("client_id: \""@, v, "\""@);
    lemma_contains_trans(r, cid_binding(v), v);
}

/// Round-trip of the client identifier through the whole materializer, for a
/// record without the e-mail group (no second substitution runs after it).
pub proof fn lemma_config_contains_client_id(t: Seq<char>, d: SettingsView)
    requires
        contains_seq(t, cid_pattern()),
        d.email is None,
    ensures
        contains_seq(spec_materialize(t, d), cid_binding(d.client_id)),
        contains_seq(spec_materialize(t, d), d.client_id),
{
    lemma_step1_contains_client_id(t, d.client_id);
}

/// Round-trip of the e-mail group: when the e-mail group is present and the
/// document after the client-identifier rewrite carries the empty-block
/// marker, the final document carries the expanded block, and so every
/// public field's literal value, and the password's redaction binding.
pub proof fn lemma_config_expands_email(t: Seq<char>, d: SettingsView, e: EmailView)
    requires
        d.email == Some(e),
        contains_seq(
            spec_replace_all(t, cid_pattern(), cid_binding(d.client_id)),
            email_marker(),
        ),
    ensures
        contains_seq(spec_materialize(t, d), email_block(e)),
        contains_seq(spec_materialize(t, d), e.smtp_host),
        contains_seq(spec_materialize(t, d), dec_digits(e.smtp_port as nat)),
        contains_seq(spec_materialize(t, d), e.smtp_username),
        contains_seq(spec_materialize(t, d), e.sender_name),
        contains_seq(spec_materialize(t, d), e.sender_address),
        contains_seq(spec_materialize(t, d), "smtp_password: \"<REDACTED>\""@),
{
    reveal_strlit("email {}");
    let step1 = spec_replace_all(t, cid_pattern(), cid_binding(d.client_id));
    let n = lemma_first_occurrence(step1, email_marker());
    lemma_replace_first(step1, email_marker(), email_block(e), n);
    let r = spec_materialize(t, d);
    let rest = spec_replace_all(step1.skip(n + email_marker().len()), email_marker(), email_block(e));
    assert(r =~= step1.take(n) + email_block(e) + rest);
    lemma_contains_mid(step1.take(n), email_block(e), rest);
    let b = email_block(e);
    let c1 = "email {\n  smtp_host: \""@;
    assert(b =~= c1 + e.smtp_host + (b.skip(c1.len() + e.smtp_host.len() as int)));
    lemma_contains_mid(c1, e.smtp_host, b.skip(c1.len() + e.smtp_host.len() as int));
    lemma_contains_trans(r, b, e.smtp_host);
    let p1 = c1 + e.smtp_host + "\"\n  smtp_port: "@;
    let dd = dec_digits(e.smtp_port as nat);
    assert(b =~= p1 + dd + (b.skip(p1.len() + dd.len() as int)));
    lemma_contains_mid(p1, dd, b.skip(p1.len() + dd.len() as int));
    lemma_contains_trans(r, b, dd);
    let p2 = p1 + dd + "\n  smtp_username: \""@;
    assert(b =~= p2 + e.smtp_username + (b.skip(p2.len() + e.smtp_username.len() as int)));
    lemma_contains_mid(p2, e.smtp_username, b.skip(p2.len() + e.smtp_username.len() as int));
    lemma_contains_trans(r, b, e.smtp_username);
    let p3 = p2 + e.smtp_username + "\"\n  smtp_password: \""@ + redaction_marker()
        + "\"\n  sender_name: \""@;
    assert(b =~= p3 + e.sender_name + (b.skip(p3.len() + e.sender_name.len() as int)));
    lemma_contains_mid(p3, e.sender_name, b.skip(p3.len() + e.sender_name.len() as int));
    lemma_contains_trans(r, b, e.sender_name);
    let p4 = p3 + e.sender_name + "\"\n  sender_address: \""@;
    assert(b =~= p4 + e.sender_address + (b.skip(p4.len() + e.sender_address.len() as int)));
    lemma_contains_mid(p4, e.sender_address, b.skip(p4.len() + e.sender_address.len() as int));
    lemma_contains_trans(r, b, e.sender_address);
    lemma_email_block_redacts_password(e);
    lemma_contains_trans(r, b, "smtp_password: \"<REDACTED>\""@);
}

/// No character of `s` is `<`.
pub open spec fn free_of_lt(s: Seq<char>) -> bool {
    forall|i: int| 0 <= i < s.len() ==> s[i] != '<'
}

/// The placeholder is consumed: for a template whose only `<` is the one of
/// its client-identifier pattern, and an identifier value without `<`, the
/// rewritten text is exactly the text around the pattern with the real
/// binding between — and neither the pattern nor the redaction marker
/// occurs anywhere in it. An identifier value carrying `<` can re-form the
/// marker inside the substituted binding, so such values are left out.
pub proof fn lemma_placeholder_consumed(a: Seq<char>, b: Seq<char>, v: Seq<char>)
    requires
        free_of_lt(a),
        free_of_lt(b),
        free_of_lt(v),
    ensures
        spec_replace_all(a + cid_pattern() + b, cid_pattern(), cid_binding(v)) == a
            + cid_binding(v) + b,
        !contains_seq(a + cid_binding(v) + b, cid_pattern()),
        !contains_seq(a + cid_binding(v) + b, redaction_marker()),
{
    reveal_strlit("client_id: \"<REDACTED>\"");
    reveal_strlit("client_id: \"");
    reveal_strlit("\"");
    reveal_strlit("<REDACTED>");
    let p = cid_pattern();
    let t = a + p + b;
    assert(p.len() == 23);
    assert(p[12] == '<');
    assert(forall|j: int| 0 <= j < 23 && j != 12 ==> p[j] != '<');
    assert forall|i: int| 0 <= i < a.len() implies !match_at(t, p, i) by {
        if match_at(t, p, i) {
            assert(t.subrange(i, i + 23)[12] == p[12]);
            assert(t[i + 12] == '<');
            if i + 12 < a.len() {
                assert(t[i + 12] == a[i + 12]);
            } else {
                assert(t[i + 12] == p[i + 12 - a.len()]);
                assert(0 <= i + 12 - a.len() < 12);
            }
        }
    }
    lemma_contains_mid(a, p, b);
    lemma_replace_first(t, p, cid_binding(v), a.len() as int);
    assert(t.take(a.len() as int) =~= a);
    assert(t.skip(a.len() as int + 23) =~= b);
    assert forall|i: int| !match_at(b, p, i) by {
        if match_at(b, p, i) {
            assert(b.subrange(i, i + 23)[12] == p[12]);
            assert(b[i + 12] == '<');
        }
    }
    lemma_replace_absent(b, p, cid_binding(v));
    let bind = cid_binding(v);
    let r = a + bind + b;
    assert(spec_replace_all(t, p, bind) =~= r);
    assert(forall|j: int| 0 <= j < "client_id: \""@.len() ==> "client_id: \""@[j] != '<');
    assert forall|j: int| 0 <= j < bind.len() implies bind[j] != '<' by {
        if j < "client_id: \""@.len() {
            assert(bind[j] == "client_id: \""@[j]);
        } else if j < "client_id: \""@.len() + v.len() {
            assert(bind[j] == v[j - "client_id: \""@.len()]);
        } else {
            assert(bind[j] == "\""@[j - "client_id: \""@.len() - v.len()]);
        }
    }
    assert forall|j: int| 0 <= j < r.len() implies r[j] != '<' by {
        if j < a.len() {
            assert(r[j] == a[j]);
        } else if j < a.len() + bind.len() {
            assert(r[j] == bind[j - a.len()]);
        } else {
            assert(r[j] == b[j - a.len() - bind.len()]);
        }
    }
    assert forall|i: int| !match_at(r, p, i) by {
        if match_at(r, p, i) {
            assert(r.subrange(i, i + 23)[12] == p[12]);
            assert(r[i + 12] == '<');
        }
    }
    assert(redaction_marker().len() == 10);
    assert(redaction_marker()[0] == '<');
    assert forall|i: int| !match_at(r, redaction_marker(), i) by {
        if match_at(r, redaction_marker(), i) {
            assert(r.subrange(i, i + 10)[0] == redaction_marker()[0]);
            assert(r[i] == '<');
        }
    }
}

/// The placeholder is consumed, through the whole materializer, for a
/// record without the e-mail group: the public document is the template
/// with the binding substituted, the identifier value stands in it, and
/// neither the pattern nor the redaction marker remains anywhere.
pub proof fn lemma_config_placeholder_consumed(a: Seq<char>, b: Seq<char>, d: SettingsView)
    requires
        d.email is None,
        free_of_lt(a),
        free_of_lt(b),
        free_of_lt(d.client_id),
    ensures
        spec_materialize(a + cid_pattern() + b, d) == a + cid_binding(d.client_id) + b,
        contains_seq(spec_materialize(a + cid_pattern() + b, d), d.client_id),
        !contains_seq(spec_materialize(a + cid_pattern() + b, d), cid_pattern()),
        !contains_seq(spec_materialize(a + cid_pattern() + b, d), redaction_marker()),
{
    lemma_placeholder_consumed(a, b, d.client_id);
    lemma_contains_mid(a, cid_pattern(), b);
    lemma_step1_contains_client_id(a + cid_pattern() + b, d.client_id);
}

/// No character of `s` is `{`.
pub open spec fn free_of_open_brace(s: Seq<char>) -> bool {
    forall|i: int| 0 <= i < s.len() ==> s[i] != '{'
}

/// Full materialization of the richest variant: for a template of the
/// canonical shape — text, the client-identifier pattern, text, the
/// empty-block marker, text — against a record with the e-mail group, the
/// public document is exactly the template text with the identifier binding
/// and the expanded block in place of the two markers. The surrounding text
/// and the identifier value must not carry `<` (which could re-form the
/// pattern) nor `{` (which could re-form the empty-block marker).
pub proof fn lemma_config_full_materialization(
    a: Seq<char>,
    b: Seq<char>,
    c: Seq<char>,
    d: SettingsView,
    e: EmailView,
)
    requires
        d.email == Some(e),
        free_of_lt(a),
        free_of_lt(b),
        free_of_lt(c),
        free_of_lt(d.client_id),
        free_of_open_brace(a),
        free_of_open_brace(b),
        free_of_open_brace(c),
        free_of_open_brace(d.client_id),
    ensures
        spec_materialize(a + cid_pattern() + b + email_marker() + c, d) == a + cid_binding(
            d.client_id,
        ) + b + email_block(e) + c,
{
    reveal_strlit("email {}");
    reveal_strlit("client_id: \"<REDACTED>\"");
    reveal_strlit("client_id: \"");
    reveal_strlit("\"");
    let v = d.client_id;
    let p = cid_pattern();
    let em = email_marker();
    let bind = cid_binding(v);
    let block = email_block(e);
    assert(em.len() == 8);
    assert(forall|j: int| 0 <= j < 8 ==> em[j] != '<');
    assert(em[6] == '{');
    assert(forall|j: int| 0 <= j < 8 && j != 6 ==> em[j] != '{');
    let tail = b + em + c;
    assert forall|i: int| 0 <= i < tail.len() implies tail[i] != '<' by {
        if i < b.len() {
            assert(tail[i] == b[i]);
        } else if i < b.len() + 8 {
            assert(tail[i] == em[i - b.len()]);
        } else {
            assert(tail[i] == c[i - b.len() - 8]);
        }
    }
    let t = a + p + tail;
    assert(t =~= a + cid_pattern() + b + email_marker() + c);
    lemma_placeholder_consumed(a, tail, v);
    let step1 = spec_replace_all(t, p, bind);
    assert(step1 == a + bind + tail);
    // the binding holds no `{` either: its fixed syntax has none and the
    // identifier value was required free of it
    assert(forall|j: int| 0 <= j < "client_id: \""@.len() ==> "client_id: \""@[j] != '{');
    assert forall|j: int| 0 <= j < bind.len() implies bind[j] != '{' by {
        if j < "client_id: \""@.len() {
            assert(bind[j] == "client_id: \""@[j]);
        } else if j < "client_id: \""@.len() + v.len() {
            assert(bind[j] == v[j - "client_id: \""@.len()]);
        } else {
            assert(bind[j] == "\""@[j - "client_id: \""@.len() - v.len()]);
        }
    }
    let front = a + bind + b;
    let t2 = a + bind + tail;
    assert(t2 =~= front + em + c);
    assert forall|j: int| 0 <= j < front.len() implies front[j] != '{' by {
        if j < a.len() {
            assert(front[j] == a[j]);
        } else if j < a.len() + bind.len() {
            assert(front[j] == bind[j - a.len()]);
        } else {
            assert(front[j] == b[j - a.len() - bind.len()]);
        }
    }
    let pos = front.len() as int;
    lemma_contains_mid(front, em, c);
    assert(match_at(t2, em, pos));
    assert forall|i: int| 0 <= i < pos implies !match_at(t2, em, i) by {
        if match_at(t2, em, i) {
            assert(t2.subrange(i, i + 8)[6] == em[6]);
            assert(t2[i + 6] == '{');
            if i + 6 < pos {
                assert(t2[i + 6] == front[i + 6]);
            } else {
                assert(t2[i + 6] == em[i + 6 - pos]);
                assert(i + 6 - pos < 6);
            }
        }
    }
    lemma_replace_first(t2, em, block, pos);
    assert(t2.take(pos) =~= front);
    assert(t2.skip(pos + 8) =~= c);
    assert forall|i: int| !match_at(c, em, i) by {
        if match_at(c, em, i) {
            assert(c.subrange(i, i + 8)[6] == em[6]);
            assert(c[i + 6] == '{');
        }
    }
    lemma_replace_absent(c, em, block);
    assert(spec_replace_all(t2, em, block) =~= a + bind + b + block + c);
    assert(spec_materialize(a + cid_pattern() + b + email_marker() + c, d) == spec_replace_all(
        step1,
        em,
        block,
    ));
}

/// Every character of a decimal rendering is a digit.
pub proof fn lemma_dec_digits_are_digits(n: nat)
    ensures
        forall|j: int|
            0 <= j < dec_digits(n).len() ==> crate::parse::is_digit(dec_digits(n)[j]),
    decreases n,
{
    if n < 10 {
    } else {
        lemma_dec_digits_are_digits(n / 10);
        let prev = dec_digits(n / 10);
        assert forall|j: int|
            0 <= j < dec_digits(n).len() implies crate::parse::is_digit(dec_digits(n)[j]) by {
            if j < prev.len() {
                assert(dec_digits(n)[j] == prev[j]);
            } else {
                assert(dec_digits(n)[j] == digit_char(n % 10));
            }
        }
    }
}

/// Offset of the redaction marker inside the expanded e-mail section.
pub open spec fn block_marker_pos(e: EmailView) -> int {
    email_block_pre(e).len() as int
}

/// In an e-mail section whose public field values carry no `<`, the
/// character `<` stands exactly once: as the head of the redaction marker at
/// the password's position.
/// No `<` stands in the e-mail section before the marker.
#[verifier::rlimit(100)]
proof fn lemma_email_pre_free_of_lt(e: EmailView)
    requires
        free_of_lt(e.smtp_host),
        free_of_lt(e.smtp_username),
    ensures
        forall|j: int| 0 <= j < email_block_pre(e).len() ==> email_block_pre(e)[j] != '<',
{
    lemma_dec_digits_are_digits(e.smtp_port as nat);
    let dd = dec_digits(e.smtp_port as nat);
    let pre = email_block_pre(e);
    assert(forall|j: int| 0 <= j < dd.len() ==> dd[j] != '<');
    assert forall|j: int| 0 <= j < pre.len() implies pre[j] != '<' by {
        reveal_strlit("email {\n  smtp_host: \"");
        reveal_strlit("\"\n  smtp_port: ");
        reveal_strlit("\n  smtp_username: \"");
        reveal_strlit("\"\n  smtp_password: \"");
        let l1 = "email {\n  smtp_host: \""@.len() as int;
        let l2 = l1 + e.smtp_host.len() as int;
        let l3 = l2 + "\"\n  smtp_port: "@.len() as int;
        let l4 = l3 + dd.len() as int;
        let l5 = l4 + "\n  smtp_username: \""@.len() as int;
        let l6 = l5 + e.smtp_username.len() as int;
        if j < l1 {
            assert(pre[j] == "email {\n  smtp_host: \""@[j]);
        } else if j < l2 {
            assert(pre[j] == e.smtp_host[j - l1]);
        } else if j < l3 {
            assert(pre[j] == "\"\n  smtp_port: "@[j - l2]);
        } else if j < l4 {
            assert(pre[j] == dd[j - l3]);
        } else if j < l5 {
            assert(pre[j] == "\n  smtp_username: \""@[j - l4]);
        } else if j < l6 {
            assert(pre[j] == e.smtp_username[j - l5]);
        } else {
            assert(pre[j] == "\"\n  smtp_password: \""@[j - l6]);
        }
    }
}

/// No `<` stands in the e-mail section after the marker.
#[verifier::rlimit(100)]
proof fn lemma_email_post_free_of_lt(e: EmailView)
    requires
        free_of_lt(e.sender_name),
        free_of_lt(e.sender_address),
    ensures
        forall|j: int| 0 <= j < email_block_post(e).len() ==> email_block_post(e)[j] != '<',
{
    let post = email_block_post(e);
    assert forall|j: int| 0 <= j < post.len() implies post[j] != '<' by {
        reveal_strlit("\"\n  sender_name: \"");
        reveal_strlit("\"\n  sender_address: \"");
        reveal_strlit("\"\n}");
        let l1 = "\"\n  sender_name: \""@.len() as int;
        let l2 = l1 + e.sender_name.len() as int;
        let l3 = l2 + "\"\n  sender_address: \""@.len() as int;
        let l4 = l3 + e.sender_address.len() as int;
        if j < l1 {
            assert(post[j] == "\"\n  sender_name: \""@[j]);
        } else if j < l2 {
            assert(post[j] == e.sender_name[j - l1]);
        } else if j < l3 {
            assert(post[j] == "\"\n  sender_address: \""@[j - l2]);
        } else if j < l4 {
            assert(post[j] == e.sender_address[j - l3]);
        } else {
            assert(post[j] == "\"\n}"@[j - l4]);
        }
    }
}

/// In `pre + marker + post` with `<`-free surroundings, `<` stands exactly
/// at the marker's head.
proof fn lemma_concat_single_lt(pre: Seq<char>, post: Seq<char>)
    requires
        forall|j: int| 0 <= j < pre.len() ==> pre[j] != '<',
        forall|j: int| 0 <= j < post.len() ==> post[j] != '<',
    ensures
        forall|j: int|
            0 <= j < (pre + redaction_marker() + post).len() && j != pre.len() ==> (pre
                + redaction_marker() + post)[j] != '<',
{
    assert(redaction_marker().len() == 10 && (forall|j: int|
        0 < j < 10 ==> redaction_marker()[j] != '<')) by {
        reveal_strlit("<REDACTED>");
    }
    let pm = pre + redaction_marker();
    let whole = pm + post;
    assert forall|j: int| 0 <= j < whole.len() && j != pre.len() implies whole[j] != '<' by {
        if j < pm.len() {
            assert(whole[j] == pm[j]);
            if j < pre.len() {
                assert(pm[j] == pre[j]);
            } else {
                assert(pm[j] == redaction_marker()[j - pre.len()]);
            }
        } else {
            assert(whole[j] == post[j - pm.len()]);
        }
    }
}

#[verifier::rlimit(100)]
pub proof fn lemma_block_single_lt(e: EmailView)
    requires
        free_of_lt(e.smtp_host),
        free_of_lt(e.smtp_username),
        free_of_lt(e.sender_name),
        free_of_lt(e.sender_address),
    ensures
        match_at(email_block(e), redaction_marker(), block_marker_pos(e)),
        forall|j: int|
            0 <= j < email_block(e).len() && j != block_marker_pos(e) ==> email_block(e)[j]
                != '<',
{
    let bk = email_block(e);
    let m = block_marker_pos(e);
    let pre = email_block_pre(e);
    let post = email_block_post(e);
    lemma_contains_mid(pre, redaction_marker(), post);
    lemma_email_pre_free_of_lt(e);
    lemma_email_post_free_of_lt(e);
    lemma_concat_single_lt(pre, post);
    assert(bk == pre + redaction_marker() + post);
}

/// In the fully materialized document of the richest variant, the redaction
/// marker stands exactly once — at the position where the e-mail password is
/// represented — and the client-identifier pattern stands nowhere.
pub proof fn lemma_config_single_redaction(
    a: Seq<char>,
    b: Seq<char>,
    c: Seq<char>,
    d: SettingsView,
    e: EmailView,
)
    requires
        d.email == Some(e),
        free_of_lt(a),
        free_of_lt(b),
        free_of_lt(c),
        free_of_lt(d.client_id),
        free_of_open_brace(a),
        free_of_open_brace(b),
        free_of_open_brace(c),
        free_of_open_brace(d.client_id),
        free_of_lt(e.smtp_host),
        free_of_lt(e.smtp_username),
        free_of_lt(e.sender_name),
        free_of_lt(e.sender_address),
    ensures
        ({
            let r = a + cid_binding(d.client_id) + b + email_block(e) + c;
            let k = a.len() + cid_binding(d.client_id).len() + b.len() + block_marker_pos(e);
            &&& spec_materialize(a + cid_pattern() + b + email_marker() + c, d) == r
            &&& match_at(r, redaction_marker(), k)
            &&& forall|i: int| i != k ==> !match_at(r, redaction_marker(), i)
            &&& !contains_seq(r, cid_pattern())
        }),
{
    lemma_config_full_materialization(a, b, c, d, e);
    lemma_block_single_lt(e);
    reveal_strlit("client_id: \"<REDACTED>\"");
    reveal_strlit("client_id: \"");
    reveal_strlit("\"");
    reveal_strlit("<REDACTED>");
    reveal_strlit("\"\n  smtp_password: \"");
    let v = d.client_id;
    let bind = cid_binding(v);
    let bk = email_block(e);
    let m = block_marker_pos(e);
    let r = a + bind + b + bk + c;
    let k = a.len() + bind.len() + b.len() as int + m;
    assert forall|j: int| 0 <= j < bind.len() implies bind[j] != '<' by {
        if j < "client_id: \""@.len() {
            assert(bind[j] == "client_id: \""@[j]);
        } else if j < "client_id: \""@.len() + v.len() {
            assert(bind[j] == v[j - "client_id: \""@.len()]);
        } else {
            assert(bind[j] == "\""@[j - "client_id: \""@.len() - v.len()]);
        }
    }
    let l1 = a.len() as int;
    let l2 = l1 + bind.len() as int;
    let l3 = l2 + b.len() as int;
    let l4 = l3 + bk.len() as int;
    assert forall|j: int| 0 <= j < r.len() && j != k implies r[j] != '<' by {
        if j < l1 {
            assert(r[j] == a[j]);
        } else if j < l2 {
            assert(r[j] == bind[j - l1]);
        } else if j < l3 {
            assert(r[j] == b[j - l2]);
        } else if j < l4 {
            assert(r[j] == bk[j - l3]);
            assert(j - l3 != m);
        } else {
            assert(r[j] == c[j - l4]);
        }
    }
    assert(r.subrange(k, k + 10) =~= bk.subrange(m, m + 10));
    assert(match_at(r, redaction_marker(), k));
    assert(r[k] == '<');
    assert forall|i: int| i != k implies !match_at(r, redaction_marker(), i) by {
        if match_at(r, redaction_marker(), i) {
            assert(r.subrange(i, i + 10)[0] == redaction_marker()[0]);
            assert(r[i] == '<');
        }
    }
    let p = cid_pattern();
    assert(p[0] == 'c');
    assert(p[12] == '<');
    assert("\"\n  smtp_password: \""@[8] == '_');
    assert forall|i: int| !match_at(r, p, i) by {
        if match_at(r, p, i) {
            assert(r.subrange(i, i + 23)[12] == p[12]);
            assert(r[i + 12] == '<');
            assert(i + 12 == k);
            assert(r.subrange(i, i + 23)[0] == p[0]);
            assert(r[i] == 'c');
            assert(m >= "\"\n  smtp_password: \""@.len());
            assert(r[k - 12] == bk[m - 12]);
            assert(bk[m - 12] == '_');
        }
    }
}

/// In the e-mail section before the marker, `{` stands exactly once: as the
/// opening brace of the section head.
#[verifier::rlimit(100)]
proof fn lemma_email_pre_single_brace(e: EmailView)
    requires
        free_of_open_brace(e.smtp_host),
        free_of_open_brace(e.smtp_username),
    ensures
        email_block_pre(e)[6] == '{',
        forall|j: int|
            0 <= j < email_block_pre(e).len() && j != 6 ==> email_block_pre(e)[j] != '{',
{
    lemma_dec_digits_are_digits(e.smtp_port as nat);
    let dd = dec_digits(e.smtp_port as nat);
    let pre = email_block_pre(e);
    assert(forall|j: int| 0 <= j < dd.len() ==> dd[j] != '{');
    assert(pre[6] == '{') by {
        reveal_strlit("email {\n  smtp_host: \"");
    }
    assert forall|j: int| 0 <= j < pre.len() && j != 6 implies pre[j] != '{' by {
        reveal_strlit("email {\n  smtp_host: \"");
        reveal_strlit("\"\n  smtp_port: ");
        reveal_strlit("\n  smtp_username: \"");
        reveal_strlit("\"\n  smtp_password: \"");
        let l1 = "email {\n  smtp_host: \""@.len() as int;
        let l2 = l1 + e.smtp_host.len() as int;
        let l3 = l2 + "\"\n  smtp_port: "@.len() as int;
        let l4 = l3 + dd.len() as int;
        let l5 = l4 + "\n  smtp_username: \""@.len() as int;
        let l6 = l5 + e.smtp_username.len() as int;
        if j < l1 {
            assert(pre[j] == "email {\n  smtp_host: \""@[j]);
        } else if j < l2 {
            assert(pre[j] == e.smtp_host[j - l1]);
        } else if j < l3 {
            assert(pre[j] == "\"\n  smtp_port: "@[j - l2]);
        } else if j < l4 {
            assert(pre[j] == dd[j - l3]);
        } else if j < l5 {
            assert(pre[j] == "\n  smtp_username: \""@[j - l4]);
        } else if j < l6 {
            assert(pre[j] == e.smtp_username[j - l5]);
        } else {
            assert(pre[j] == "\"\n  smtp_password: \""@[j - l6]);
        }
    }
}

/// No `{` stands in the e-mail section after the marker.
#[verifier::rlimit(100)]
proof fn lemma_email_post_free_of_brace(e: EmailView)
    requires
        free_of_open_brace(e.sender_name),
        free_of_open_brace(e.sender_address),
    ensures
        forall|j: int| 0 <= j < email_block_post(e).len() ==> email_block_post(e)[j] != '{',
{
    let post = email_block_post(e);
    assert forall|j: int| 0 <= j < post.len() implies post[j] != '{' by {
        reveal_strlit("\"\n  sender_name: \"");
        reveal_strlit("\"\n  sender_address: \"");
        reveal_strlit("\"\n}");
        let l1 = "\"\n  sender_name: \""@.len() as int;
        let l2 = l1 + e.sender_name.len() as int;
        let l3 = l2 + "\"\n  sender_address: \""@.len() as int;
        let l4 = l3 + e.sender_address.len() as int;
        if j < l1 {
            assert(post[j] == "\"\n  sender_name: \""@[j]);
        } else if j < l2 {
            assert(post[j] == e.sender_name[j - l1]);
        } else if j < l3 {
            assert(post[j] == "\"\n  sender_address: \""@[j - l2]);
        } else if j < l4 {
            assert(post[j] == e.sender_address[j - l3]);
        } else {
            assert(post[j] == "\"\n}"@[j - l4]);
        }
    }
}

/// In an e-mail section whose public field values carry no `{`, the opening
/// brace stands exactly once — in the section head — and the character after
/// it is a line break, so the empty-block marker cannot occur in the
/// section.
#[verifier::rlimit(100)]
pub proof fn lemma_block_single_brace(e: EmailView)
    requires
        free_of_open_brace(e.smtp_host),
        free_of_open_brace(e.smtp_username),
        free_of_open_brace(e.sender_name),
        free_of_open_brace(e.sender_address),
    ensures
        email_block(e)[6] == '{',
        email_block(e)[7] == '\n',
        forall|j: int| 0 <= j < email_block(e).len() && j != 6 ==> email_block(e)[j] != '{',
{
    lemma_email_pre_single_brace(e);
    lemma_email_post_free_of_brace(e);
    let bk = email_block(e);
    let pre = email_block_pre(e);
    let post = email_block_post(e);
    assert(redaction_marker().len() == 10 && (forall|j: int|
        0 <= j < 10 ==> redaction_marker()[j] != '{')) by {
        reveal_strlit("<REDACTED>");
    }
    assert(pre.len() >= 20) by {
        reveal_strlit("email {\n  smtp_host: \"");
        reveal_strlit("\"\n  smtp_port: ");
        reveal_strlit("\n  smtp_username: \"");
        reveal_strlit("\"\n  smtp_password: \"");
    }
    assert(pre[7] == '\n') by {
        reveal_strlit("email {\n  smtp_host: \"");
    }
    let pm = pre + redaction_marker();
    assert(bk == pm + post);
    assert(bk[6] == pre[6]);
    assert(bk[7] == pre[7]);
    assert forall|j: int| 0 <= j < bk.len() && j != 6 implies bk[j] != '{' by {
        if j < pm.len() {
            assert(bk[j] == pm[j]);
            if j < pre.len() {
                assert(pm[j] == pre[j]);
            } else {
                assert(pm[j] == redaction_marker()[j - pre.len()]);
            }
        } else {
            assert(bk[j] == post[j - pm.len()]);
        }
    }
}

/// The empty-block marker is consumed: in the fully materialized document of
/// the richest variant, the marker stands nowhere, provided the text around
/// the two template markers, the identifier value and the group's public
/// field values are free of `{` (which could re-form the marker).
#[verifier::rlimit(100)]
pub proof fn lemma_config_email_marker_consumed(
    a: Seq<char>,
    b: Seq<char>,
    c: Seq<char>,
    d: SettingsView,
    e: EmailView,
)
    requires
        d.email == Some(e),
        free_of_lt(a),
        free_of_lt(b),
        free_of_lt(c),
        free_of_lt(d.client_id),
        free_of_open_brace(a),
        free_of_open_brace(b),
        free_of_open_brace(c),
        free_of_open_brace(d.client_id),
        free_of_open_brace(e.smtp_host),
        free_of_open_brace(e.smtp_username),
        free_of_open_brace(e.sender_name),
        free_of_open_brace(e.sender_address),
    ensures
        spec_materialize(a + cid_pattern() + b + email_marker() + c, d) == a + cid_binding(
            d.client_id,
        ) + b + email_block(e) + c,
        !contains_seq(a + cid_binding(d.client_id) + b + email_block(e) + c, email_marker()),
{
    lemma_config_full_materialization(a, b, c, d, e);
    lemma_block_single_brace(e);
    reveal_strlit("email {}");
    reveal_strlit("client_id: \"");
    reveal_strlit("\"");
    let v = d.client_id;
    let bind = cid_binding(v);
    let bk = email_block(e);
    let em = email_marker();
    let r = a + bind + b + bk + c;
    assert(em.len() == 8 && em[6] == '{' && em[7] == '}');
    assert forall|j: int| 0 <= j < bind.len() implies bind[j] != '{' by {
        if j < "client_id: \""@.len() {
            assert(bind[j] == "client_id: \""@[j]);
        } else if j < "client_id: \""@.len() + v.len() {
            assert(bind[j] == v[j - "client_id: \""@.len()]);
        } else {
            assert(bind[j] == "\""@[j - "client_id: \""@.len() - v.len()]);
        }
    }
    let l1 = a.len() as int;
    let l2 = l1 + bind.len() as int;
    let l3 = l2 + b.len() as int;
    let l4 = l3 + bk.len() as int;
    let k = l3 + 6;
    assert forall|j: int| 0 <= j < r.len() && j != k implies r[j] != '{' by {
        if j < l1 {
            assert(r[j] == a[j]);
        } else if j < l2 {
            assert(r[j] == bind[j - l1]);
        } else if j < l3 {
            assert(r[j] == b[j - l2]);
        } else if j < l4 {
            assert(r[j] == bk[j - l3]);
            assert(j - l3 != 6);
        } else {
            assert(r[j] == c[j - l4]);
        }
    }
    assert(bk.len() >= 10) by {
        reveal_strlit("<REDACTED>");
    }
    assert(r[k + 1] == bk[7]);
    assert forall|i: int| !match_at(r, em, i) by {
        if match_at(r, em, i) {
            assert(r.subrange(i, i + 8)[6] == em[6]);
            assert(r[i + 6] == '{');
            assert(i + 6 == k);
            assert(r.subrange(i, i + 8)[7] == em[7]);
            assert(r[i + 7] == '}');
            assert(r[k + 1] == '\n');
        }
    }
}

/// Pass-through: a template without the client-identifier pattern, against a
/// record without the e-mail group, is returned unchanged.
pub proof fn lemma_config_pass_through(t: Seq<char>, d: SettingsView)
    requires
        !contains_seq(t, cid_pattern()),
        d.email is None,
    ensures
        spec_materialize(t, d) == t,
{
    lemma_replace_absent(t, cid_pattern(), cid_binding(d.client_id));
}

} // verus!
