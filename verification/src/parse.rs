//! Source parser: turns the line-oriented `KEY=VALUE` settings text into a
//! fully-validated settings record, or fails naming the first missing or
//! invalid required field.
//!
//! Lines are trimmed; blank lines and `#` comments are skipped; a line
//! without `=` is ignored; keys match exactly and case-sensitively; unknown
//! keys are ignored; the port must parse as an unsigned 16-bit integer; a
//! repeated key keeps its last occurrence.

use vstd::prelude::*;
use crate::text::{
    spec_trim, spec_find, trim_vec, subvec, find_char, to_chars, from_chars, append_str,
    chars_eq_str, lemma_find_at, lemma_find_absent,
};

verus! {

/// A required field of the settings record, used to report which one is
/// missing.
#[derive(Clone, Copy, PartialEq, Eq, Structural, Debug)]
pub enum Field {
    ClientId,
    ClientSecret,
    SmtpHost,
    SmtpPort,
    SmtpUsername,
    SmtpPassword,
    SenderName,
    SenderAddress,
}

/// A fatal validation error of the settings input.
#[derive(Clone, Copy, PartialEq, Eq, Structural, Debug)]
pub enum ParseError {
    /// The port field's value does not parse as an unsigned 16-bit integer.
    InvalidPort,
    /// A required field never appeared in the input.
    MissingField(Field),
}

/// The e-mail field group of a settings record.
#[derive(Debug)]
pub struct EmailConfig {
    pub smtp_host: String,
    pub smtp_port: u16,
    pub smtp_username: String,
    pub smtp_password: String,
    pub sender_name: String,
    pub sender_address: String,
}

/// Spec-level image of `EmailConfig`.
pub struct EmailView {
    pub smtp_host: Seq<char>,
    pub smtp_port: u16,
    pub smtp_username: Seq<char>,
    pub smtp_password: Seq<char>,
    pub sender_name: Seq<char>,
    pub sender_address: Seq<char>,
}

impl View for EmailConfig {
    type V = EmailView;

    open spec fn view(&self) -> EmailView {
        EmailView {
            smtp_host: self.smtp_host@,
            smtp_port: self.smtp_port,
            smtp_username: self.smtp_username@,
            smtp_password: self.smtp_password@,
            sender_name: self.sender_name@,
            sender_address: self.sender_address@,
        }
    }
}

/// The validated settings record: the OAuth pair, always present, and the
/// e-mail group when the active configuration asks for it.
#[derive(Debug)]
pub struct AuthnData {
    pub client_id: String,
    pub client_secret: String,
    pub email: Option<EmailConfig>,
}

/// Spec-level image of `AuthnData`.
pub struct SettingsView {
    pub client_id: Seq<char>,
    pub client_secret: Seq<char>,
    pub email: Option<EmailView>,
}

impl View for AuthnData {
    type V = SettingsView;

    open spec fn view(&self) -> SettingsView {
        SettingsView {
            client_id: self.client_id@,
            client_secret: self.client_secret@,
            email: match self.email {
                Some(e) => Some(e@),
                None => None,
            },
        }
    }
}

/// Scan state: each field as last seen so far, if at all.
pub struct RawState {
    pub client_id: Option<Vec<char>>,
    pub client_secret: Option<Vec<char>>,
    pub smtp_host: Option<Vec<char>>,
    pub smtp_port: Option<u16>,
    pub smtp_username: Option<Vec<char>>,
    pub smtp_password: Option<Vec<char>>,
    pub sender_name: Option<Vec<char>>,
    pub sender_address: Option<Vec<char>>,
}

/// Spec-level image of `RawState`.
pub struct RawView {
    pub client_id: Option<Seq<char>>,
    pub client_secret: Option<Seq<char>>,
    pub smtp_host: Option<Seq<char>>,
    pub smtp_port: Option<u16>,
    pub smtp_username: Option<Seq<char>>,
    pub smtp_password: Option<Seq<char>>,
    pub sender_name: Option<Seq<char>>,
    pub sender_address: Option<Seq<char>>,
}

impl View for RawState {
    type V = RawView;

    open spec fn view(&self) -> RawView {
        RawView {
            client_id: match self.client_id {
                Some(ref v) => Some(v@),
                None => None,
            },
            client_secret: match self.client_secret {
                Some(ref v) => Some(v@),
                None => None,
            },
            smtp_host: match self.smtp_host {
                Some(ref v) => Some(v@),
                None => None,
            },
            smtp_port: self.smtp_port,
            smtp_username: match self.smtp_username {
                Some(ref v) => Some(v@),
                None => None,
            },
            smtp_password: match self.smtp_password {
                Some(ref v) => Some(v@),
                None => None,
            },
            sender_name: match self.sender_name {
                Some(ref v) => Some(v@),
                None => None,
            },
            sender_address: match self.sender_address {
                Some(ref v) => Some(v@),
                None => None,
            },
        }
    }
}

/// The scan state before any line was read.
pub open spec fn raw_empty() -> RawView {
    RawView {
        client_id: None,
        client_secret: None,
        smtp_host: None,
        smtp_port: None,
        smtp_username: None,
        smtp_password: None,
        sender_name: None,
        sender_address: None,
    }
}

/// Decimal digit test.
pub open spec fn is_digit(c: char) -> bool {
    c == '0' || c == '1' || c == '2' || c == '3' || c == '4' || c == '5' || c == '6' || c == '7'
        || c == '8' || c == '9'
}

/// Value of a decimal digit.
pub open spec fn digit_of(c: char) -> nat {
    if c == '0' {
        0
    } else if c == '1' {
        1
    } else if c == '2' {
        2
    } else if c == '3' {
        3
    } else if c == '4' {
        4
    } else if c == '5' {
        5
    } else if c == '6' {
        6
    } else if c == '7' {
        7
    } else if c == '8' {
        8
    } else {
        9
    }
}

/// Every character of `s` is a decimal digit.
pub open spec fn all_digits(s: Seq<char>) -> bool {
    forall|i: int| 0 <= i < s.len() ==> is_digit(s[i])
}

/// Value of a digit string read in base ten.
pub open spec fn digits_val(s: Seq<char>) -> nat
    decreases s.len(),
{
    if s.len() == 0 {
        0
    } else {
        digits_val(s.drop_last()) * 10 + digit_of(s.last())
    }
}

/// The digit part of a port value: everything after an optional leading `+`.
pub open spec fn port_digits(s: Seq<char>) -> Seq<char> {
    if s.len() > 0 && s[0] == '+' {
        s.drop_first()
    } else {
        s
    }
}

/// How the port value parses as an unsigned 16-bit integer: an optional `+`
/// sign, at least one digit, and a value of at most 65535.
pub open spec fn spec_parse_u16(s: Seq<char>) -> Option<u16> {
    let d = port_digits(s);
    if d.len() > 0 && all_digits(d) && digits_val(d) <= 65535 {
        Some(digits_val(d) as u16)
    } else {
        None
    }
}

/// A digit string's value only grows as more digits are read.
proof fn lemma_digits_val_mono(s: Seq<char>, i: int)
    requires
        0 <= i <= s.len(),
    ensures
        digits_val(s.take(i)) <= digits_val(s),
    decreases s.len() - i,
{
    if i == s.len() {
        assert(s.take(i) =~= s);
    } else {
        assert(s.take(i + 1).drop_last() =~= s.take(i));
        assert(s.take(i + 1).last() == s[i]);
        assert(digits_val(s.take(i)) <= digits_val(s.take(i)) * 10 + digit_of(s[i]));
        lemma_digits_val_mono(s, i + 1);
    }
}

/// Value of a decimal digit character, or `None` when it is not one.
fn digit_val(c: char) -> (r: Option<u8>)
    ensures
        match r {
            Some(d) => is_digit(c) && d as nat == digit_of(c),
            None => !is_digit(c),
        },
{
    if c == '0' {
        Some(0)
    } else if c == '1' {
        Some(1)
    } else if c == '2' {
        Some(2)
    } else if c == '3' {
        Some(3)
    } else if c == '4' {
        Some(4)
    } else if c == '5' {
        Some(5)
    } else if c == '6' {
        Some(6)
    } else if c == '7' {
        Some(7)
    } else if c == '8' {
        Some(8)
    } else if c == '9' {
        Some(9)
    } else {
        None
    }
}

/// Parses `v` as an unsigned 16-bit integer, as `spec_parse_u16` says.
pub fn parse_u16_chars(v: &Vec<char>) -> (r: Option<u16>)
    ensures
        r == spec_parse_u16(v@),
{
    let start: usize = if v.len() > 0 && v[0] == '+' {
        1
    } else {
        0
    };
    let ghost d = if start == 1 {
        v@.drop_first()
    } else {
        v@
    };
    proof {
        if start == 1 {
            assert(forall|k: int| 0 <= k < d.len() ==> d[k] == v@[k + 1]);
        }
        assert(d.len() == v@.len() - start);
    }
    if v.len() == start {
        return None;
    }
    let mut val: u32 = 0;
    let mut k: usize = start;
    while k < v.len()
        invariant
            start <= k <= v@.len(),
            start <= 1,
            d == port_digits(v@),
            d.len() == v@.len() - start,
            forall|m: int| 0 <= m < d.len() ==> d[m] == v@[m + start],
            val <= 65535,
            val as nat == digits_val(d.take(k - start)),
            forall|m: int| 0 <= m < k - start ==> is_digit(d[m]),
        decreases v@.len() - k,
    {
        let ghost i = k - start;
        match digit_val(v[k]) {
            None => {
                proof {
                    assert(d[i] == v@[k as int]);
                    assert(!is_digit(d[i]));
                    assert(!all_digits(d));
                }
                return None;
            },
            Some(dg) => {
                proof {
                    assert(d[i] == v@[k as int]);
                    assert(d.take(i + 1).drop_last() =~= d.take(i));
                    assert(d.take(i + 1).last() == d[i]);
                    assert(digits_val(d.take(i + 1)) == digits_val(d.take(i)) * 10 + digit_of(
                        d[i],
                    ));
                }
                let next: u32 = val * 10 + (dg as u32);
                if next > 65535 {
                    proof {
                        assert(digits_val(d.take(i + 1)) == next as nat);
                        lemma_digits_val_mono(d, i + 1);
                        assert(digits_val(d) > 65535);
                    }
                    return None;
                }
                val = next;
                k = k + 1;
            },
        }
    }
    proof {
        assert(d.take(d.len() as int) =~= d);
    }
    Some(val as u16)
}

/// Effect of one recognized `key = value` pair on the scan state: known keys
/// overwrite their field, the port key must parse, unknown keys do nothing.
pub open spec fn spec_apply_kv(st: RawView, k: Seq<char>, v: Seq<char>) -> Result<
    RawView,
    ParseError,
> {
    if k == "GOOGLE_OAUTH_CLIENT_ID"@ {
        Ok(RawView { client_id: Some(v), ..st })
    } else if k == "GOOGLE_OAUTH_CLIENT_SECRET"@ {
        Ok(RawView { client_secret: Some(v), ..st })
    } else if k == "EMAIL_SMTP_HOST"@ {
        Ok(RawView { smtp_host: Some(v), ..st })
    } else if k == "EMAIL_SMTP_PORT"@ {
        match spec_parse_u16(v) {
            Some(p) => Ok(RawView { smtp_port: Some(p), ..st }),
            None => Err(ParseError::InvalidPort),
        }
    } else if k == "EMAIL_SMTP_USERNAME"@ {
        Ok(RawView { smtp_username: Some(v), ..st })
    } else if k == "EMAIL_SMTP_PASSWORD"@ {
        Ok(RawView { smtp_password: Some(v), ..st })
    } else if k == "EMAIL_SENDER_NAME"@ {
        Ok(RawView { sender_name: Some(v), ..st })
    } else if k == "EMAIL_SENDER_ADDRESS"@ {
        Ok(RawView { sender_address: Some(v), ..st })
    } else {
        Ok(st)
    }
}

/// Effect of one input line on the scan state: trim it, skip blanks and `#`
/// comments, ignore lines without `=`, otherwise split at the first `=` and
/// apply the trimmed key and value.
pub open spec fn spec_apply_line(st: RawView, line: Seq<char>) -> Result<RawView, ParseError> {
    let t = spec_trim(line);
    if t.len() == 0 || t[0] == '#' {
        Ok(st)
    } else {
        match spec_find(t, '=') {
            None => Ok(st),
            Some(i) => spec_apply_kv(st, spec_trim(t.take(i)), spec_trim(t.skip(i + 1))),
        }
    }
}

/// Scan of the whole input: lines are the segments between newline
/// characters, processed in order; the first port failure aborts.
pub open spec fn spec_scan(st: RawView, s: Seq<char>) -> Result<RawView, ParseError>
    decreases s.len(),
{
    if s.len() == 0 {
        Ok(st)
    } else {
        match spec_find(s, '\n') {
            None => spec_apply_line(st, s),
            Some(i) => if 0 <= i < s.len() {
                match spec_apply_line(st, s.take(i)) {
                    Ok(st2) => spec_scan(st2, s.skip(i + 1)),
                    Err(e) => Err(e),
                }
            } else {
                Ok(st)
            },
        }
    }
}

/// Validation of the scanned state against the active required-field set:
/// the OAuth pair is always required; the e-mail group is required when
/// `require_email` holds and is otherwise left absent. The first missing
/// field, in the fixed field order, is reported.
pub open spec fn spec_validate(raw: RawView, require_email: bool) -> Result<
    SettingsView,
    ParseError,
> {
    match raw.client_id {
        None => Err(ParseError::MissingField(Field::ClientId)),
        Some(cid) => match raw.client_secret {
            None => Err(ParseError::MissingField(Field::ClientSecret)),
            Some(cs) => if !require_email {
                Ok(SettingsView { client_id: cid, client_secret: cs, email: None })
            } else {
                match raw.smtp_host {
                    None => Err(ParseError::MissingField(Field::SmtpHost)),
                    Some(h) => match raw.smtp_port {
                        None => Err(ParseError::MissingField(Field::SmtpPort)),
                        Some(p) => match raw.smtp_username {
                            None => Err(ParseError::MissingField(Field::SmtpUsername)),
                            Some(u) => match raw.smtp_password {
                                None => Err(ParseError::MissingField(Field::SmtpPassword)),
                                Some(pw) => match raw.sender_name {
                                    None => Err(ParseError::MissingField(Field::SenderName)),
                                    Some(n) => match raw.sender_address {
                                        None => Err(
                                            ParseError::MissingField(Field::SenderAddress),
                                        ),
                                        Some(a) => Ok(
                                            SettingsView {
                                                client_id: cid,
                                                client_secret: cs,
                                                email: Some(
                                                    EmailView {
                                                        smtp_host: h,
                                                        smtp_port: p,
                                                        smtp_username: u,
                                                        smtp_password: pw,
                                                        sender_name: n,
                                                        sender_address: a,
                                                    },
                                                ),
                                            },
                                        ),
                                    },
                                },
                            },
                        },
                    },
                }
            },
        },
    }
}

/// The full parse: scan every line, fail on the first invalid port value,
/// and check the required fields.
pub open spec fn spec_parse(s: Seq<char>, require_email: bool) -> Result<
    SettingsView,
    ParseError,
> {
    match spec_scan(raw_empty(), s) {
        Err(e) => Err(e),
        Ok(raw) => spec_validate(raw, require_email),
    }
}

/// Applies one line to the scan state, as `spec_apply_line` says.
fn apply_line_exec(st: &mut RawState, line: &Vec<char>) -> (r: Result<(), ParseError>)
    ensures
        match r {
            Ok(_) => spec_apply_line(old(st)@, line@) == Ok::<RawView, ParseError>(final(st)@),
            Err(e) => spec_apply_line(old(st)@, line@) == Err::<RawView, ParseError>(e),
        },
{
    let t = trim_vec(line);
    if t.len() == 0 {
        return Ok(());
    }
    if t[0] == '#' {
        return Ok(());
    }
    match find_char(&t, 0, '=') {
        None => {
            proof {
                lemma_find_absent(t@, '=');
            }
            Ok(())
        },
        Some(j) => {
            proof {
                lemma_find_at(t@, '=', j as int);
            }
            let before = subvec(&t, 0, j);
            let after = subvec(&t, j + 1, t.len());
            let key = trim_vec(&before);
            let val = trim_vec(&after);
            proof {
                assert(before@ =~= t@.take(j as int));
                assert(after@ =~= t@.skip(j + 1));
            }
            if chars_eq_str(&key, "GOOGLE_OAUTH_CLIENT_ID") {
                st.client_id = Some(val);
                Ok(())
            } else if chars_eq_str(&key, "GOOGLE_OAUTH_CLIENT_SECRET") {
                st.client_secret = Some(val);
                Ok(())
            } else if chars_eq_str(&key, "EMAIL_SMTP_HOST") {
                st.smtp_host = Some(val);
                Ok(())
            } else if chars_eq_str(&key, "EMAIL_SMTP_PORT") {
                match parse_u16_chars(&val) {
                    Some(p) => {
                        st.smtp_port = Some(p);
                        Ok(())
                    },
                    None => Err(ParseError::InvalidPort),
                }
            } else if chars_eq_str(&key, "EMAIL_SMTP_USERNAME") {
                st.smtp_username = Some(val);
                Ok(())
            } else if chars_eq_str(&key, "EMAIL_SMTP_PASSWORD") {
                st.smtp_password = Some(val);
                Ok(())
            } else if chars_eq_str(&key, "EMAIL_SENDER_NAME") {
                st.sender_name = Some(val);
                Ok(())
            } else if chars_eq_str(&key, "EMAIL_SENDER_ADDRESS") {
                st.sender_address = Some(val);
                Ok(())
            } else {
                Ok(())
            }
        },
    }
}

/// Checks the required fields and builds the settings record, as
/// `spec_validate` says.
fn validate_exec(st: RawState, require_email: bool) -> (r: Result<AuthnData, ParseError>)
    ensures
        match r {
            Ok(d) => spec_validate(st@, require_email) == Ok::<SettingsView, ParseError>(d@),
            Err(e) => spec_validate(st@, require_email) == Err::<SettingsView, ParseError>(e),
        },
{
    let cid = match st.client_id {
        None => {
            return Err(ParseError::MissingField(Field::ClientId));
        },
        Some(v) => from_chars(&v),
    };
    let cs = match st.client_secret {
        None => {
            return Err(ParseError::MissingField(Field::ClientSecret));
        },
        Some(v) => from_chars(&v),
    };
    if !require_email {
        return Ok(AuthnData { client_id: cid, client_secret: cs, email: None });
    }
    let h = match st.smtp_host {
        None => {
            return Err(ParseError::MissingField(Field::SmtpHost));
        },
        Some(v) => from_chars(&v),
    };
    let p = match st.smtp_port {
        None => {
            return Err(ParseError::MissingField(Field::SmtpPort));
        },
        Some(p) => p,
    };
    let u = match st.smtp_username {
        None => {
            return Err(ParseError::MissingField(Field::SmtpUsername));
        },
        Some(v) => from_chars(&v),
    };
    let pw = match st.smtp_password {
        None => {
            return Err(ParseError::MissingField(Field::SmtpPassword));
        },
        Some(v) => from_chars(&v),
    };
    let n = match st.sender_name {
        None => {
            return Err(ParseError::MissingField(Field::SenderName));
        },
        Some(v) => from_chars(&v),
    };
    let a = match st.sender_address {
        None => {
            return Err(ParseError::MissingField(Field::SenderAddress));
        },
        Some(v) => from_chars(&v),
    };
    Ok(
        AuthnData {
            client_id: cid,
            client_secret: cs,
            email: Some(
                EmailConfig {
                    smtp_host: h,
                    smtp_port: p,
                    smtp_username: u,
                    smtp_password: pw,
                    sender_name: n,
                    sender_address: a,
                },
            ),
        },
    )
}

/// Parses the settings text under the given required-field configuration:
/// the OAuth pair is always required, the e-mail group only when
/// `require_email` holds.
pub fn parse_settings(content: &str, require_email: bool) -> (r: Result<AuthnData, ParseError>)
    ensures
        match r {
            Ok(d) => spec_parse(content@, require_email) == Ok::<SettingsView, ParseError>(d@),
            Err(e) => spec_parse(content@, require_email) == Err::<SettingsView, ParseError>(e),
        },
{
    let v = to_chars(content);
    let mut st = RawState {
        client_id: None,
        client_secret: None,
        smtp_host: None,
        smtp_port: None,
        smtp_username: None,
        smtp_password: None,
        sender_name: None,
        sender_address: None,
    };
    let mut pos: usize = 0;
    proof {
        assert(st@ == raw_empty());
        assert(v@.skip(0) =~= v@);
    }
    while pos < v.len()
        invariant
            pos <= v@.len(),
            v@ == content@,
            spec_scan(raw_empty(), content@) == spec_scan(st@, v@.skip(pos as int)),
        decreases v@.len() - pos,
    {
        let ghost tail = v@.skip(pos as int);
        proof {
            assert(forall|k: int| 0 <= k < tail.len() ==> tail[k] == v@[k + pos]);
        }
        match find_char(&v, pos, '\n') {
            Some(nl) => {
                proof {
                    lemma_find_at(tail, '\n', nl - pos);
                }
                let line = subvec(&v, pos, nl);
                proof {
                    assert(line@ =~= tail.take(nl - pos));
                }
                match apply_line_exec(&mut st, &line) {
                    Ok(_) => {
                        proof {
                            assert(v@.skip(nl + 1) =~= tail.skip(nl - pos + 1));
                        }
                        pos = nl + 1;
                    },
                    Err(e) => {
                        return Err(e);
                    },
                }
            },
            None => {
                proof {
                    lemma_find_absent(tail, '\n');
                }
                let line = subvec(&v, pos, v.len());
                proof {
                    assert(line@ =~= tail);
                }
                match apply_line_exec(&mut st, &line) {
                    Ok(_) => {
                        proof {
                            assert(v@.skip(v@.len() as int) =~= Seq::<char>::empty());
                        }
                        pos = v.len();
                    },
                    Err(e) => {
                        return Err(e);
                    },
                }
            },
        }
    }
    proof {
        assert(v@.skip(pos as int) =~= Seq::<char>::empty());
    }
    validate_exec(st, require_email)
}

/// Parses the settings text of the richest variant, where the OAuth pair and
/// the whole e-mail group are required.
pub fn parse_authn_file(content: &str) -> (r: Result<AuthnData, ParseError>)
    ensures
        match r {
            Ok(d) => spec_parse(content@, true) == Ok::<SettingsView, ParseError>(d@),
            Err(e) => spec_parse(content@, true) == Err::<SettingsView, ParseError>(e),
        },
{
    parse_settings(content, true)
}

/// Whether a field belongs to the active required set: the OAuth pair is
/// always required; the e-mail group only when `require_email` holds.
pub open spec fn field_required(f: Field, require_email: bool) -> bool {
    match f {
        Field::ClientId => true,
        Field::ClientSecret => true,
        _ => require_email,
    }
}

/// Whether the scan saw a value for the field.
pub open spec fn field_present(raw: RawView, f: Field) -> bool {
    match f {
        Field::ClientId => raw.client_id is Some,
        Field::ClientSecret => raw.client_secret is Some,
        Field::SmtpHost => raw.smtp_host is Some,
        Field::SmtpPort => raw.smtp_port is Some,
        Field::SmtpUsername => raw.smtp_username is Some,
        Field::SmtpPassword => raw.smtp_password is Some,
        Field::SenderName => raw.sender_name is Some,
        Field::SenderAddress => raw.sender_address is Some,
    }
}

/// Required-field rejection: validation succeeds exactly when every field of
/// the active required set was seen; otherwise it reports a field that is
/// both required and missing, and never anything else.
pub proof fn lemma_validate_exact(raw: RawView, require_email: bool)
    ensures
        (spec_validate(raw, require_email) is Ok) <==> (forall|f: Field|
            field_required(f, require_email) ==> field_present(raw, f)),
        spec_validate(raw, require_email) matches Err(e) ==> (e matches ParseError::MissingField(
            f,
        ) && field_required(f, require_email) && !field_present(raw, f)),
{
    if forall|f: Field| field_required(f, require_email) ==> field_present(raw, f) {
        assert(field_present(raw, Field::ClientId));
        assert(field_present(raw, Field::ClientSecret));
        if require_email {
            assert(field_present(raw, Field::SmtpHost));
            assert(field_present(raw, Field::SmtpPort));
            assert(field_present(raw, Field::SmtpUsername));
            assert(field_present(raw, Field::SmtpPassword));
            assert(field_present(raw, Field::SenderName));
            assert(field_present(raw, Field::SenderAddress));
        }
        assert(spec_validate(raw, require_email) is Ok);
    }
    if spec_validate(raw, require_email) is Ok {
        assert forall|f: Field| field_required(f, require_email) implies field_present(
            raw,
            f,
        ) by {
            match f {
                Field::ClientId => {},
                Field::ClientSecret => {},
                Field::SmtpHost => {},
                Field::SmtpPort => {},
                Field::SmtpUsername => {},
                Field::SmtpPassword => {},
                Field::SenderName => {},
                Field::SenderAddress => {},
            }
        }
    }
}

/// Numeric validation: applying a `key = value` pair fails exactly when the
/// key is the port field's and the value does not parse as an unsigned
/// 16-bit integer; the error names that field and no other condition
/// produces it.
pub proof fn lemma_port_rejection(st: RawView, k: Seq<char>, v: Seq<char>)
    ensures
        (spec_apply_kv(st, k, v) == Err::<RawView, ParseError>(ParseError::InvalidPort)) <==> (k
            == "EMAIL_SMTP_PORT"@ && spec_parse_u16(v) is None),
        spec_error_message(ParseError::InvalidPort).subrange(7, 22)
            == spec_field_name(Field::SmtpPort),
{
    reveal_strlit("GOOGLE_OAUTH_CLIENT_ID");
    reveal_strlit("GOOGLE_OAUTH_CLIENT_SECRET");
    reveal_strlit("EMAIL_SMTP_HOST");
    reveal_strlit("EMAIL_SMTP_PORT");
    reveal_strlit("Error: EMAIL_SMTP_PORT must be a valid number");
    assert("GOOGLE_OAUTH_CLIENT_ID"@.len() == 22);
    assert("GOOGLE_OAUTH_CLIENT_SECRET"@.len() == 26);
    assert("EMAIL_SMTP_HOST"@.len() == 15);
    assert("EMAIL_SMTP_PORT"@.len() == 15);
    assert("EMAIL_SMTP_HOST"@[11] == 'H');
    assert("EMAIL_SMTP_PORT"@[11] == 'P');
    assert("EMAIL_SMTP_HOST"@ != "EMAIL_SMTP_PORT"@);
    assert(spec_error_message(ParseError::InvalidPort).subrange(7, 22) =~= spec_field_name(
        Field::SmtpPort,
    ));
}

/// Input-text name of a required field, as it appears as a key.
pub open spec fn spec_field_name(f: Field) -> Seq<char> {
    match f {
        Field::ClientId => "GOOGLE_OAUTH_CLIENT_ID"@,
        Field::ClientSecret => "GOOGLE_OAUTH_CLIENT_SECRET"@,
        Field::SmtpHost => "EMAIL_SMTP_HOST"@,
        Field::SmtpPort => "EMAIL_SMTP_PORT"@,
        Field::SmtpUsername => "EMAIL_SMTP_USERNAME"@,
        Field::SmtpPassword => "EMAIL_SMTP_PASSWORD"@,
        Field::SenderName => "EMAIL_SENDER_NAME"@,
        Field::SenderAddress => "EMAIL_SENDER_ADDRESS"@,
    }
}

/// The message reported for a fatal parse error; it names the failing field.
pub open spec fn spec_error_message(e: ParseError) -> Seq<char> {
    match e {
        ParseError::InvalidPort => "Error: EMAIL_SMTP_PORT must be a valid number"@,
        ParseError::MissingField(f) => "Error: "@ + spec_field_name(f)
            + " not found in authn file"@,
    }
}

impl Field {
    /// The field's key in the settings input.
    pub fn name(&self) -> (r: &'static str)
        ensures
            r@ == spec_field_name(*self),
    {
        match self {
            Field::ClientId => "GOOGLE_OAUTH_CLIENT_ID",
            Field::ClientSecret => "GOOGLE_OAUTH_CLIENT_SECRET",
            Field::SmtpHost => "EMAIL_SMTP_HOST",
            Field::SmtpPort => "EMAIL_SMTP_PORT",
            Field::SmtpUsername => "EMAIL_SMTP_USERNAME",
            Field::SmtpPassword => "EMAIL_SMTP_PASSWORD",
            Field::SenderName => "EMAIL_SENDER_NAME",
            Field::SenderAddress => "EMAIL_SENDER_ADDRESS",
        }
    }
}

impl ParseError {
    /// The error message, naming the failing field.
    pub fn message(&self) -> (r: String)
        ensures
            r@ == spec_error_message(*self),
    {
        match self {
            ParseError::InvalidPort => {
                let mut out: Vec<char> = Vec::new();
                append_str(&mut out, "Error: EMAIL_SMTP_PORT must be a valid number");
                proof {
                    assert(Seq::<char>::empty() + "Error: EMAIL_SMTP_PORT must be a valid number"@
                        =~= "Error: EMAIL_SMTP_PORT must be a valid number"@);
                }
                from_chars(&out)
            },
            ParseError::MissingField(f) => {
                let mut out: Vec<char> = Vec::new();
                append_str(&mut out, "Error: ");
                append_str(&mut out, f.name());
                append_str(&mut out, " not found in authn file");
                proof {
                    assert(Seq::<char>::empty() + "Error: "@ + spec_field_name(*f)
                        + " not found in authn file"@ =~= "Error: "@ + spec_field_name(*f)
                        + " not found in authn file"@);
                }
                from_chars(&out)
            },
        }
    }
}

} // verus!
