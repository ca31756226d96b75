//! Generates a deployable server configuration from a template and a
//! line-oriented settings file, splitting the result into two documents: a
//! sanitized public configuration, in which every secret-classified field is
//! represented by a fixed redaction marker, and a separate secrets vault
//! holding exactly the secret-classified values under stable identifiers.
//!
//! The modules follow the pipeline: `parse` builds the validated settings
//! record, `template` materializes the public configuration against it, and
//! `vault` emits the secrets document; `text` and `replace` hold the shared
//! character-sequence machinery. `generate_documents` runs the whole
//! pipeline on in-memory text; reading inputs and committing the two
//! outputs to disk is the caller's business, and nothing is handed out
//! unless both documents were produced.

use vstd::prelude::*;

pub mod parse;
pub mod replace;
pub mod template;
pub mod text;
pub mod vault;

verus! {

use crate::parse::{AuthnData, ParseError, SettingsView, spec_parse, parse_settings};
use crate::template::{spec_materialize, materialize_template};
use crate::vault::{spec_vault_doc, vault_document};

/// What a completed generation returns for the given input texts: on
/// success, exactly the materialized public configuration and the vault
/// document of the parsed record; on failure, exactly the parse error, and
/// no documents.
pub open spec fn generation_post(
    template: Seq<char>,
    authn: Seq<char>,
    require_email: bool,
    r: Result<(Seq<char>, Seq<char>), ParseError>,
) -> bool {
    match r {
        Ok(docs) => match spec_parse(authn, require_email) {
            Ok(d) => docs.0 == spec_materialize(template, d) && docs.1 == spec_vault_doc(d),
            Err(_) => false,
        },
        Err(e) => spec_parse(authn, require_email) == Err::<SettingsView, ParseError>(e),
    }
}

/// Runs the whole pipeline on in-memory text: parses the settings, and only
/// when parsing succeeded produces the pair (public configuration document,
/// vault document). A validation failure yields the error and no document
/// at all.
pub fn generate_documents(template: &str, authn: &str, require_email: bool) -> (r: Result<
    (String, String),
    ParseError,
>)
    ensures
        generation_post(
            template@,
            authn@,
            require_email,
            match r {
                Ok(docs) => Ok((docs.0@, docs.1@)),
                Err(e) => Err(e),
            },
        ),
{
    let d: AuthnData = match parse_settings(authn, require_email) {
        Ok(d) => d,
        Err(e) => {
            return Err(e);
        },
    };
    let config = materialize_template(template, &d);
    let vault = vault_document(&d);
    Ok((config, vault))
}

/// Idempotence: generation is a pure function of the template text, the
/// settings text and the required-group configuration. Any two outcomes
/// that meet the generation contract for identical inputs are identical —
/// running the tool twice over the same inputs yields byte-identical
/// public and vault documents, or the same error.
pub proof fn lemma_generation_idempotent(
    template: Seq<char>,
    authn: Seq<char>,
    require_email: bool,
    r1: Result<(Seq<char>, Seq<char>), ParseError>,
    r2: Result<(Seq<char>, Seq<char>), ParseError>,
)
    requires
        generation_post(template, authn, require_email, r1),
        generation_post(template, authn, require_email, r2),
    ensures
        r1 == r2,
{
    match (r1, r2) {
        (Ok(a), Ok(b)) => {
            assert(a.0 == b.0 && a.1 == b.1);
            assert(a == b);
        },
        (Ok(_), Err(_)) => {
            assert(false);
        },
        (Err(_), Ok(_)) => {
            assert(false);
        },
        (Err(e1), Err(e2)) => {
            assert(e1 == e2);
        },
    }
}

} // verus!
