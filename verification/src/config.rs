//! The configuration record: one YAML document with a single recognized
//! field, `httpPort`, the TCP port of the supervised process's control HTTP
//! server. Unrecognized fields are ignored; a missing or undecodable field
//! means no configuration is produced.

use vstd::prelude::*;

verus! {

/// The one configuration record, loaded once at startup and immutable
/// thereafter.
#[derive(Clone, Copy, Debug, PartialEq, Eq, Structural)]
pub struct Config {
    pub http_port: u16,
}

/// The 16-bit unsigned integer stored under `key` in the YAML document
/// `doc`, if `doc` decodes as YAML, holds a mapping with that key, and the
/// value there is an integer that fits; what it is for a given document is
/// decided by the YAML decoder alone.
pub uninterp spec fn yaml_u16_field(doc: Seq<char>, key: Seq<char>) -> Option<u16>;

/// Relies on serde_yaml::from_str (decoding a YAML document into a
/// serde_yaml::Value), serde_yaml::Value::get (map lookup by string key) and
/// serde_yaml::Value::as_u64 (the value as an unsigned integer, if it is
/// one): the decoded field depends on the document text and the key alone.
#[verifier::external_body]
fn decode_u16_field(doc: &str, key: &str) -> (r: Option<u16>)
    ensures
        r == yaml_u16_field(doc@, key@),
{
    let v: serde_yaml::Value = match serde_yaml::from_str(doc) {
        Ok(v) => v,
        Err(_) => return None,
    };
    let f = match v.get(key) {
        Some(f) => f,
        None => return None,
    };
    match f.as_u64() {
        Some(n) => u16::try_from(n).ok(),
        None => None,
    }
}

/// Loads the configuration from the text of the configuration file: the
/// produced record's `http_port` is exactly the decoded `httpPort` field,
/// and no record is produced when that field is missing or malformed.
pub fn load_config(doc: &str) -> (r: Option<Config>)
    ensures
        match yaml_u16_field(doc@, "httpPort"@) {
            Some(p) => r == Some(Config { http_port: p }),
            None => r is None,
        },
{
    match decode_u16_field(doc, "httpPort") {
        Some(p) => Some(Config { http_port: p }),
        None => None,
    }
}

} // verus!
