//! Hosted provider logic: everything about the HTTP endpoint's requests and
//! responses that is computation on plain values.  The transport itself
//! (client, authentication, the actual requests) lives outside; it hands in
//! status codes and body bytes.  Base64 decoding goes through the `base64`
//! crate, whose result is named rather than respecified.

use vstd::prelude::*;

#[allow(unused_imports)]
use base64::Engine;

verus! {

use vstd::string::StringExecFns;
use vstd::utf8::{valid_utf8, decode_utf8};
use crate::folder::{key_lm_bytes, key_dn_bytes, parse_meta, parse_meta_spec};
use crate::jsontext::{ascii_bytes, str_ascii_bytes, parse_object, parse_object_exec,
    member_lookup, lookup_member, JsonMember, members_view};
use crate::provider::{ConfigSnapshot, ProviderError, SyncMeta};
use crate::strutil::{dec_chars, u32_dec_string, copy_bytes, string_from_utf8};
use crate::time::{UtcTime, parse_iso_spec, parse_iso};

/// The hosted variant: endpoint, credential, and this device's name.
pub struct HostedProvider {
    pub api_url: String,
    pub api_key: String,
    pub device_name: String,
}

impl HostedProvider {
    pub fn new(api_url: String, api_key: String, device_name: String) -> (p: HostedProvider)
        ensures
            p.api_url == api_url,
            p.api_key == api_key,
            p.device_name == device_name,
    {
        HostedProvider { api_url, api_key, device_name }
    }

    /// The endpoint for push and pull.
    pub fn sync_url(&self) -> (u: String)
        ensures
            u@ == self.api_url@ + "/sync"@,
    {
        let mut u = self.api_url.clone();
        u.append("/sync");
        u
    }

    /// The metadata-only endpoint.
    pub fn meta_url(&self) -> (u: String)
        ensures
            u@ == self.api_url@ + "/sync/meta"@,
    {
        let mut u = self.api_url.clone();
        u.append("/sync/meta");
        u
    }
}

/// A 2xx status.
pub open spec fn is_success_status(code: u16) -> bool {
    200 <= code <= 299
}

/// The message reported for a non-2xx status.
pub open spec fn http_error_chars(code: u16) -> Seq<char> {
    "HTTP "@ + dec_chars(code as int)
}

fn http_error_message(code: u16) -> (s: String)
    ensures
        s@ == http_error_chars(code),
{
    let mut s = String::from_str("HTTP ");
    let d = u32_dec_string(code as u32);
    s.append(d.as_str());
    s
}

/// Interpret the status of a push request.
pub fn push_response(status: u16) -> (r: Result<(), ProviderError>)
    ensures
        is_success_status(status) ==> r is Ok,
        !is_success_status(status) ==> (r matches Err(ProviderError::Other(msg)) && msg@
            == http_error_chars(status)),
{
    if 200 <= status && status <= 299 {
        Ok(())
    } else {
        Err(ProviderError::Other(http_error_message(status)))
    }
}

/// The pull body's `db` key.
pub open spec fn key_db_bytes() -> Seq<u8> {
    ascii_bytes("db"@)
}

/// The pull body's `db_shm` key.
pub open spec fn key_shm_bytes() -> Seq<u8> {
    ascii_bytes("db_shm"@)
}

/// The pull body's `db_wal` key.
pub open spec fn key_wal_bytes() -> Seq<u8> {
    ascii_bytes("db_wal"@)
}

/// What the `base64` crate's standard-alphabet decode returns for these
/// bytes: a function of the input alone, so it carries a name and no
/// further description.
pub uninterp spec fn base64_decoding(s: Seq<u8>) -> Option<Seq<u8>>;

/// Relies on `base64::engine::general_purpose::STANDARD.decode`: the result
/// depends on the input bytes alone.
#[verifier::external_body]
fn b64_decode(s: &Vec<u8>) -> (r: Option<Vec<u8>>)
    ensures
        r is Some <==> base64_decoding(s@) is Some,
        r matches Some(v) ==> base64_decoding(s@) == Some(v@),
{
    match base64::engine::general_purpose::STANDARD.decode(s.as_slice()) {
        Ok(v) => Some(v),
        Err(_) => None,
    }
}

/// An optional sidecar field: absent, `null`, or the empty string all mean
/// no sidecar; anything else must decode.  `None` means a decode failure.
pub open spec fn sidecar_field_spec(
    ms: Seq<(Seq<u8>, Option<Seq<u8>>)>,
    key: Seq<u8>,
) -> Option<Option<Seq<u8>>> {
    match member_lookup(ms, key) {
        None => Some(None),
        Some(None) => Some(None),
        Some(Some(b)) => if b.len() == 0 {
            Some(None)
        } else {
            match base64_decoding(b) {
                Some(v) => Some(Some(v)),
                None => None,
            }
        },
    }
}

fn sidecar_field(ms: &Vec<JsonMember>, key: &[u8]) -> (r: Option<Option<Vec<u8>>>)
    ensures
        r is Some <==> sidecar_field_spec(members_view(ms@), key@) is Some,
        r matches Some(v) ==> sidecar_field_spec(members_view(ms@), key@) == Some(
            match v {
                Some(b) => Some(b@),
                None => None::<Seq<u8>>,
            },
        ),
{
    match lookup_member(ms, key) {
        None => Some(None),
        Some(m) => match &m.value {
            None => Some(None),
            Some(b) => {
                if b.len() == 0 {
                    Some(None)
                } else {
                    match b64_decode(b) {
                        Some(v) => Some(Some(v)),
                        None => None,
                    }
                }
            },
        },
    }
}

/// What a successful pull body decodes to: database bytes, sidecars,
/// instant, device name.
pub open spec fn pull_body_spec(s: Seq<u8>) -> Option<
    (Seq<u8>, Option<Seq<u8>>, Option<Seq<u8>>, UtcTime, Seq<char>),
> {
    match parse_object(s) {
        None => None,
        Some(ms) => match member_lookup(ms, key_db_bytes()) {
            Some(Some(dbb)) => match base64_decoding(dbb) {
                Some(db) => match sidecar_field_spec(ms, key_shm_bytes()) {
                    Some(shm) => match sidecar_field_spec(ms, key_wal_bytes()) {
                        Some(wal) => match member_lookup(ms, key_lm_bytes()) {
                            Some(Some(lmb)) => match parse_iso_spec(lmb) {
                                Some(t) => match member_lookup(ms, key_dn_bytes()) {
                                    Some(Some(dnb)) => if valid_utf8(dnb) {
                                        Some((db, shm, wal, t, decode_utf8(dnb)))
                                    } else {
                                        None
                                    },
                                    _ => None,
                                },
                                None => None,
                            },
                            _ => None,
                        },
                        None => None,
                    },
                    None => None,
                },
                None => None,
            },
            _ => None,
        },
    }
}

proof fn lemma_hosted_key_literals()
    ensures
        vstd::string::is_ascii("db"),
        vstd::string::is_ascii("db_shm"),
        vstd::string::is_ascii("db_wal"),
        vstd::string::is_ascii("last_modified"),
        vstd::string::is_ascii("device_name"),
{
    reveal_strlit("db");
    reveal_strlit("db_shm");
    reveal_strlit("db_wal");
    reveal_strlit("last_modified");
    reveal_strlit("device_name");
    assert(vstd::string::is_ascii("db"));
    assert(vstd::string::is_ascii("db_shm"));
    assert(vstd::string::is_ascii("db_wal"));
    assert(vstd::string::is_ascii("last_modified"));
    assert(vstd::string::is_ascii("device_name"));
}

/// Interpret a pull response: status gating, then body decoding.
pub fn pull_from_response(status: u16, body: &Vec<u8>) -> (r: Result<
    ConfigSnapshot,
    ProviderError,
>)
    ensures
        status == 404 ==> r matches Err(ProviderError::NotFound),
        status != 404 && !is_success_status(status) ==> (r matches Err(
            ProviderError::Other(msg),
        ) && msg@ == http_error_chars(status)),
        status != 404 && is_success_status(status) && pull_body_spec(body@) is None ==> (r
            matches Err(ProviderError::Other(_))),
        status != 404 && is_success_status(status) && pull_body_spec(body@) is Some ==> (r
            matches Ok(s) && {
            let (db, shm, wal, t, dev) = pull_body_spec(body@)->0;
            &&& s.db@ == db
            &&& s.shm_view() == shm
            &&& s.wal_view() == wal
            &&& s.meta.last_modified == t
            &&& s.meta.device_name@ == dev
        }),
{
    proof {
        lemma_hosted_key_literals();
        reveal_strlit("invalid sync response body");
    }
    if status == 404 {
        return Err(ProviderError::NotFound);
    }
    if !(200 <= status && status <= 299) {
        return Err(ProviderError::Other(http_error_message(status)));
    }
    let ms = match parse_object_exec(body) {
        Some(ms) => ms,
        None => {
            return Err(ProviderError::Other(String::from_str("invalid sync response body")));
        },
    };
    let dbb = match lookup_member(&ms, str_ascii_bytes("db")) {
        Some(m) => match &m.value {
            Some(v) => v,
            None => {
                return Err(ProviderError::Other(String::from_str("invalid sync response body")));
            },
        },
        None => {
            return Err(ProviderError::Other(String::from_str("invalid sync response body")));
        },
    };
    let db = match b64_decode(dbb) {
        Some(v) => v,
        None => {
            return Err(ProviderError::Other(String::from_str("invalid sync response body")));
        },
    };
    let db_shm = match sidecar_field(&ms, str_ascii_bytes("db_shm")) {
        Some(v) => v,
        None => {
            return Err(ProviderError::Other(String::from_str("invalid sync response body")));
        },
    };
    let db_wal = match sidecar_field(&ms, str_ascii_bytes("db_wal")) {
        Some(v) => v,
        None => {
            return Err(ProviderError::Other(String::from_str("invalid sync response body")));
        },
    };
    let t = match lookup_member(&ms, str_ascii_bytes("last_modified")) {
        Some(m) => match &m.value {
            Some(v) => match parse_iso(v) {
                Some(t) => t,
                None => {
                    return Err(
                        ProviderError::Other(String::from_str("invalid sync response body")),
                    );
                },
            },
            None => {
                return Err(ProviderError::Other(String::from_str("invalid sync response body")));
            },
        },
        None => {
            return Err(ProviderError::Other(String::from_str("invalid sync response body")));
        },
    };
    let name = match lookup_member(&ms, str_ascii_bytes("device_name")) {
        Some(m) => match &m.value {
            Some(v) => match string_from_utf8(copy_bytes(v)) {
                Some(s) => s,
                None => {
                    return Err(
                        ProviderError::Other(String::from_str("invalid sync response body")),
                    );
                },
            },
            None => {
                return Err(ProviderError::Other(String::from_str("invalid sync response body")));
            },
        },
        None => {
            return Err(ProviderError::Other(String::from_str("invalid sync response body")));
        },
    };
    Ok(
        ConfigSnapshot {
            db,
            db_shm,
            db_wal,
            meta: SyncMeta { last_modified: t, device_name: name },
        },
    )
}

/// Interpret a metadata response: status gating, then the same metadata
/// document the folder layout uses.
pub fn meta_from_response(status: u16, body: &Vec<u8>) -> (r: Result<SyncMeta, ProviderError>)
    ensures
        status == 404 ==> r matches Err(ProviderError::NotFound),
        status != 404 && !is_success_status(status) ==> (r matches Err(
            ProviderError::Other(msg),
        ) && msg@ == http_error_chars(status)),
        status != 404 && is_success_status(status) && parse_meta_spec(body@) is None ==> (r
            matches Err(ProviderError::Other(_))),
        status != 404 && is_success_status(status) && parse_meta_spec(body@) is Some ==> (r
            matches Ok(m) && parse_meta_spec(body@) == Some((m.last_modified, m.device_name@))),
{
    proof {
        reveal_strlit("invalid sync response body");
    }
    if status == 404 {
        return Err(ProviderError::NotFound);
    }
    if !(200 <= status && status <= 299) {
        return Err(ProviderError::Other(http_error_message(status)));
    }
    match parse_meta(body) {
        Some(m) => Ok(m),
        None => Err(ProviderError::Other(String::from_str("invalid sync response body"))),
    }
}

} // verus!
