//! Folder provider: the remote is a directory that an external cloud client
//! synchronizes.  Pushing writes the triple and a `sync_meta.json`; pulling
//! reads them back.  Both sides are verified against the directory model,
//! and a pull after a push is proved to return what was pushed.

use vstd::prelude::*;

verus! {

use vstd::string::StringSliceAdditionalSpecFns;
use vstd::string::StringExecFns;
use vstd::utf8::{valid_utf8, decode_utf8, encode_utf8, encode_utf8_valid_utf8,
    encode_utf8_decode_utf8};
use crate::fsmodel::{Dir, db_name_chars, shm_name_chars, wal_name_chars, meta_name_chars,
    db_name_str, shm_name_str, wal_name_str, meta_name_str};
use crate::jsontext::{ascii_bytes, str_ascii_bytes, object_two, quoted, push_quoted,
    parse_object, parse_object_exec, member_lookup, lookup_member, lemma_parse_object_two};
use crate::provider::{ConfigSnapshot, ProviderError, SyncMeta};
use crate::strutil::{copy_bytes, string_from_utf8};
use crate::time::{UtcTime, iso_bytes, parse_iso_spec, parse_iso, render_iso,
    lemma_iso_round_trip};

/// The metadata file's `last_modified` key.
pub open spec fn key_lm_bytes() -> Seq<u8> {
    ascii_bytes("last_modified"@)
}

/// The metadata file's `device_name` key.
pub open spec fn key_dn_bytes() -> Seq<u8> {
    ascii_bytes("device_name"@)
}

/// The rendered metadata file for an instant and a device name.
pub open spec fn meta_json_bytes(t: UtcTime, name: Seq<u8>) -> Seq<u8> {
    object_two(key_lm_bytes(), iso_bytes(t), key_dn_bytes(), name)
}

/// What reading a metadata document yields: the instant and the device name.
pub open spec fn parse_meta_spec(s: Seq<u8>) -> Option<(UtcTime, Seq<char>)> {
    match parse_object(s) {
        None => None,
        Some(ms) => match member_lookup(ms, key_lm_bytes()) {
            Some(Some(lmb)) => match parse_iso_spec(lmb) {
                Some(t) => match member_lookup(ms, key_dn_bytes()) {
                    Some(Some(dnb)) => if valid_utf8(dnb) {
                        Some((t, decode_utf8(dnb)))
                    } else {
                        None
                    },
                    _ => None,
                },
                None => None,
            },
            _ => None,
        },
    }
}

proof fn lemma_key_literals()
    ensures
        vstd::string::is_ascii("last_modified"),
        vstd::string::is_ascii("device_name"),
        key_lm_bytes().len() == 13,
        key_dn_bytes().len() == 11,
{
    reveal_strlit("last_modified");
    reveal_strlit("device_name");
    assert(vstd::string::is_ascii("last_modified"));
    assert(vstd::string::is_ascii("device_name"));
}

/// Render the metadata document.
pub fn render_meta(t: &UtcTime, device_name: &str) -> (out: Vec<u8>)
    requires
        t.wf(),
    ensures
        out@ =~= meta_json_bytes(*t, device_name.spec_bytes()),
{
    proof {
        lemma_key_literals();
    }
    let mut out: Vec<u8> = Vec::new();
    out.push(0x7b);
    push_quoted(&mut out, str_ascii_bytes("last_modified"));
    out.push(0x3a);
    let iso = render_iso(t);
    push_quoted(&mut out, iso.as_slice());
    out.push(0x2c);
    push_quoted(&mut out, str_ascii_bytes("device_name"));
    out.push(0x3a);
    push_quoted(&mut out, device_name.as_bytes());
    out.push(0x7d);
    out
}

/// Parse the metadata document.
pub fn parse_meta(bytes: &Vec<u8>) -> (r: Option<SyncMeta>)
    ensures
        r is Some <==> parse_meta_spec(bytes@) is Some,
        r matches Some(m) ==> parse_meta_spec(bytes@) == Some((m.last_modified, m.device_name@)),
{
    proof {
        lemma_key_literals();
    }
    let ms = match parse_object_exec(bytes) {
        Some(ms) => ms,
        None => {
            return None;
        },
    };
    let lm = match lookup_member(&ms, str_ascii_bytes("last_modified")) {
        Some(m) => m,
        None => {
            return None;
        },
    };
    let lmb = match &lm.value {
        Some(v) => v,
        None => {
            return None;
        },
    };
    let t = match parse_iso(lmb) {
        Some(t) => t,
        None => {
            return None;
        },
    };
    let dn = match lookup_member(&ms, str_ascii_bytes("device_name")) {
        Some(m) => m,
        None => {
            return None;
        },
    };
    let dnb = match &dn.value {
        Some(v) => v,
        None => {
            return None;
        },
    };
    match string_from_utf8(copy_bytes(dnb)) {
        Some(name) => Some(SyncMeta { last_modified: t, device_name: name }),
        None => None,
    }
}

/// Reading back a rendered metadata document recovers the instant and name.
pub proof fn lemma_meta_round_trip(t: UtcTime, name: Seq<char>)
    requires
        t.wf(),
    ensures
        parse_meta_spec(meta_json_bytes(t, encode_utf8(name))) == Some((t, name)),
{
    lemma_key_literals();
    lemma_parse_object_two(key_lm_bytes(), iso_bytes(t), key_dn_bytes(), encode_utf8(name));
    let ms = seq![
        (key_lm_bytes(), Some(iso_bytes(t))),
        (key_dn_bytes(), Some(encode_utf8(name))),
    ];
    assert(member_lookup(ms, key_lm_bytes()) == Some(Some(iso_bytes(t))));
    assert(key_dn_bytes() != key_lm_bytes());
    assert(ms.drop_first() =~= seq![(key_dn_bytes(), Some(encode_utf8(name)))]);
    assert(member_lookup(seq![(key_dn_bytes(), Some(encode_utf8(name)))], key_dn_bytes())
        == Some(Some(encode_utf8(name))));
    assert(member_lookup(ms, key_dn_bytes()) == Some(Some(encode_utf8(name))));
    lemma_iso_round_trip(t);
    encode_utf8_valid_utf8(name);
    encode_utf8_decode_utf8(name);
}

/// The remote directory after a push: the triple's present files and the
/// fresh metadata, over whatever was there before.
pub open spec fn folder_push_contents(
    m: Map<Seq<char>, Seq<u8>>,
    db: Seq<u8>,
    shm: Option<Seq<u8>>,
    wal: Option<Seq<u8>>,
    t: UtcTime,
    dev: Seq<char>,
) -> Map<Seq<char>, Seq<u8>> {
    let m1 = m.insert(db_name_chars(), db);
    let m2 = if shm is Some {
        m1.insert(shm_name_chars(), shm->0)
    } else {
        m1
    };
    let m3 = if wal is Some {
        m2.insert(wal_name_chars(), wal->0)
    } else {
        m2
    };
    m3.insert(meta_name_chars(), meta_json_bytes(t, encode_utf8(dev)))
}

/// Whether a pull of this remote directory succeeds.
pub open spec fn folder_pull_ok(m: Map<Seq<char>, Seq<u8>>) -> bool {
    &&& m.contains_key(db_name_chars())
    &&& m.contains_key(meta_name_chars())
    &&& parse_meta_spec(m[meta_name_chars()]) is Some
}

/// What a successful pull of this remote directory returns:
/// database bytes, sidecars, instant, device name.
pub open spec fn folder_pull_result(m: Map<Seq<char>, Seq<u8>>) -> (
    Seq<u8>,
    Option<Seq<u8>>,
    Option<Seq<u8>>,
    UtcTime,
    Seq<char>,
) {
    (
        m[db_name_chars()],
        if m.contains_key(shm_name_chars()) {
            Some(m[shm_name_chars()])
        } else {
            None
        },
        if m.contains_key(wal_name_chars()) {
            Some(m[wal_name_chars()])
        } else {
            None
        },
        (parse_meta_spec(m[meta_name_chars()])->0).0,
        (parse_meta_spec(m[meta_name_chars()])->0).1,
    )
}

/// The folder variant: a synced directory and this device's name.
pub struct FolderProvider {
    pub sync_dir: String,
    pub device_name: String,
}

impl FolderProvider {
    pub fn new(sync_dir: String, device_name: String) -> (p: FolderProvider)
        ensures
            p.sync_dir == sync_dir,
            p.device_name == device_name,
    {
        FolderProvider { sync_dir, device_name }
    }

    /// Replace the remote triple and stamp fresh metadata.
    pub fn push(&self, remote: &mut Dir, snapshot: &ConfigSnapshot, now: &UtcTime) -> (r: Result<
        (),
        ProviderError,
    >)
        requires
            old(remote).wf(),
            now.wf(),
        ensures
            r is Ok,
            final(remote).wf(),
            final(remote).contents() =~= folder_push_contents(
                old(remote).contents(),
                snapshot.db@,
                snapshot.shm_view(),
                snapshot.wal_view(),
                *now,
                self.device_name@,
            ),
    {
        remote.put_file(db_name_str(), copy_bytes(&snapshot.db));
        match &snapshot.db_shm {
            Some(shm) => {
                remote.put_file(shm_name_str(), copy_bytes(shm));
            },
            None => {},
        }
        match &snapshot.db_wal {
            Some(wal) => {
                remote.put_file(wal_name_str(), copy_bytes(wal));
            },
            None => {},
        }
        let meta = render_meta(now, self.device_name.as_str());
        remote.put_file(meta_name_str(), meta);
        Ok(())
    }

    /// Read the remote triple and its metadata.
    pub fn pull(&self, remote: &Dir) -> (r: Result<ConfigSnapshot, ProviderError>)
        requires
            remote.wf(),
        ensures
            !remote.contents().contains_key(db_name_chars()) ==> r matches Err(
                ProviderError::NotFound,
            ),
            remote.contents().contains_key(db_name_chars()) && !remote.contents().contains_key(
                meta_name_chars(),
            ) ==> r matches Err(ProviderError::NotFound),
            remote.contents().contains_key(db_name_chars()) && remote.contents().contains_key(
                meta_name_chars(),
            ) && parse_meta_spec(remote.contents()[meta_name_chars()]) is None ==> r matches Err(
                ProviderError::Other(_),
            ),
            folder_pull_ok(remote.contents()) ==> (r matches Ok(s) && {
                let (db, shm, wal, t, dev) = folder_pull_result(remote.contents());
                &&& s.db@ == db
                &&& s.shm_view() == shm
                &&& s.wal_view() == wal
                &&& s.meta.last_modified == t
                &&& s.meta.device_name@ == dev
            }),
    {
        let db = match remote.get_file(db_name_str()) {
            Some(v) => copy_bytes(v),
            None => {
                return Err(ProviderError::NotFound);
            },
        };
        let db_shm = match remote.get_file(shm_name_str()) {
            Some(v) => Some(copy_bytes(v)),
            None => None,
        };
        let db_wal = match remote.get_file(wal_name_str()) {
            Some(v) => Some(copy_bytes(v)),
            None => None,
        };
        match self.remote_meta(remote) {
            Ok(meta) => Ok(ConfigSnapshot { db, db_shm, db_wal, meta }),
            Err(e) => Err(e),
        }
    }

    /// Read only the metadata file.
    pub fn remote_meta(&self, remote: &Dir) -> (r: Result<SyncMeta, ProviderError>)
        requires
            remote.wf(),
        ensures
            !remote.contents().contains_key(meta_name_chars()) ==> r matches Err(
                ProviderError::NotFound,
            ),
            remote.contents().contains_key(meta_name_chars()) && parse_meta_spec(
                remote.contents()[meta_name_chars()],
            ) is None ==> r matches Err(ProviderError::Other(_)),
            remote.contents().contains_key(meta_name_chars()) && parse_meta_spec(
                remote.contents()[meta_name_chars()],
            ) is Some ==> (r matches Ok(m) && parse_meta_spec(
                remote.contents()[meta_name_chars()],
            ) == Some((m.last_modified, m.device_name@))),
    {
        proof {
            reveal_strlit("invalid sync metadata");
        }
        let bytes = match remote.get_file(meta_name_str()) {
            Some(v) => v,
            None => {
                return Err(ProviderError::NotFound);
            },
        };
        match parse_meta(bytes) {
            Some(m) => Ok(m),
            None => Err(ProviderError::Other(String::from_str("invalid sync metadata"))),
        }
    }
}

/// After a push, a pull of the same folder returns the pushed snapshot:
/// same database bytes, sidecars present exactly where pushed (the folder
/// layout keeps a sidecar file from an earlier push, so absent sidecars are
/// faithful only when the directory holds no stale one), and metadata naming
/// the pushing device and instant.
pub proof fn lemma_folder_round_trip(
    m: Map<Seq<char>, Seq<u8>>,
    db: Seq<u8>,
    shm: Option<Seq<u8>>,
    wal: Option<Seq<u8>>,
    t: UtcTime,
    dev: Seq<char>,
)
    requires
        t.wf(),
        shm is None ==> !m.contains_key(shm_name_chars()),
        wal is None ==> !m.contains_key(wal_name_chars()),
    ensures
        folder_pull_ok(folder_push_contents(m, db, shm, wal, t, dev)),
        folder_pull_result(folder_push_contents(m, db, shm, wal, t, dev)) == (
            db,
            shm,
            wal,
            t,
            dev,
        ),
{
    lemma_meta_round_trip(t, dev);
    lemma_triple_names_distinct();
    let m2 = folder_push_contents(m, db, shm, wal, t, dev);
    assert(m2[db_name_chars()] == db);
    assert(m2.contains_key(shm_name_chars()) <==> shm is Some);
    assert(m2.contains_key(wal_name_chars()) <==> wal is Some);
    assert(m2[meta_name_chars()] == meta_json_bytes(t, encode_utf8(dev)));
}

proof fn lemma_triple_names_distinct()
    ensures
        db_name_chars() != shm_name_chars(),
        db_name_chars() != wal_name_chars(),
        db_name_chars() != meta_name_chars(),
        shm_name_chars() != wal_name_chars(),
        shm_name_chars() != meta_name_chars(),
        wal_name_chars() != meta_name_chars(),
{
    assert(db_name_chars().len() == 11);
    assert(shm_name_chars().len() == 15);
    assert(wal_name_chars().len() == 15);
    assert(meta_name_chars().len() == 14);
    assert(shm_name_chars()[12] == 's');
    assert(wal_name_chars()[12] == 'w');
}

} // verus!
