//! The values a remote endpoint exchanges: snapshots, metadata, and the
//! provider error taxonomy.

use vstd::prelude::*;

verus! {

use crate::time::UtcTime;

/// Metadata attached to a synced snapshot.
#[derive(Debug)]
pub struct SyncMeta {
    pub last_modified: UtcTime,
    pub device_name: String,
}

/// The files of one database triple, with metadata.
#[derive(Debug)]
pub struct ConfigSnapshot {
    pub db: Vec<u8>,
    pub db_shm: Option<Vec<u8>>,
    pub db_wal: Option<Vec<u8>>,
    pub meta: SyncMeta,
}

impl ConfigSnapshot {
    pub open spec fn shm_view(&self) -> Option<Seq<u8>> {
        match self.db_shm {
            Some(v) => Some(v@),
            None => None,
        }
    }

    pub open spec fn wal_view(&self) -> Option<Seq<u8>> {
        match self.db_wal {
            Some(v) => Some(v@),
            None => None,
        }
    }
}

/// What a provider operation can fail with.
#[derive(Debug)]
pub enum ProviderError {
    Io(String),
    Network(String),
    NotFound,
    Other(String),
}

} // verus!
