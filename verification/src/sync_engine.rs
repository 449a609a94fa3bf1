//! The sync engine: gating, backup-before-overwrite, last-writer-wins
//! planning, and feedback suppression.
//!
//! The engine works against the directory and backup models; the remote
//! interaction's outcome is handed in by the caller (for the folder variant
//! the whole operation also exists in-model).  Probe results that only the
//! surrounding process can obtain (whether the database file could be
//! opened, the local file's modification time) arrive as plain arguments.

use vstd::prelude::*;

verus! {

use vstd::string::StringExecFns;
use crate::backup::{BackupManager, BackupStore, created_backup};
use crate::config::AppConfig;
use crate::folder::{FolderProvider, folder_push_contents, folder_pull_ok, folder_pull_result,
    parse_meta_spec};
use crate::fsmodel::{Dir, db_name_chars, db_name_str, shm_name_chars, shm_name_str,
    wal_name_chars, wal_name_str, meta_name_chars};
use crate::provider::{ConfigSnapshot, ProviderError, SyncMeta};
use crate::safety::{SafetyGuard, valid_sqlite_header, validate_sqlite_header};
use crate::strutil::copy_bytes;
use crate::time::{UtcTime, utc_lt_spec};

/// The outcome of one engine operation.
#[derive(Debug)]
pub enum SyncResult {
    Pushed,
    Pulled { from_device: String, gg_was_running: bool },
    Skipped(SkipReason),
}

/// Why an operation was skipped.  Skips are success outcomes.
#[derive(Clone, Copy, Debug, PartialEq, Eq, Structural)]
pub enum SkipReason {
    GGRunning,
    FileLocked,
    NoLocalConfig,
    NoRemoteConfig,
    AlreadyInSync,
    InvalidRemoteFile,
}

/// A failed operation.
#[derive(Debug)]
pub enum SyncError {
    Io(String),
    Provider(ProviderError),
}

/// What a gated push hands to the provider, or why it stopped.
#[derive(Debug)]
pub enum PushStep {
    Ready(ConfigSnapshot),
    Skip(SkipReason),
}

/// `r` is a provider failure of the `Other` kind.
pub open spec fn is_provider_other_err(r: Result<SyncResult, SyncError>) -> bool {
    match r {
        Err(SyncError::Provider(ProviderError::Other(_))) => true,
        _ => false,
    }
}

/// `r` reports a pull that took, from the device named `dev`.
pub open spec fn is_pulled_from(r: Result<SyncResult, SyncError>, dev: Seq<char>) -> bool {
    match r {
        Ok(SyncResult::Pulled { from_device, gg_was_running }) => from_device@ == dev,
        _ => false,
    }
}

/// What `sync` decided to do.
#[derive(Debug)]
pub enum SyncPlan {
    Push,
    PushWithBackup,
    Pull,
    Skip(SkipReason),
    Fail(ProviderError),
}

/// A directory's contents after writing a snapshot's files into it.
pub open spec fn write_snapshot_contents(
    m: Map<Seq<char>, Seq<u8>>,
    db: Seq<u8>,
    shm: Option<Seq<u8>>,
    wal: Option<Seq<u8>>,
) -> Map<Seq<char>, Seq<u8>> {
    let m1 = m.insert(db_name_chars(), db);
    let m2 = if shm is Some {
        m1.insert(shm_name_chars(), shm->0)
    } else {
        m1
    };
    if wal is Some {
        m2.insert(wal_name_chars(), wal->0)
    } else {
        m2
    }
}

fn write_snapshot(local: &mut Dir, snap: &ConfigSnapshot)
    requires
        old(local).wf(),
    ensures
        final(local).wf(),
        final(local).contents() =~= write_snapshot_contents(
            old(local).contents(),
            snap.db@,
            snap.shm_view(),
            snap.wal_view(),
        ),
{
    local.put_file(db_name_str(), copy_bytes(&snap.db));
    match &snap.db_shm {
        Some(shm) => {
            local.put_file(shm_name_str(), copy_bytes(shm));
        },
        None => {},
    }
    match &snap.db_wal {
        Some(wal) => {
            local.put_file(wal_name_str(), copy_bytes(wal));
        },
        None => {},
    }
}

pub struct SyncEngine {
    config: AppConfig,
    backup_manager: BackupManager,
    safety: SafetyGuard,
    pull_in_progress: bool,
}

impl SyncEngine {
    /// The feedback-suppression flag.
    pub closed spec fn suppressing(&self) -> bool {
        self.pull_in_progress
    }

    pub closed spec fn spec_config(&self) -> AppConfig {
        self.config
    }

    pub closed spec fn spec_backup_manager(&self) -> BackupManager {
        self.backup_manager
    }

    pub closed spec fn spec_device_name(&self) -> Seq<char> {
        self.config.device_name@
    }

    pub fn new(config: AppConfig) -> (e: SyncEngine)
        ensures
            e.spec_config() == config,
            e.spec_backup_manager().backup_dir == config.backup_dir,
            e.spec_backup_manager().max_backups == config.max_backups,
            !e.suppressing(),
    {
        let backup_manager = BackupManager::new(config.backup_dir.clone(), config.max_backups);
        SyncEngine { config, backup_manager, safety: SafetyGuard::new(), pull_in_progress: false }
    }

    /// The backup manager, for listings and restores.
    pub fn backups(&self) -> (r: &BackupManager)
        ensures
            *r == self.spec_backup_manager(),
    {
        &self.backup_manager
    }

    /// Atomic test-and-clear of the feedback-suppression flag: true exactly
    /// once after each pull that wrote.
    pub fn should_suppress_push(&mut self) -> (r: bool)
        ensures
            r == old(self).suppressing(),
            !final(self).suppressing(),
            final(self).spec_config() == old(self).spec_config(),
            final(self).spec_backup_manager() == old(self).spec_backup_manager(),
    {
        let r = self.pull_in_progress;
        self.pull_in_progress = false;
        r
    }

    /// Gate a push on the read-safety of the local directory and assemble
    /// the snapshot to send, stamped with this instant and device.
    pub fn push_to_remote(&self, local: &Dir, db_readable: bool, now: &UtcTime) -> (r: PushStep)
        requires
            local.wf(),
        ensures
            !local.contents().contains_key(db_name_chars()) ==> r == PushStep::Skip(
                SkipReason::NoLocalConfig,
            ),
            local.contents().contains_key(db_name_chars()) && !db_readable ==> r == PushStep::Skip(
                SkipReason::FileLocked,
            ),
            local.contents().contains_key(db_name_chars()) && db_readable ==> (r matches
                PushStep::Ready(s) && {
                &&& s.db@ == local.contents()[db_name_chars()]
                &&& s.shm_view() == (if local.contents().contains_key(shm_name_chars()) {
                    Some(local.contents()[shm_name_chars()])
                } else {
                    None::<Seq<u8>>
                })
                &&& s.wal_view() == (if local.contents().contains_key(wal_name_chars()) {
                    Some(local.contents()[wal_name_chars()])
                } else {
                    None::<Seq<u8>>
                })
                &&& s.meta.last_modified == *now
                &&& s.meta.device_name@ == self.spec_device_name()
            }),
    {
        let db = match local.get_file(db_name_str()) {
            Some(v) => copy_bytes(v),
            None => {
                return PushStep::Skip(SkipReason::NoLocalConfig);
            },
        };
        if !db_readable {
            return PushStep::Skip(SkipReason::FileLocked);
        }
        let db_shm = match local.get_file(shm_name_str()) {
            Some(v) => Some(copy_bytes(v)),
            None => None,
        };
        let db_wal = match local.get_file(wal_name_str()) {
            Some(v) => Some(copy_bytes(v)),
            None => None,
        };
        PushStep::Ready(
            ConfigSnapshot {
                db,
                db_shm,
                db_wal,
                meta: SyncMeta {
                    last_modified: *now,
                    device_name: self.config.device_name.clone(),
                },
            },
        )
    }

    /// Turn the provider's answer to a push into the operation's outcome.
    pub fn complete_push(outcome: Result<(), ProviderError>) -> (r: Result<SyncResult, SyncError>)
        ensures
            outcome is Ok ==> r == Ok::<SyncResult, SyncError>(SyncResult::Pushed),
            outcome matches Err(e) ==> r == Err::<SyncResult, SyncError>(SyncError::Provider(e)),
    {
        match outcome {
            Ok(()) => Ok(SyncResult::Pushed),
            Err(e) => Err(SyncError::Provider(e)),
        }
    }

    /// Apply what the provider's pull returned: gate on read-safety,
    /// validate the remote database header, back the local triple up before
    /// overwriting it, raise the suppression flag, and write.
    pub fn pull_from_remote(
        &mut self,
        local: &mut Dir,
        store: &mut BackupStore,
        db_readable: bool,
        pulled: Result<ConfigSnapshot, ProviderError>,
        now: &UtcTime,
    ) -> (r: Result<SyncResult, SyncError>)
        requires
            old(local).wf(),
            old(store).wf(),
            now.wf(),
    ensures
            final(self).spec_config() == old(self).spec_config(),
            final(self).spec_backup_manager() == old(self).spec_backup_manager(),
            final(local).wf(),
            final(store).wf(),
            ({
                let ex = old(local).contents().contains_key(db_name_chars());
                let gated = ex && !db_readable;
                let unchanged = *final(local) == *old(local) && *final(store) == *old(store)
                    && final(self).suppressing() == old(self).suppressing();
                &&& (gated ==> r == Ok::<SyncResult, SyncError>(
                    SyncResult::Skipped(SkipReason::FileLocked),
                ) && unchanged)
                &&& (!gated && pulled is Err ==> unchanged && ({
                    let e = pulled->Err_0;
                    if e is NotFound {
                        r == Ok::<SyncResult, SyncError>(
                            SyncResult::Skipped(SkipReason::NoRemoteConfig),
                        )
                    } else {
                        r == Err::<SyncResult, SyncError>(SyncError::Provider(e))
                    }
                }))
                &&& (!gated && pulled is Ok && !valid_sqlite_header(pulled->Ok_0.db@) ==> r
                    == Ok::<SyncResult, SyncError>(
                    SyncResult::Skipped(SkipReason::InvalidRemoteFile),
                ) && unchanged)
                &&& (!gated && pulled is Ok && valid_sqlite_header(pulled->Ok_0.db@) ==> ({
                    let snap = pulled->Ok_0;
                    &&& is_pulled_from(r, snap.meta.device_name@)
                    &&& final(self).suppressing()
                    &&& final(local).contents() == write_snapshot_contents(
                        old(local).contents(),
                        snap.db@,
                        snap.shm_view(),
                        snap.wal_view(),
                    )
                    &&& (ex ==> created_backup(
                        old(store).backups@,
                        final(store).backups@,
                        *old(local),
                        "pre-pull"@,
                        *now,
                        old(self).spec_backup_manager().max_backups as int,
                    ))
                    &&& (!ex ==> *final(store) == *old(store))
                }))
            }),
    {
        let gg_was_running = self.safety.is_gg_running();
        let ex = local.has_file(db_name_str());
        if ex && !db_readable {
            return Ok(SyncResult::Skipped(SkipReason::FileLocked));
        }
        let snap = match pulled {
            Err(ProviderError::NotFound) => {
                return Ok(SyncResult::Skipped(SkipReason::NoRemoteConfig));
            },
            Err(e) => {
                return Err(SyncError::Provider(e));
            },
            Ok(s) => s,
        };
        if !validate_sqlite_header(snap.db.as_slice()) {
            return Ok(SyncResult::Skipped(SkipReason::InvalidRemoteFile));
        }
        if ex {
            let _ = self.backup_manager.create_backup(store, local, "pre-pull", now);
        }
        self.pull_in_progress = true;
        write_snapshot(local, &snap);
        Ok(SyncResult::Pulled { from_device: snap.meta.device_name, gg_was_running })
    }

    /// The reconciling decision: compare local existence and modification
    /// time against the remote metadata, last writer wins.
    pub fn sync_plan(
        local_exists: bool,
        local_modified: Option<&UtcTime>,
        remote_meta: Result<SyncMeta, ProviderError>,
    ) -> (p: SyncPlan)
        requires
            local_exists && remote_meta is Ok ==> local_modified is Some,
        ensures
            remote_meta is Err ==> ({
                let e = remote_meta->Err_0;
                if e is NotFound {
                    if local_exists {
                        p == SyncPlan::Push
                    } else {
                        p == SyncPlan::Skip(SkipReason::NoLocalConfig)
                    }
                } else {
                    p == SyncPlan::Fail(e)
                }
            }),
            remote_meta is Ok && !local_exists ==> p == SyncPlan::Pull,
            remote_meta is Ok && local_exists ==> ({
                let m = remote_meta->Ok_0;
                let lt = *(local_modified->0);
                if utc_lt_spec(m.last_modified, lt) {
                    p == SyncPlan::PushWithBackup
                } else if utc_lt_spec(lt, m.last_modified) {
                    p == SyncPlan::Pull
                } else {
                    p == SyncPlan::Skip(SkipReason::AlreadyInSync)
                }
            }),
    {
        let m = match remote_meta {
            Err(ProviderError::NotFound) => {
                if local_exists {
                    return SyncPlan::Push;
                } else {
                    return SyncPlan::Skip(SkipReason::NoLocalConfig);
                }
            },
            Err(e) => {
                return SyncPlan::Fail(e);
            },
            Ok(m) => m,
        };
        if !local_exists {
            return SyncPlan::Pull;
        }
        let lt = match local_modified {
            Some(t) => t,
            None => {
                return SyncPlan::Pull;
            },
        };
        if m.last_modified.lt(lt) {
            SyncPlan::PushWithBackup
        } else if lt.lt(&m.last_modified) {
            SyncPlan::Pull
        } else {
            SyncPlan::Skip(SkipReason::AlreadyInSync)
        }
    }

    /// The whole reconciling operation against a folder remote, in-model:
    /// probe, plan, back up, and push or pull.
    pub fn sync(
        &mut self,
        folder: &FolderProvider,
        local: &mut Dir,
        store: &mut BackupStore,
        remote: &mut Dir,
        local_modified: Option<&UtcTime>,
        db_readable: bool,
        now: &UtcTime,
    ) -> (r: Result<SyncResult, SyncError>)
        requires
            old(local).wf(),
            old(store).wf(),
            old(remote).wf(),
            now.wf(),
            old(local).contents().contains_key(db_name_chars()) ==> local_modified is Some,
        ensures
            final(local).wf(),
            final(store).wf(),
            final(remote).wf(),
            final(self).spec_config() == old(self).spec_config(),
            final(self).spec_backup_manager() == old(self).spec_backup_manager(),
            ({
                let ex = old(local).contents().contains_key(db_name_chars());
                let m = old(remote).contents();
                let meta_present = m.contains_key(meta_name_chars());
                let meta = parse_meta_spec(m[meta_name_chars()]);
                let local_newer = ex && meta_present && meta is Some && utc_lt_spec(
                    (meta->0).0,
                    *(local_modified->0),
                );
                let remote_newer = ex && meta_present && meta is Some && utc_lt_spec(
                    *(local_modified->0),
                    (meta->0).0,
                );
                let pushed_remote = folder_push_contents(
                    m,
                    old(local).contents()[db_name_chars()],
                    if old(local).contents().contains_key(shm_name_chars()) {
                        Some(old(local).contents()[shm_name_chars()])
                    } else {
                        None::<Seq<u8>>
                    },
                    if old(local).contents().contains_key(wal_name_chars()) {
                        Some(old(local).contents()[wal_name_chars()])
                    } else {
                        None::<Seq<u8>>
                    },
                    *now,
                    folder.device_name@,
                );
                let pulled_local = write_snapshot_contents(
                    old(local).contents(),
                    folder_pull_result(m).0,
                    folder_pull_result(m).1,
                    folder_pull_result(m).2,
                );
                let unchanged = *final(local) == *old(local) && *final(store) == *old(store)
                    && *final(remote) == *old(remote);
                &&& (!ex && !meta_present ==> r == Ok::<SyncResult, SyncError>(
                    SyncResult::Skipped(SkipReason::NoLocalConfig),
                ) && unchanged)
                &&& (meta_present && meta is None ==> is_provider_other_err(r) && unchanged)
                &&& (ex && !meta_present && db_readable ==> r == Ok::<SyncResult, SyncError>(
                    SyncResult::Pushed,
                ) && final(remote).contents() == pushed_remote && *final(local) == *old(local)
                    && *final(store) == *old(store))
                &&& (ex && !meta_present && !db_readable ==> r == Ok::<SyncResult, SyncError>(
                    SyncResult::Skipped(SkipReason::FileLocked),
                ) && unchanged)
                &&& (local_newer ==> created_backup(
                    old(store).backups@,
                    final(store).backups@,
                    *old(local),
                    "pre-push"@,
                    *now,
                    old(self).spec_backup_manager().max_backups as int,
                ) && *final(local) == *old(local) && (db_readable ==> r == Ok::<
                    SyncResult,
                    SyncError,
                >(SyncResult::Pushed) && final(remote).contents() == pushed_remote) && (
                !db_readable ==> r == Ok::<SyncResult, SyncError>(
                    SyncResult::Skipped(SkipReason::FileLocked),
                ) && *final(remote) == *old(remote)))
                &&& (remote_newer && !db_readable ==> r == Ok::<SyncResult, SyncError>(
                    SyncResult::Skipped(SkipReason::FileLocked),
                ) && unchanged)
                &&& (remote_newer && db_readable && !folder_pull_ok(m) ==> r == Ok::<
                    SyncResult,
                    SyncError,
                >(SyncResult::Skipped(SkipReason::NoRemoteConfig)) && unchanged)
                &&& (remote_newer && db_readable && folder_pull_ok(m) && !valid_sqlite_header(
                    folder_pull_result(m).0,
                ) ==> r == Ok::<SyncResult, SyncError>(
                    SyncResult::Skipped(SkipReason::InvalidRemoteFile),
                ) && unchanged)
                &&& (remote_newer && db_readable && folder_pull_ok(m) && valid_sqlite_header(
                    folder_pull_result(m).0,
                ) ==> ({
                    &&& is_pulled_from(r, folder_pull_result(m).4)
                    &&& final(self).suppressing()
                    &&& final(local).contents() == pulled_local
                    &&& created_backup(
                        old(store).backups@,
                        final(store).backups@,
                        *old(local),
                        "pre-pull"@,
                        *now,
                        old(self).spec_backup_manager().max_backups as int,
                    )
                    &&& *final(remote) == *old(remote)
                }))
                &&& (ex && meta_present && meta is Some && !utc_lt_spec(
                    (meta->0).0,
                    *(local_modified->0),
                ) && !utc_lt_spec(*(local_modified->0), (meta->0).0) ==> r == Ok::<
                    SyncResult,
                    SyncError,
                >(SyncResult::Skipped(SkipReason::AlreadyInSync)) && unchanged)
                &&& (!ex && meta_present && meta is Some && !folder_pull_ok(m) ==> r == Ok::<
                    SyncResult,
                    SyncError,
                >(SyncResult::Skipped(SkipReason::NoRemoteConfig)) && unchanged)
                &&& (!ex && meta_present && meta is Some && folder_pull_ok(m)
                    && !valid_sqlite_header(folder_pull_result(m).0) ==> r == Ok::<
                    SyncResult,
                    SyncError,
                >(SyncResult::Skipped(SkipReason::InvalidRemoteFile)) && unchanged)
                &&& (!ex && meta_present && meta is Some && folder_pull_ok(m)
                    && valid_sqlite_header(folder_pull_result(m).0) ==> ({
                    &&& is_pulled_from(r, folder_pull_result(m).4)
                    &&& final(self).suppressing()
                    &&& final(local).contents() == pulled_local
                    &&& *final(store) == *old(store)
                    &&& *final(remote) == *old(remote)
                }))
            }),
    {
        let ex = local.has_file(db_name_str());
        let meta = folder.remote_meta(remote);
        let plan = Self::sync_plan(ex, local_modified, meta);
        match plan {
            SyncPlan::Push => {
                match self.push_to_remote(local, db_readable, now) {
                    PushStep::Ready(snap) => {
                        let pr = folder.push(remote, &snap, now);
                        Self::complete_push(pr)
                    },
                    PushStep::Skip(reason) => Ok(SyncResult::Skipped(reason)),
                }
            },
            SyncPlan::PushWithBackup => {
                let _ = self.backup_manager.create_backup(store, local, "pre-push", now);
                match self.push_to_remote(local, db_readable, now) {
                    PushStep::Ready(snap) => {
                        let pr = folder.push(remote, &snap, now);
                        Self::complete_push(pr)
                    },
                    PushStep::Skip(reason) => Ok(SyncResult::Skipped(reason)),
                }
            },
            SyncPlan::Pull => {
                let pulled = folder.pull(remote);
                self.pull_from_remote(local, store, db_readable, pulled, now)
            },
            SyncPlan::Skip(reason) => Ok(SyncResult::Skipped(reason)),
            SyncPlan::Fail(e) => Err(SyncError::Provider(e)),
        }
    }
}

/// The rendering of a skip reason.
pub open spec fn skip_reason_chars(r: SkipReason) -> Seq<char> {
    match r {
        SkipReason::GGRunning => "GGRunning"@,
        SkipReason::FileLocked => "FileLocked"@,
        SkipReason::NoLocalConfig => "NoLocalConfig"@,
        SkipReason::NoRemoteConfig => "NoRemoteConfig"@,
        SkipReason::AlreadyInSync => "AlreadyInSync"@,
        SkipReason::InvalidRemoteFile => "InvalidRemoteFile"@,
    }
}

/// The user-facing rendering of an outcome.
pub open spec fn format_sync_result_chars(r: SyncResult) -> Seq<char> {
    match r {
        SyncResult::Pushed => "Pushed"@,
        SyncResult::Pulled { from_device, gg_was_running } => if gg_was_running {
            "Pulled from "@ + from_device@ + ". Restart SteelSeries GG to apply changes."@
        } else {
            "Pulled from "@ + from_device@
        },
        SyncResult::Skipped(reason) => "Skipped("@ + skip_reason_chars(reason) + ")"@,
    }
}

fn skip_reason_str(r: SkipReason) -> (s: &'static str)
    ensures
        s@ == skip_reason_chars(r),
{
    match r {
        SkipReason::GGRunning => "GGRunning",
        SkipReason::FileLocked => "FileLocked",
        SkipReason::NoLocalConfig => "NoLocalConfig",
        SkipReason::NoRemoteConfig => "NoRemoteConfig",
        SkipReason::AlreadyInSync => "AlreadyInSync",
        SkipReason::InvalidRemoteFile => "InvalidRemoteFile",
    }
}

/// Render an outcome for the user.
pub fn format_sync_result(result: &SyncResult) -> (s: String)
    ensures
        s@ == format_sync_result_chars(*result),
{
    match result {
        SyncResult::Pushed => String::from_str("Pushed"),
        SyncResult::Pulled { from_device, gg_was_running } => {
            let mut s = String::from_str("Pulled from ");
            s.append(from_device.as_str());
            if *gg_was_running {
                s.append(". Restart SteelSeries GG to apply changes.");
            }
            s
        },
        SyncResult::Skipped(reason) => {
            let mut s = String::from_str("Skipped(");
            s.append(skip_reason_str(*reason));
            s.append(")");
            s
        },
    }
}

} // verus!
