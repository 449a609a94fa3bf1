//! Timestamped backup snapshots with retention.
//!
//! A backup store models the backup directory: a list of named snapshots
//! kept sorted newest-first by creation instant.  Creating a backup copies
//! the `database.db*` files of the source directory, names the snapshot
//! `<label>-<timestamp>`, and prunes the store down to the retention limit.

use vstd::prelude::*;

verus! {

use vstd::string::StringExecFns;
use crate::fsmodel::{Dir, db_prefix_str, db_prefix_chars};
use crate::strutil::{starts_with_spec, str_starts_with, copy_bytes};
use crate::time::{UtcTime, utc_le_spec, utc_lt_spec, lemma_utc_le_total, lemma_utc_le_trans,
    timestamp_name_chars, timestamp_name};

/// One backup as the listing reports it.
pub struct BackupEntry {
    pub name: String,
    pub path: String,
    pub created: UtcTime,
}

/// One stored snapshot.
pub struct Backup {
    pub name: String,
    pub created: UtcTime,
    pub files: Dir,
}

/// The backup directory: snapshots sorted newest-first.
pub struct BackupStore {
    pub backups: Vec<Backup>,
}

/// Newest-first order over a snapshot list.
pub open spec fn sorted_desc(bs: Seq<Backup>) -> bool {
    forall|i: int, j: int|
        0 <= i < j < bs.len() ==> utc_le_spec((#[trigger] bs[j]).created, (#[trigger] bs[i]).created)
}

impl BackupStore {
    pub open spec fn wf(&self) -> bool {
        sorted_desc(self.backups@)
    }

    pub fn new() -> (s: BackupStore)
        ensures
            s.wf(),
            s.backups@.len() == 0,
    {
        BackupStore { backups: Vec::new() }
    }
}

/// Names of files a backup keeps: those starting with the database prefix.
pub open spec fn db_name_set() -> Set<Seq<char>> {
    Set::new(|k: Seq<char>| starts_with_spec(k, db_prefix_chars()))
}

/// The `database.db*` portion of a directory.
pub open spec fn db_files_of(d: Dir) -> Map<Seq<char>, Seq<u8>> {
    d.contents().restrict(db_name_set())
}

/// The directory name of a backup: `<label>-<timestamp>`.
pub open spec fn backup_name_chars(label: Seq<char>, t: UtcTime) -> Seq<char> {
    label + seq!['-'] + timestamp_name_chars(t)
}

/// Where a snapshot created at `t` goes in a newest-first list: after every
/// snapshot at least as new.
pub open spec fn insert_pos(bs: Seq<Backup>, t: UtcTime) -> int
    decreases bs.len(),
{
    if bs.len() == 0 {
        0
    } else if utc_le_spec(t, bs[0].created) {
        1 + insert_pos(bs.drop_first(), t)
    } else {
        0
    }
}

/// How many snapshots remain after inserting one and pruning to `max`.
pub open spec fn retained_len(len: int, max: int) -> int {
    if len + 1 <= max {
        len + 1
    } else {
        max
    }
}

/// The store after a create: insert in order, then keep the newest `max`.
pub open spec fn create_backup_result(bs: Seq<Backup>, nb: Backup, max: int) -> Seq<Backup> {
    bs.insert(insert_pos(bs, nb.created), nb).take(retained_len(bs.len() as int, max))
}

/// The store went from `old_bs` to `new_bs` by creating a backup of
/// `source`'s database files, labelled `label` at instant `t`, under
/// retention limit `max`.
pub open spec fn created_backup(
    old_bs: Seq<Backup>,
    new_bs: Seq<Backup>,
    source: Dir,
    label: Seq<char>,
    t: UtcTime,
    max: int,
) -> bool {
    exists|nb: Backup|
        {
            &&& nb.name@ == backup_name_chars(label, t)
            &&& nb.created == t
            &&& nb.files.wf()
            &&& nb.files.contents() == db_files_of(source)
            &&& new_bs == #[trigger] create_backup_result(old_bs, nb, max)
        }
}

proof fn lemma_insert_pos_unique(bs: Seq<Backup>, t: UtcTime, p: int)
    requires
        0 <= p <= bs.len(),
        forall|j: int| 0 <= j < p ==> utc_le_spec(t, (#[trigger] bs[j]).created),
        p < bs.len() ==> !utc_le_spec(t, bs[p].created),
    ensures
        insert_pos(bs, t) == p,
    decreases bs.len(),
{
    if bs.len() == 0 {
    } else if p == 0 {
    } else {
        assert(utc_le_spec(t, bs[0].created));
        lemma_insert_pos_unique(bs.drop_first(), t, p - 1);
    }
}

proof fn lemma_insert_sorted(bs: Seq<Backup>, nb: Backup, p: int)
    requires
        sorted_desc(bs),
        0 <= p <= bs.len(),
        forall|j: int| 0 <= j < p ==> utc_le_spec(nb.created, (#[trigger] bs[j]).created),
        p < bs.len() ==> !utc_le_spec(nb.created, bs[p].created),
    ensures
        sorted_desc(bs.insert(p, nb)),
{
    let ins = bs.insert(p, nb);
    assert forall|i: int, j: int| 0 <= i < j < ins.len() implies utc_le_spec(
        (#[trigger] ins[j]).created,
        (#[trigger] ins[i]).created,
    ) by {
        if p < bs.len() {
            lemma_utc_le_total(nb.created, bs[p].created);
        }
        if i < p && j == p {
        } else if i < p && j > p {
            assert(ins[i] == bs[i]);
            assert(ins[j] == bs[j - 1]);
        } else if i == p && j > p {
            assert(ins[j] == bs[j - 1]);
            if p <= j - 1 && p < bs.len() {
                if p < j - 1 {
                    assert(utc_le_spec(bs[j - 1].created, bs[p].created));
                }
                lemma_utc_le_trans(bs[j - 1].created, bs[p].created, nb.created);
            }
        } else if i > p {
            assert(ins[i] == bs[i - 1]);
            assert(ins[j] == bs[j - 1]);
        }
    }
}

proof fn lemma_insert_pos_props(bs: Seq<Backup>, t: UtcTime)
    ensures
        0 <= insert_pos(bs, t) <= bs.len(),
        forall|j: int| 0 <= j < insert_pos(bs, t) ==> utc_le_spec(t, (#[trigger] bs[j]).created),
        insert_pos(bs, t) < bs.len() ==> !utc_le_spec(t, bs[insert_pos(bs, t)].created),
    decreases bs.len(),
{
    if bs.len() == 0 {
    } else if utc_le_spec(t, bs[0].created) {
        lemma_insert_pos_props(bs.drop_first(), t);
        let p = insert_pos(bs, t);
        assert forall|j: int| 0 <= j < p implies utc_le_spec(t, (#[trigger] bs[j]).created) by {
            if j > 0 {
                assert(bs.drop_first()[j - 1] == bs[j]);
            }
        }
        if p < bs.len() {
            assert(bs.drop_first()[p - 1] == bs[p]);
        }
    }
}

/// Retention keeps exactly the newest snapshots: after a create, every
/// retained snapshot is at least as new as every snapshot that was dropped.
pub proof fn lemma_retention_keeps_newest(bs: Seq<Backup>, nb: Backup, max: int)
    requires
        sorted_desc(bs),
        0 <= max,
    ensures
        create_backup_result(bs, nb, max).len() == retained_len(bs.len() as int, max),
        create_backup_result(bs, nb, max).len() <= max,
        sorted_desc(create_backup_result(bs, nb, max)),
        ({
            let all = bs.insert(insert_pos(bs, nb.created), nb);
            let kept = create_backup_result(bs, nb, max);
            forall|i: int, j: int|
                0 <= i < kept.len() && kept.len() <= j < all.len() ==> utc_le_spec(
                    (#[trigger] all[j]).created,
                    (#[trigger] kept[i]).created,
                )
        }),
{
    lemma_insert_pos_props(bs, nb.created);
    lemma_insert_sorted(bs, nb, insert_pos(bs, nb.created));
    let all = bs.insert(insert_pos(bs, nb.created), nb);
    let kept = create_backup_result(bs, nb, max);
    assert forall|i: int, j: int|
        0 <= i < kept.len() && kept.len() <= j < all.len() implies utc_le_spec(
        (#[trigger] all[j]).created,
        (#[trigger] kept[i]).created,
    ) by {
        assert(kept[i] == all[i]);
        assert(utc_le_spec(all[j].created, all[i].created));
    }
    assert forall|i: int, j: int|
        0 <= i < j < kept.len() implies utc_le_spec(
        (#[trigger] kept[j]).created,
        (#[trigger] kept[i]).created,
    ) by {
        assert(kept[i] == all[i]);
        assert(kept[j] == all[j]);
    }
}

/// A freshly created backup is the newest entry of the store: when every
/// earlier snapshot is strictly older than the creation instant (backup
/// timestamps have one-second resolution, so concurrent creates within one
/// second must be ordered externally) and at least one snapshot is
/// retained, the first listed entry is the new one, holding exactly the
/// source's database files, and every other entry is older.
pub proof fn lemma_created_backup_is_newest(
    old_bs: Seq<Backup>,
    new_bs: Seq<Backup>,
    source: Dir,
    label: Seq<char>,
    t: UtcTime,
    max: int,
)
    requires
        created_backup(old_bs, new_bs, source, label, t, max),
        max >= 1,
        forall|j: int| 0 <= j < old_bs.len() ==> utc_lt_spec((#[trigger] old_bs[j]).created, t),
    ensures
        new_bs.len() >= 1,
        new_bs[0].name@ == backup_name_chars(label, t),
        new_bs[0].created == t,
        new_bs[0].files.wf(),
        new_bs[0].files.contents() == db_files_of(source),
        forall|j: int| 1 <= j < new_bs.len() ==> utc_lt_spec((#[trigger] new_bs[j]).created, t),
{
    let nb = choose|nb: Backup|
        {
            &&& nb.name@ == backup_name_chars(label, t)
            &&& nb.created == t
            &&& nb.files.wf()
            &&& nb.files.contents() == db_files_of(source)
            &&& new_bs == #[trigger] create_backup_result(old_bs, nb, max)
        };
    if old_bs.len() > 0 {
        assert(!utc_le_spec(t, old_bs[0].created)) by {
            lemma_utc_le_total(t, old_bs[0].created);
            assert(utc_lt_spec(old_bs[0].created, t));
        }
    }
    assert(insert_pos(old_bs, t) == 0);
    let inserted = old_bs.insert(0, nb);
    assert(inserted[0] == nb);
    let k = retained_len(old_bs.len() as int, max);
    assert(k >= 1);
    assert(new_bs[0] == nb);
    assert forall|j: int| 1 <= j < new_bs.len() implies utc_lt_spec(
        (#[trigger] new_bs[j]).created,
        t,
    ) by {
        assert(new_bs[j] == inserted[j]);
        assert(inserted[j] == old_bs[j - 1]);
    }
}

/// A snapshot holds only files named with the database prefix, and exactly
/// those of its source.
pub proof fn lemma_backup_holds_only_db_files(source: Dir)
    ensures
        forall|k: Seq<char>| #[trigger]
            db_files_of(source).contains_key(k) ==> starts_with_spec(k, db_prefix_chars())
                && source.contents().contains_key(k) && db_files_of(source)[k]
                == source.contents()[k],
        forall|k: Seq<char>|
            starts_with_spec(k, db_prefix_chars()) && #[trigger] source.contents().contains_key(k)
                ==> db_files_of(source).contains_key(k),
{
}

/// Restoring a snapshot recovers the database files it was created from:
/// for every target whose database-named files all existed in the snapshot's
/// source, the restored directory's database files equal the source's.
/// (A database-named file created in the target after the snapshot, and
/// absent from it, would survive a restore: restores overwrite, they do not
/// delete.)
pub proof fn lemma_restore_recovers_db_files(source: Dir, target: Map<Seq<char>, Seq<u8>>)
    requires
        forall|k: Seq<char>|
            starts_with_spec(k, db_prefix_chars()) && #[trigger] target.contains_key(k)
                ==> source.contents().contains_key(k),
    ensures
        target.union_prefer_right(db_files_of(source)).restrict(db_name_set()) =~= db_files_of(
            source,
        ),
{
    let b = db_files_of(source);
    let result = target.union_prefer_right(b).restrict(db_name_set());
    assert forall|k: Seq<char>| #[trigger] result.contains_key(k) implies b.contains_key(k)
        && result[k] == b[k] by {
        if !b.contains_key(k) {
            assert(target.contains_key(k));
            assert(starts_with_spec(k, db_prefix_chars()));
            assert(source.contents().contains_key(k));
            assert(b.contains_key(k));
        }
    }
}

proof fn lemma_restrict_insert_in(
    m: Map<Seq<char>, Seq<u8>>,
    k: Seq<char>,
    v: Seq<u8>,
    s: Set<Seq<char>>,
)
    requires
        s.contains(k),
    ensures
        m.insert(k, v).restrict(s) =~= m.restrict(s).insert(k, v),
{
}

proof fn lemma_restrict_insert_out(
    m: Map<Seq<char>, Seq<u8>>,
    k: Seq<char>,
    v: Seq<u8>,
    s: Set<Seq<char>>,
)
    requires
        !s.contains(k),
    ensures
        m.insert(k, v).restrict(s) =~= m.restrict(s),
{
}

fn created_at_least(store: &BackupStore, pos: usize, t: &UtcTime) -> (r: bool)
    requires
        pos < store.backups@.len(),
    ensures
        r == utc_le_spec(*t, store.backups@[pos as int].created),
{
    t.le(&store.backups[pos].created)
}

/// Manages the backup store under a retention limit.
pub struct BackupManager {
    pub backup_dir: String,
    pub max_backups: usize,
}

impl BackupManager {
    pub fn new(backup_dir: String, max_backups: usize) -> (m: BackupManager)
        ensures
            m.backup_dir == backup_dir,
            m.max_backups == max_backups,
    {
        BackupManager { backup_dir, max_backups }
    }

    /// Copy the `database.db*` files of `source` into a fresh snapshot named
    /// `<label>-<timestamp of now>`, add it to the store, prune to the
    /// retention limit, and return the snapshot's path.
    pub fn create_backup(&self, store: &mut BackupStore, source: &Dir, label: &str, now: &UtcTime)
        -> (path: String)
        requires
            old(store).wf(),
            now.wf(),
        ensures
            final(store).wf(),
            final(store).backups@.len() == retained_len(
                old(store).backups@.len() as int,
                self.max_backups as int,
            ),
            created_backup(
                old(store).backups@,
                final(store).backups@,
                *source,
                label@,
                *now,
                self.max_backups as int,
            ),
            path@ == self.backup_dir@ + seq!['/'] + backup_name_chars(label@, *now),
    {
        proof {
            reveal_strlit("-");
            reveal_strlit("/");
            assert("-"@ =~= seq!['-']);
            assert("/"@ =~= seq!['/']);
        }
        // Snapshot name.
        let ts = timestamp_name(now);
        let mut nm = String::from_str(label);
        nm.append("-");
        nm.append(ts.as_str());
        assert(nm@ =~= backup_name_chars(label@, *now));

        // Copy the database files.
        let mut files = Dir::new();
        let mut i: usize = 0;
        while i < source.files.len()
            invariant
                i <= source.files@.len(),
                files.wf(),
                files.contents() =~= crate::fsmodel::list_contents(
                    source.files@.take(i as int),
                ).restrict(db_name_set()),
            decreases source.files@.len() - i,
        {
            let ghost pre = source.files@.take(i as int);
            let entry_name = source.files[i].name.as_str();
            if str_starts_with(entry_name, db_prefix_str()) {
                let data = copy_bytes(&source.files[i].data);
                files.put_file(entry_name, data);
                proof {
                    lemma_restrict_insert_in(
                        crate::fsmodel::list_contents(pre),
                        entry_name@,
                        source.files@[i as int].data@,
                        db_name_set(),
                    );
                }
            } else {
                proof {
                    lemma_restrict_insert_out(
                        crate::fsmodel::list_contents(pre),
                        entry_name@,
                        source.files@[i as int].data@,
                        db_name_set(),
                    );
                }
            }
            proof {
                assert(source.files@.take(i + 1).drop_last() =~= pre);
                assert(source.files@.take(i + 1).last() == source.files@[i as int]);
            }
            i += 1;
        }
        proof {
            assert(source.files@.take(source.files@.len() as int) =~= source.files@);
        }

        let nb = Backup { name: nm.clone(), created: *now, files };
        let ghost gnb = nb;

        // Insert in newest-first order.
        let n = store.backups.len();
        let mut pos: usize = 0;
        while pos < n && created_at_least(store, pos, now)
            invariant
                pos <= n,
                n == store.backups@.len(),
                *store == *old(store),
                forall|j: int| 0 <= j < pos ==> utc_le_spec(*now, (#[trigger] store.backups@[j]).created),
            decreases n - pos,
        {
            pos += 1;
        }
        proof {
            lemma_insert_pos_unique(store.backups@, *now, pos as int);
            lemma_insert_sorted(store.backups@, gnb, pos as int);
        }
        let ghost before = store.backups@;
        store.backups.insert(pos, nb);
        assert(store.backups@ == before.insert(pos as int, gnb));

        // Retention.
        let ghost inserted = store.backups@;
        if store.backups.len() > self.max_backups {
            store.backups.truncate(self.max_backups);
            assert(store.backups@ =~= inserted.take(
                retained_len(before.len() as int, self.max_backups as int),
            ));
        } else {
            assert(store.backups@ =~= inserted.take(
                retained_len(before.len() as int, self.max_backups as int),
            ));
        }
        assert(sorted_desc(store.backups@)) by {
            assert(forall|i: int|
                0 <= i < store.backups@.len() ==> store.backups@[i] == inserted[i]);
        }
        assert(store.backups@ == create_backup_result(before, gnb, self.max_backups as int));

        // The snapshot's path.
        let mut path = self.backup_dir.clone();
        path.append("/");
        path.append(nm.as_str());
        assert(path@ =~= self.backup_dir@ + seq!['/'] + backup_name_chars(label@, *now));
        path
    }

    /// The stored snapshots, newest first.
    pub fn list_backups(&self, store: &BackupStore) -> (entries: Vec<BackupEntry>)
        requires
            store.wf(),
        ensures
            entries@.len() == store.backups@.len(),
            forall|i: int|
                0 <= i < entries@.len() ==> {
                    &&& (#[trigger] entries@[i]).name@ == store.backups@[i].name@
                    &&& entries@[i].created == store.backups@[i].created
                    &&& entries@[i].path@ == self.backup_dir@ + seq!['/']
                        + store.backups@[i].name@
                },
            forall|i: int, j: int|
                0 <= i < j < entries@.len() ==> utc_le_spec(
                    (#[trigger] entries@[j]).created,
                    (#[trigger] entries@[i]).created,
                ),
    {
        proof {
            reveal_strlit("/");
            assert("/"@ =~= seq!['/']);
        }
        let mut entries: Vec<BackupEntry> = Vec::new();
        let mut i: usize = 0;
        while i < store.backups.len()
            invariant
                i <= store.backups@.len(),
                entries@.len() == i,
                store.wf(),
                forall|j: int|
                    0 <= j < i ==> {
                        &&& (#[trigger] entries@[j]).name@ == store.backups@[j].name@
                        &&& entries@[j].created == store.backups@[j].created
                        &&& entries@[j].path@ == self.backup_dir@ + seq!['/']
                            + store.backups@[j].name@
                    },
            decreases store.backups@.len() - i,
        {
            proof {
                reveal_strlit("/");
                assert("/"@ =~= seq!['/']);
            }
            let b = &store.backups[i];
            let mut path = self.backup_dir.clone();
            path.append("/");
            path.append(b.name.as_str());
            assert(path@ =~= self.backup_dir@ + seq!['/'] + store.backups@[i as int].name@);
            entries.push(BackupEntry { name: b.name.clone(), path, created: b.created });
            i += 1;
        }
        entries
    }

    /// Copy every file of the snapshot into the target, overwriting.
    pub fn restore_backup(&self, backup: &Dir, target: &mut Dir)
        requires
            old(target).wf(),
        ensures
            final(target).wf(),
            final(target).contents() =~= old(target).contents().union_prefer_right(
                backup.contents(),
            ),
    {
        let mut i: usize = 0;
        while i < backup.files.len()
            invariant
                i <= backup.files@.len(),
                target.wf(),
                target.contents() =~= old(target).contents().union_prefer_right(
                    crate::fsmodel::list_contents(backup.files@.take(i as int)),
                ),
            decreases backup.files@.len() - i,
        {
            let ghost pre = backup.files@.take(i as int);
            let data = copy_bytes(&backup.files[i].data);
            target.put_file(backup.files[i].name.as_str(), data);
            proof {
                assert(backup.files@.take(i + 1).drop_last() =~= pre);
                assert(backup.files@.take(i + 1).last() == backup.files@[i as int]);
                assert(old(target).contents().union_prefer_right(
                    crate::fsmodel::list_contents(pre),
                ).insert(backup.files@[i as int].name@, backup.files@[i as int].data@)
                    =~= old(target).contents().union_prefer_right(
                    crate::fsmodel::list_contents(backup.files@.take(i + 1)),
                ));
            }
            i += 1;
        }
        proof {
            assert(backup.files@.take(backup.files@.len() as int) =~= backup.files@);
        }
    }
}

} // verus!
