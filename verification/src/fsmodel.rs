//! In-memory model of one flat directory: named files with byte contents.
//!
//! The model is an association list with unique names; its mathematical view
//! is a map from file name to contents.  The surrounding application mirrors
//! a real directory into this model and back.

use vstd::prelude::*;

verus! {

use vstd::pervasive::VecAdditionalExecFns;
use vstd::string::StringExecFns;
use crate::strutil::str_eq;

/// The prefix every file of the database triple carries.
pub open spec fn db_prefix_chars() -> Seq<char> {
    seq!['d', 'a', 't', 'a', 'b', 'a', 's', 'e', '.', 'd', 'b']
}

/// The main database file name (equal to the prefix itself).
pub open spec fn db_name_chars() -> Seq<char> {
    db_prefix_chars()
}

/// The shared-memory sidecar file name.
pub open spec fn shm_name_chars() -> Seq<char> {
    db_prefix_chars() + seq!['-', 's', 'h', 'm']
}

/// The write-ahead-log sidecar file name.
pub open spec fn wal_name_chars() -> Seq<char> {
    db_prefix_chars() + seq!['-', 'w', 'a', 'l']
}

/// The metadata file a folder remote keeps beside the triple.
pub open spec fn meta_name_chars() -> Seq<char> {
    seq!['s', 'y', 'n', 'c', '_', 'm', 'e', 't', 'a', '.', 'j', 's', 'o', 'n']
}

pub fn db_prefix_str() -> (s: &'static str)
    ensures
        s@ =~= db_prefix_chars(),
{
    proof {
        reveal_strlit("database.db");
    }
    "database.db"
}

pub fn db_name_str() -> (s: &'static str)
    ensures
        s@ =~= db_name_chars(),
{
    proof {
        reveal_strlit("database.db");
    }
    "database.db"
}

pub fn shm_name_str() -> (s: &'static str)
    ensures
        s@ =~= shm_name_chars(),
{
    proof {
        reveal_strlit("database.db-shm");
    }
    "database.db-shm"
}

pub fn wal_name_str() -> (s: &'static str)
    ensures
        s@ =~= wal_name_chars(),
{
    proof {
        reveal_strlit("database.db-wal");
    }
    "database.db-wal"
}

pub fn meta_name_str() -> (s: &'static str)
    ensures
        s@ =~= meta_name_chars(),
{
    proof {
        reveal_strlit("sync_meta.json");
    }
    "sync_meta.json"
}

/// One file: a name and its bytes.
pub struct FileEntry {
    pub name: String,
    pub data: Vec<u8>,
}

/// A flat directory.
pub struct Dir {
    pub files: Vec<FileEntry>,
}

/// The map described by an entry list: later entries would override earlier
/// ones, though well-formed directories have no duplicate names.
pub open spec fn list_contents(files: Seq<FileEntry>) -> Map<Seq<char>, Seq<u8>>
    decreases files.len(),
{
    if files.len() == 0 {
        Map::empty()
    } else {
        list_contents(files.drop_last()).insert(files.last().name@, files.last().data@)
    }
}

proof fn lemma_list_contents_mem(files: Seq<FileEntry>, k: Seq<char>)
    ensures
        list_contents(files).contains_key(k) <==> (exists|i: int|
            0 <= i < files.len() && (#[trigger] files[i].name)@ == k),
    decreases files.len(),
{
    if files.len() == 0 {
    } else {
        lemma_list_contents_mem(files.drop_last(), k);
        if list_contents(files).contains_key(k) {
            if files.last().name@ == k {
                assert(files[files.len() - 1].name@ == k);
            } else {
                let i = choose|i: int|
                    0 <= i < files.drop_last().len() && (#[trigger] files.drop_last()[i].name)@
                        == k;
                assert(files[i].name@ == k);
            }
        }
        if exists|i: int| 0 <= i < files.len() && (#[trigger] files[i].name)@ == k {
            let i = choose|i: int| 0 <= i < files.len() && (#[trigger] files[i].name)@ == k;
            if i < files.len() - 1 {
                assert(files.drop_last()[i].name@ == k);
            }
        }
    }
}

proof fn lemma_list_contents_val(files: Seq<FileEntry>, i: int)
    requires
        0 <= i < files.len(),
        forall|a: int, b: int|
            0 <= a < b < files.len() ==> (#[trigger] files[a].name)@ != (#[trigger] files[b].name)@,
    ensures
        list_contents(files).contains_key(files[i].name@),
        list_contents(files)[files[i].name@] == files[i].data@,
    decreases files.len(),
{
    if i == files.len() - 1 {
        lemma_list_contents_mem(files, files[i].name@);
    } else {
        lemma_list_contents_val(files.drop_last(), i);
        assert(files.drop_last()[i] == files[i]);
        assert(files.last().name@ != files[i].name@);
    }
}

impl Dir {
    /// Unique names.
    pub open spec fn wf(&self) -> bool {
        forall|a: int, b: int|
            0 <= a < b < self.files@.len() ==> (#[trigger] self.files@[a].name)@ != (
            #[trigger] self.files@[b].name)@
    }

    /// The directory as a map from name to contents.
    pub open spec fn contents(&self) -> Map<Seq<char>, Seq<u8>> {
        list_contents(self.files@)
    }

    pub fn new() -> (d: Dir)
        ensures
            d.wf(),
            d.contents() =~= Map::<Seq<char>, Seq<u8>>::empty(),
    {
        Dir { files: Vec::new() }
    }

    /// Index of the entry named `name`, if any.
    fn find(&self, name: &str) -> (r: Option<usize>)
        ensures
            r matches Some(i) ==> i < self.files@.len() && self.files@[i as int].name@ == name@,
            r is None ==> forall|i: int|
                0 <= i < self.files@.len() ==> (#[trigger] self.files@[i].name)@ != name@,
    {
        let mut i: usize = 0;
        while i < self.files.len()
            invariant
                i <= self.files@.len(),
                forall|j: int| 0 <= j < i ==> (#[trigger] self.files@[j].name)@ != name@,
            decreases self.files@.len() - i,
        {
            if str_eq(self.files[i].name.as_str(), name) {
                return Some(i);
            }
            i += 1;
        }
        None
    }

    /// Whether a file of this name exists.
    pub fn has_file(&self, name: &str) -> (r: bool)
        ensures
            r == self.contents().contains_key(name@),
    {
        proof {
            lemma_list_contents_mem(self.files@, name@);
        }
        self.find(name).is_some()
    }

    /// The contents of the file of this name, if any.
    pub fn get_file<'a>(&'a self, name: &str) -> (r: Option<&'a Vec<u8>>)
        requires
            self.wf(),
        ensures
            r is Some <==> self.contents().contains_key(name@),
            r matches Some(v) ==> v@ == self.contents()[name@],
    {
        proof {
            lemma_list_contents_mem(self.files@, name@);
        }
        match self.find(name) {
            Some(i) => {
                proof {
                    lemma_list_contents_val(self.files@, i as int);
                }
                Some(&self.files[i].data)
            },
            None => None,
        }
    }

    /// Create or overwrite the file of this name.
    pub fn put_file(&mut self, name: &str, data: Vec<u8>)
        requires
            old(self).wf(),
        ensures
            final(self).wf(),
            final(self).contents() =~= old(self).contents().insert(name@, data@),
    {
        match self.find(name) {
            Some(i) => {
                let entry = FileEntry { name: String::from_str(name), data };
                self.files.set(i, entry);
                proof {
                    lemma_set_entry_contents(old(self).files@, self.files@, i as int);
                }
            },
            None => {
                let entry = FileEntry { name: String::from_str(name), data };
                self.files.push(entry);
                proof {
                    assert(self.files@.drop_last() =~= old(self).files@);
                }
            },
        }
    }

}

proof fn lemma_set_entry_contents(before: Seq<FileEntry>, after: Seq<FileEntry>, i: int)
    requires
        0 <= i < before.len(),
        after.len() == before.len(),
        after[i].name@ == before[i].name@,
        forall|j: int| 0 <= j < before.len() && j != i ==> after[j] == before[j],
        forall|a: int, b: int|
            0 <= a < b < before.len() ==> (#[trigger] before[a].name)@ != (
            #[trigger] before[b].name)@,
    ensures
        list_contents(after) =~= list_contents(before).insert(after[i].name@, after[i].data@),
    decreases before.len(),
{
    if before.len() == 0 {
    } else if i == before.len() - 1 {
        assert(after.drop_last() =~= before.drop_last());
    } else {
        lemma_set_entry_contents(before.drop_last(), after.drop_last(), i);
        assert(after.last() == before.last());
        assert(before.last().name@ != before[i].name@);
        assert(list_contents(after) =~= list_contents(before).insert(
            after[i].name@,
            after[i].data@,
        ));
    }
}

} // verus!
