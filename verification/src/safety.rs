//! Safety guard: decides whether the database directory is safe to read or
//! write, and validates SQLite file headers.
//!
//! The process scan goes through the `sysinfo` crate; what it returns depends
//! on the machine's state at the call, so the verified logic takes the
//! returned name list as input and is proved exact over it.

use vstd::prelude::*;

verus! {

use crate::strutil::{contains_spec, str_contains};

/// The 16 magic bytes that open every SQLite database file
/// (the ASCII of `SQLite format 3` followed by a NUL).
pub open spec fn sqlite_magic() -> Seq<u8> {
    seq![
        0x53u8, 0x51u8, 0x4cu8, 0x69u8, 0x74u8, 0x65u8, 0x20u8, 0x66u8, 0x6fu8, 0x72u8, 0x6du8,
        0x61u8, 0x74u8, 0x20u8, 0x33u8, 0x00u8,
    ]
}

/// A buffer is a valid database iff it is strictly longer than the magic
/// and begins with it.
pub open spec fn valid_sqlite_header(data: Seq<u8>) -> bool {
    data.len() > 16 && data.subrange(0, 16) =~= sqlite_magic()
}

fn magic_byte(i: usize) -> (b: u8)
    requires
        i < 16,
    ensures
        b == sqlite_magic()[i as int],
{
    match i {
        0 => 0x53,
        1 => 0x51,
        2 => 0x4c,
        3 => 0x69,
        4 => 0x74,
        5 => 0x65,
        6 => 0x20,
        7 => 0x66,
        8 => 0x6f,
        9 => 0x72,
        10 => 0x6d,
        11 => 0x61,
        12 => 0x74,
        13 => 0x20,
        14 => 0x33,
        _ => 0x00,
    }
}

/// Check the SQLite magic header bytes.
pub fn validate_sqlite_header(data: &[u8]) -> (r: bool)
    ensures
        r == valid_sqlite_header(data@),
{
    if data.len() <= 16 {
        return false;
    }
    let mut i: usize = 0;
    while i < 16
        invariant
            i <= 16,
            data@.len() > 16,
            forall|j: int| 0 <= j < i ==> data@[j] == sqlite_magic()[j],
        decreases 16 - i,
    {
        if data[i] != magic_byte(i) {
            assert(!valid_sqlite_header(data@)) by {
                if valid_sqlite_header(data@) {
                    assert(data@.subrange(0, 16)[i as int] == data@[i as int]);
                }
            }
            return false;
        }
        i += 1;
    }
    assert(data@.subrange(0, 16) =~= sqlite_magic());
    true
}

/// Outcome of a safety probe of the database directory.
#[derive(Debug, Clone, PartialEq, Eq, Structural)]
pub enum SafetyCheck {
    Safe,
    GGRunning,
    FileLocked,
    NoConfig,
}

/// The read decision: absent file blocks, unreadable file blocks,
/// otherwise reading is safe (a running Engine never blocks reads).
pub open spec fn read_safety_spec(db_exists: bool, db_readable: bool) -> SafetyCheck {
    if !db_exists {
        SafetyCheck::NoConfig
    } else if !db_readable {
        SafetyCheck::FileLocked
    } else {
        SafetyCheck::Safe
    }
}

/// The write decision: a running Engine blocks; otherwise as for reads,
/// except that an absent file is safe to write (an initial pull into an
/// empty directory is legal).
pub open spec fn write_safety_spec(gg_running: bool, db_exists: bool, db_readable: bool) -> SafetyCheck {
    if gg_running {
        SafetyCheck::GGRunning
    } else if !db_exists {
        SafetyCheck::Safe
    } else if !db_readable {
        SafetyCheck::FileLocked
    } else {
        SafetyCheck::Safe
    }
}

/// A process name that belongs to the Engine: it contains one of the known
/// executable-name tokens.
pub open spec fn engine_name_match(name: Seq<char>) -> bool {
    ||| contains_spec(name, "SteelSeriesGG"@)
    ||| contains_spec(name, "SteelSeriesGG.exe"@)
    ||| contains_spec(name, "SteelSeriesEngine"@)
    ||| contains_spec(name, "SteelSeriesEngine.exe"@)
    ||| contains_spec(name, "SteelSeriesEngine3"@)
    ||| contains_spec(name, "SteelSeriesEngine3.exe"@)
}

pub fn is_engine_process_name(name: &str) -> (r: bool)
    ensures
        r == engine_name_match(name@),
{
    str_contains(name, "SteelSeriesGG") || str_contains(name, "SteelSeriesGG.exe")
        || str_contains(name, "SteelSeriesEngine") || str_contains(name, "SteelSeriesEngine.exe")
        || str_contains(name, "SteelSeriesEngine3") || str_contains(
        name,
        "SteelSeriesEngine3.exe",
    )
}

/// Some name in the list belongs to the Engine.
pub open spec fn any_engine_name(names: Seq<Seq<char>>) -> bool {
    exists|i: int| 0 <= i < names.len() && engine_name_match(#[trigger] names[i])
}

pub fn any_engine_process(names: &Vec<String>) -> (r: bool)
    ensures
        r == any_engine_name(names.deep_view()),
{
    let mut i: usize = 0;
    while i < names.len()
        invariant
            i <= names@.len(),
            forall|j: int| 0 <= j < i ==> !engine_name_match(#[trigger] names.deep_view()[j]),
        decreases names@.len() - i,
    {
        if is_engine_process_name(names[i].as_str()) {
            assert(names.deep_view()[i as int] == names@[i as int]@);
            assert(any_engine_name(names.deep_view()));
            return true;
        }
        assert(names.deep_view()[i as int] == names@[i as int]@);
        i += 1;
    }
    false
}

#[verifier::external_type_specification]
#[verifier::external_body]
pub struct ExSystem(sysinfo::System);

/// Relies on `sysinfo::System::new`: a process-table holder with nothing
/// refreshed yet.
#[verifier::external_body]
fn new_system() -> sysinfo::System {
    sysinfo::System::new()
}

/// Relies on `sysinfo::System::refresh_processes` and `Process::name`:
/// re-enumerates the OS process table and hands back the names of the live
/// processes.  The result depends on the machine's state at the call, so
/// nothing is promised of it.
#[verifier::external_body]
fn refresh_process_names(system: &mut sysinfo::System) -> (names: Vec<String>)
{
    system.refresh_processes(sysinfo::ProcessesToUpdate::All, true);
    system
        .processes()
        .values()
        .map(|p| p.name().to_string_lossy().to_string())
        .collect()
}

/// Checks Engine process state and combines it with probe results supplied
/// by the caller (whether `database.db` exists and could be opened).
pub struct SafetyGuard {
    system: sysinfo::System,
}

impl SafetyGuard {
    pub fn new() -> SafetyGuard {
        SafetyGuard { system: new_system() }
    }

    /// Re-scan the process table and report whether the Engine is live.
    /// The answer reflects the machine at the moment of the call; nothing
    /// further is promised of it.
    pub fn is_gg_running(&mut self) -> bool {
        let names = refresh_process_names(&mut self.system);
        any_engine_process(&names)
    }

    /// The read decision for a directory whose `database.db` existence and
    /// readability the caller has probed.
    pub fn is_safe_to_read(&self, db_exists: bool, db_readable: bool) -> (r: SafetyCheck)
        ensures
            r == read_safety_spec(db_exists, db_readable),
    {
        if !db_exists {
            SafetyCheck::NoConfig
        } else if !db_readable {
            SafetyCheck::FileLocked
        } else {
            SafetyCheck::Safe
        }
    }

    /// The write decision: scans the process table, then decides from the
    /// probe results.  The scan's outcome cannot be pinned down, so the
    /// contract says the result is either `GGRunning` or the scan-free
    /// decision.
    pub fn is_safe_to_write(&mut self, db_exists: bool, db_readable: bool) -> (r: SafetyCheck)
        ensures
            r == SafetyCheck::GGRunning || r == write_safety_spec(false, db_exists, db_readable),
    {
        if self.is_gg_running() {
            return SafetyCheck::GGRunning;
        }
        if !db_exists {
            SafetyCheck::Safe
        } else if !db_readable {
            SafetyCheck::FileLocked
        } else {
            SafetyCheck::Safe
        }
    }
}

} // verus!
