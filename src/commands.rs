//! The delete and restore commands, and reading the command line.

use vstd::prelude::*;

use crate::registry::{DeletionRecord, RecordModel, Registry};
use crate::retention::{expired_set, RETENTION_SECS};

verus! {

/// Why a command failed.
#[derive(Debug)]
pub enum EraserError {
    /// No deletion record is held for the path.
    NotFound,
    /// A move or removal on the file system failed; the text says why.
    Io(String),
}

/// Why the command line was not understood.
#[derive(Debug)]
pub enum UsageError {
    /// Fewer than a command and a path were given.
    MissingArguments,
    /// The command word is neither `delete` nor `restore`.
    UnknownCommand(String),
}

/// A command to run.
#[derive(Debug)]
pub enum Command {
    /// Move the file at the path into holding.
    Delete(String),
    /// Move the held file back to the path.
    Restore(String),
}

/// Reads `<program> <command> <path>`: the program's name comes first.
pub fn parse_command(args: &Vec<String>) -> (r: Result<Command, UsageError>)
    ensures
        match r {
            Ok(Command::Delete(p)) => args@.len() >= 3 && args@[1]@ == "delete"@ && p@ == args@[2]@,
            Ok(Command::Restore(p)) => args@.len() >= 3 && args@[1]@ == "restore"@ && p@
                == args@[2]@,
            Err(UsageError::MissingArguments) => args@.len() < 3,
            Err(UsageError::UnknownCommand(c)) => args@.len() >= 3 && args@[1]@ != "delete"@
                && args@[1]@ != "restore"@ && c@ == args@[1]@,
        },
{
    if args.len() < 3 {
        return Err(UsageError::MissingArguments);
    }
    let delete_word: String = "delete".to_owned();
    let restore_word: String = "restore".to_owned();
    if args[1] == delete_word {
        Ok(Command::Delete(args[2].clone()))
    } else if args[1] == restore_word {
        Ok(Command::Restore(args[2].clone()))
    } else {
        Err(UsageError::UnknownCommand(args[1].clone()))
    }
}

/// What a successful delete records: the holding path and the time of the
/// move.
pub open spec fn deletion_model(holding_path: Seq<char>, now: u64) -> RecordModel {
    RecordModel { created_at: now, holding_path }
}

/// Finishes a delete of `path` once the move into holding has been tried.
/// `moved` is the holding path the file was moved to, or why the move
/// failed. Only a completed move is recorded; a record already held for
/// `path` is replaced and handed back, its held file left behind.
pub fn record_deletion(
    registry: &mut Registry,
    path: String,
    moved: Result<String, String>,
    now: u64,
) -> (r: Result<Option<DeletionRecord>, EraserError>)
    requires
        old(registry).wf(),
    ensures
        final(registry).wf(),
        match moved {
            Ok(h) => final(registry)@ == old(registry)@.insert(path@, deletion_model(h@, now))
                && match r {
                Ok(Some(d)) => old(registry)@.contains_key(path@) && d@ == old(registry)@[path@],
                Ok(None) => !old(registry)@.contains_key(path@),
                Err(_) => false,
            },
            Err(e) => final(registry)@ == old(registry)@ && r == Err::<Option<DeletionRecord>, _>(
                EraserError::Io(e),
            ),
        },
{
    match moved {
        Ok(holding_path) => {
            let superseded = registry.insert(path, DeletionRecord::new(now, holding_path));
            Ok(superseded)
        },
        Err(e) => Err(EraserError::Io(e)),
    }
}

/// Starts a restore of `path`: takes its record out of the registry, so that
/// the held file can be moved back. Whether that move then succeeds or not,
/// the record is gone. Fails with `NotFound` exactly when no record is held.
pub fn claim_for_restore(registry: &mut Registry, path: &String) -> (r: Result<DeletionRecord, EraserError>)
    requires
        old(registry).wf(),
    ensures
        final(registry).wf(),
        final(registry)@ == old(registry)@.remove(path@),
        match r {
            Ok(d) => old(registry)@.contains_key(path@) && d@ == old(registry)@[path@],
            Err(e) => !old(registry)@.contains_key(path@) && e is NotFound,
        },
{
    match registry.remove(path) {
        Some(d) => Ok(d),
        None => Err(EraserError::NotFound),
    }
}

/// A delete followed at once by a restore of the same path hands back the
/// holding path the delete recorded and leaves no record for the path;
/// the other records are as they were.
pub proof fn lemma_delete_then_restore(
    m: Map<Seq<char>, RecordModel>,
    path: Seq<char>,
    holding_path: Seq<char>,
    now: u64,
)
    ensures
        ({
            let deleted = m.insert(path, deletion_model(holding_path, now));
            &&& deleted.contains_key(path)
            &&& deleted[path].holding_path == holding_path
            &&& !deleted.remove(path).contains_key(path)
            &&& deleted.remove(path) == m.remove(path)
        }),
{
    assert(m.insert(path, deletion_model(holding_path, now)).remove(path) =~= m.remove(path));
}

/// A restore of a path that holds no record fails and changes nothing.
pub proof fn lemma_restore_unknown(m: Map<Seq<char>, RecordModel>, path: Seq<char>)
    requires
        !m.contains_key(path),
    ensures
        m.remove(path) == m,
{
    assert(m.remove(path) =~= m);
}

/// Deleting the same path twice keeps only the second record: restoring
/// then hands back the second holding path, and the first is superseded.
pub proof fn lemma_delete_twice(
    m: Map<Seq<char>, RecordModel>,
    path: Seq<char>,
    first: Seq<char>,
    first_at: u64,
    second: Seq<char>,
    second_at: u64,
)
    ensures
        ({
            let once = m.insert(path, deletion_model(first, first_at));
            let twice = once.insert(path, deletion_model(second, second_at));
            &&& once.contains_key(path) && once[path] == deletion_model(first, first_at)
            &&& twice == m.insert(path, deletion_model(second, second_at))
            &&& twice[path].holding_path == second
        }),
{
    assert(m.insert(path, deletion_model(first, first_at)).insert(path, deletion_model(second, second_at))
        =~= m.insert(path, deletion_model(second, second_at)));
}

/// Restore and sweep both take a record out of the registry before touching
/// its held file. Of two such takes on one path, whichever comes first gets
/// the record and the second finds none: after a restore the sweeper finds
/// nothing expired for the path, and after a sweep the restore finds no
/// record. The held file is never both restored and purged.
pub proof fn lemma_single_claim(m: Map<Seq<char>, RecordModel>, path: Seq<char>, now: u64)
    ensures
        !m.remove(path).contains_key(path),
        !expired_set(m.remove(path), now, RETENTION_SECS).contains(path),
        m.remove(path).remove(path) == m.remove(path),
{
    assert(m.remove(path).remove(path) =~= m.remove(path));
}

} // verus!
