//! One Brick at a time: what the locks say, and how long a replacement waits for them.
use crate::address::text_of;

use crate::text::{parse_signed, signed_number, trim, trimmed};
use vstd::prelude::*;

verus! {

/// How long a replacement waits for the old instance.
pub const RESTART_TIMEOUT: u64 = 30_000_000;

/// How long it waits between two attempts.
pub const RETRY_INTERVAL: u64 = 100_000;

#[derive(Debug)]
pub enum InstanceLockError {
    AlreadyRunning,
    Other(String),
}

/// Which locks this instance holds.
#[derive(Clone, Copy, Debug, PartialEq, Eq, Structural)]
pub struct InstanceGuard {
    pub mutex: bool,
    pub file: bool,
}

/// Whether the start goes on after the named mutex was tried, and whether it is held.
pub open spec fn mutex_held(result: Result<(), InstanceLockError>) -> Result<bool, InstanceLockError> {
    match result {
        Ok(_) => Ok::<bool, InstanceLockError>(true),
        Err(InstanceLockError::AlreadyRunning) => Err::<bool, InstanceLockError>(InstanceLockError::AlreadyRunning),
        Err(InstanceLockError::Other(_)) => Ok::<bool, InstanceLockError>(false),
    }
}

/// Whether the start goes on after the named mutex was tried, and whether it is held. Only
/// another instance stops it: the lock on the file decides where the mutex cannot be had.
pub fn mutex_outcome(result: Result<(), InstanceLockError>) -> (held: Result<bool, InstanceLockError>)
    ensures
        held == mutex_held(result),
{
    match result {
        Ok(_) => Ok(true),
        Err(InstanceLockError::AlreadyRunning) => Err(InstanceLockError::AlreadyRunning),
        Err(InstanceLockError::Other(_)) => Ok(false),
    }
}

/// Which locks are held once the lock on the file was tried too.
pub open spec fn locks_held(mutex: bool, file: Result<(), InstanceLockError>) -> Result<InstanceGuard, InstanceLockError> {
    match file {
        Ok(_) => Ok::<InstanceGuard, InstanceLockError>(InstanceGuard { mutex, file: true }),
        Err(InstanceLockError::AlreadyRunning) => Err::<InstanceGuard, InstanceLockError>(
            InstanceLockError::AlreadyRunning,
        ),
        Err(InstanceLockError::Other(error)) => if mutex {
            Ok::<InstanceGuard, InstanceLockError>(InstanceGuard { mutex, file: false })
        } else {
            Err::<InstanceGuard, InstanceLockError>(InstanceLockError::Other(error))
        },
    }
}

/// Whether this instance may run, once the lock on the file was tried too. A file that
/// cannot be locked is no obstacle while the mutex is held.
pub fn acquire(mutex: bool, file: Result<(), InstanceLockError>) -> (result: Result<InstanceGuard, InstanceLockError>)
    ensures
        result == locks_held(mutex, file),
{
    match file {
        Ok(_) => Ok(InstanceGuard { mutex, file: true }),
        Err(InstanceLockError::AlreadyRunning) => Err(InstanceLockError::AlreadyRunning),
        Err(InstanceLockError::Other(error)) => if mutex {
            Ok(InstanceGuard { mutex, file: false })
        } else {
            Err(InstanceLockError::Other(error))
        },
    }
}

/// Until when a start waits for a running instance.
pub open spec fn start_deadline(update_restart: bool, now: u64) -> Option<u64> {
    if update_restart { Some(crate::clock::later(now, RESTART_TIMEOUT)) } else { None }
}

/// The deadline of a start: none at all unless it replaces a running instance.
pub fn acquire_for_start(update_restart: bool, now: u64) -> (deadline: Option<u64>)
    ensures
        deadline == start_deadline(update_restart, now),
{
    if update_restart {
        Some(crate::clock::after(now, RESTART_TIMEOUT))
    } else {
        None
    }
}

/// How long to wait before the next attempt, where there is one: only another instance is
/// waited for, and never past the deadline.
pub open spec fn next_wait(running: bool, now: u64, deadline: u64) -> Option<u64> {
    if running && now < deadline {
        Some(if deadline - now < RETRY_INTERVAL { (deadline - now) as u64 } else { RETRY_INTERVAL })
    } else {
        None
    }
}

pub fn acquire_until_released(running: bool, now: u64, deadline: u64) -> (wait: Option<u64>)
    ensures
        wait == next_wait(running, now, deadline),
{
    if !running || now >= deadline {
        return None;
    }
    let left: u64 = deadline - now;
    if left < RETRY_INTERVAL { Some(left) } else { Some(RETRY_INTERVAL) }
}

/// The error of a lock that could not be tried.
pub fn lock_failure(verb: &str, path: &str, error: &str) -> (failure: InstanceLockError)
    ensures
        failure is Other,
        failure->Other_0@ == "Failed to "@ + verb@ + " "@ + path@ + ": "@ + error@,
{
    InstanceLockError::Other(
        String::from_str("Failed to ").concat(verb).concat(" ").concat(path).concat(": ").concat(error),
    )
}

/// The token that a file of a request to show the window holds.
pub open spec fn show_token(contents: Seq<char>) -> Option<Seq<char>> {
    if trimmed(contents).len() == 0 { None } else { Some(trimmed(contents)) }
}

/// The token of a request to show the window, if the file holds one.
pub fn read_show_request(contents: &str) -> (token: Option<String>)
    ensures
        text_of(token) == show_token(contents@),
{
    let token = trim(contents);
    if token.as_str().is_empty() {
        None
    } else {
        Some(token)
    }
}

/// The window handle that a file holds: any number but zero.
pub open spec fn saved_handle(contents: Seq<char>) -> Option<int> {
    match signed_number(trimmed(contents)) {
        Some(handle) => if handle != 0 {
            Some(handle)
        } else {
            None
        },
        None => None,
    }
}

/// The window handle that the running instance left, if the file holds one.
pub fn show_saved_main_window(contents: &str) -> (handle: Option<i64>)
    ensures
        match handle {
            Some(handle) => saved_handle(contents@) == Some(handle as int),
            None => saved_handle(contents@) is None,
        },
{
    match parse_signed(&trim(contents)) {
        Some(handle) => if handle != 0 {
            Some(handle)
        } else {
            None
        },
        None => None,
    }
}

/// How many waits are left until the deadline, where each one takes its full time.
pub open spec fn waits_left(now: u64, deadline: u64) -> nat
    decreases deadline - now,
{
    match next_wait(true, now, deadline) {
        Some(wait) => if 0 < wait <= deadline - now { 1 + waits_left((now + wait) as u64, deadline) } else { 0 },
        None => 0,
    }
}

/// Waiting for another instance ends: each wait is no longer than the interval, none goes past
/// the deadline, and their number is what fits before it.
pub proof fn waits_are_bounded(now: u64, deadline: u64)
    ensures
        match next_wait(true, now, deadline) {
            Some(wait) => 0 < wait <= RETRY_INTERVAL && now + wait <= deadline,
            None => now >= deadline,
        },
        now <= deadline ==> waits_left(now, deadline) <= (deadline - now) / RETRY_INTERVAL as int + 1,
    decreases deadline - now,
{
    if now < deadline {
        let wait = next_wait(true, now, deadline)->0;
        waits_are_bounded((now + wait) as u64, deadline);
        if deadline - now < RETRY_INTERVAL {
            assert(waits_left(deadline, deadline) == 0);
        } else {
            assert((deadline - now) / RETRY_INTERVAL as int == (deadline - now - RETRY_INTERVAL) / RETRY_INTERVAL as int
                + 1) by (nonlinear_arith)
                requires
                    RETRY_INTERVAL == 100_000,
            ;
        }
    }
}

/// Nothing runs beside another instance, whichever lock shows it; a lock that could not be tried stops
/// the start only where no other is held.
pub proof fn one_instance_runs_at_a_time(mutex: Result<(), InstanceLockError>, file: Result<(), InstanceLockError>)
    ensures
        mutex == Err::<(), InstanceLockError>(InstanceLockError::AlreadyRunning) <==> mutex_held(mutex) is Err,
        mutex is Ok ==> mutex_held(mutex) == Ok::<bool, InstanceLockError>(true),
        mutex is Err && mutex->Err_0 is Other ==> mutex_held(mutex) == Ok::<bool, InstanceLockError>(false),
        file is Err && file->Err_0 is AlreadyRunning ==> locks_held(true, file) is Err && locks_held(false, file) is Err,
        file is Ok ==> locks_held(true, file) is Ok && locks_held(false, file) is Ok && locks_held(false, file)->Ok_0.file,
        file is Err && file->Err_0 is Other ==> locks_held(true, file) is Ok && locks_held(false, file) is Err,
        mutex_held(mutex) is Ok && locks_held(mutex_held(mutex)->Ok_0, file) is Ok ==> {
            let guard = locks_held(mutex_held(mutex)->Ok_0, file)->Ok_0;
            guard.mutex || guard.file
        },
        locks_held(true, file) is Ok ==> locks_held(true, file)->Ok_0.mutex && (locks_held(true, file)->Ok_0.file <==> file
            is Ok),
{
}

/// Only a start that replaces a running instance waits for it, for thirty seconds, and looks again every
/// tenth of a second.
pub proof fn replacements_wait_thirty_seconds(now: u64, deadline: u64, running: bool)
    ensures
        start_deadline(false, now) is None,
        now + 30_000_000 <= u64::MAX ==> start_deadline(true, now) == Some((now + 30_000_000) as u64),
        next_wait(running, now, deadline) is Some <==> running && now < deadline,
        running && now + 100_000 <= deadline ==> next_wait(running, now, deadline) == Some(100_000u64),
        running && now < deadline < now + 100_000 ==> next_wait(running, now, deadline) == Some((deadline - now) as u64),
{
}

/// Blank files hold neither a token nor a handle, and zero is no handle.
pub proof fn blank_files_hold_nothing(contents: Seq<char>)
    ensures
        trimmed(contents).len() == 0 ==> show_token(contents) is None,
        trimmed(contents).len() > 0 ==> show_token(contents) == Some(trimmed(contents)),
        saved_handle(contents) != Some(0int),
        signed_number(trimmed(contents)) is Some && signed_number(trimmed(contents))->0 != 0 ==> saved_handle(contents)
            == signed_number(trimmed(contents)),
        signed_number(trimmed(contents)) is None ==> saved_handle(contents) is None,
{
}

} // verus!
