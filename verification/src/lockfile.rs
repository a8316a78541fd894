//! Leader election through the advisory lock file.
//!
//! The lock file at `<runtime_dir>/krun.lock` serves two purposes: holding
//! its advisory exclusive lock makes a process the leader, and its byte
//! contents publish the leader's listening port. The contents are only
//! trustworthy while some process holds the lock, which is why a reader that
//! failed to take the lock validates the parsed value instead of trusting it
//! blindly: values at or below 1024 are never reported as a usable port.

use vstd::prelude::*;
use crate::errors::CoreError;
use crate::fsio::{
    create_file_for_write, errno_message, open_file_read_write, path_exists, read_chunk,
    truncate_to_zero, try_lock_exclusive, write_some,
};
use crate::numeric::{
    lemma_dec_parse_round_trip, parse_u32_bytes, spec_dec_bytes, spec_parse_u32, u32_to_dec_bytes,
};

verus! {

/// Ports at or below this value are in the reserved range and are never
/// trusted as a published leader port.
pub const MAX_UNTRUSTED_PORT: u32 = 1024;

/// The lock file's path under the runtime directory.
pub open spec fn spec_lock_path(dir: Seq<char>) -> Seq<char> {
    dir + "/krun.lock"@
}

pub fn lock_file_path(runtime_dir: &str) -> (r: String)
    ensures
        r@ == spec_lock_path(runtime_dir@),
{
    String::from_str(runtime_dir).concat("/krun.lock")
}

/// What lock file bytes publish: a port, but only when they parse as a
/// decimal integer strictly above the reserved range; a parse failure or a
/// reserved value is silently "no usable port".
pub open spec fn spec_published_port(data: Seq<u8>) -> Option<u32> {
    match spec_parse_u32(data) {
        Some(p) => if p > MAX_UNTRUSTED_PORT {
            Some(p)
        } else {
            None
        },
        None => None,
    }
}

/// Reads the published leader port out of the lock file's bytes, exactly as
/// [`spec_published_port`] says; a usable port is always above 1024.
pub fn interpret_lock_contents(data: &Vec<u8>) -> (r: Option<u32>)
    ensures
        r == spec_published_port(data@),
        r matches Some(p) ==> p > MAX_UNTRUSTED_PORT,
{
    match parse_u32_bytes(data) {
        Some(p) => if p > MAX_UNTRUSTED_PORT {
            Some(p)
        } else {
            None
        },
        None => None,
    }
}

/// The outcome of one leader-election attempt.
pub enum LockOutcome {
    /// This process took the exclusive lock and is now the leader; the still
    /// held lock must stay open for the whole server lifetime.
    Acquired(rustix::fd::OwnedFd),
    /// Someone else holds the lock; the payload is the usable port they
    /// published, if any.
    Busy(Option<u32>),
}

/// Bound on the 64-byte chunks read from the lock file, there only so the
/// read loop provably terminates: it exceeds the chunk count of the largest
/// file the OS can hold, so reading always reaches end of file.
pub const MAX_READ_CHUNKS: u64 = 0x2000_0000_0000_0000;

/// Reads the lock file to end of file (`None` only past [`MAX_READ_CHUNKS`],
/// which no real file reaches).
fn read_lock_bytes(fd: &rustix::fd::OwnedFd) -> (r: Result<Option<Vec<u8>>, CoreError>)
    ensures
        r matches Err(e) ==> e is Configuration,
{
    let mut buf: Vec<u8> = Vec::new();
    let mut chunks: u64 = 0;
    while chunks < MAX_READ_CHUNKS
        invariant
            chunks <= MAX_READ_CHUNKS,
        decreases MAX_READ_CHUNKS - chunks,
    {
        match read_chunk(fd, &mut buf) {
            Ok(0) => {
                return Ok(Some(buf));
            },
            Ok(_) => {},
            Err(e) => {
                return Err(config_error("Failed to read lock file: ", &e));
            },
        }
        chunks = chunks + 1;
    }
    Ok(None)
}

/// Wraps an OS error as a fatal configuration error naming the failed step.
fn config_error(context: &str, e: &rustix::io::Errno) -> (r: CoreError)
    ensures
        r is Configuration,
{
    CoreError::Configuration(String::from_str(context).concat(errno_message(e).as_str()))
}

/// Writes all of the bytes at the current file position. Handing the OS a
/// zero-length write result forever would loop, so that case is a fatal
/// error, as `write_all` treats it.
fn write_all_bytes(fd: &rustix::fd::OwnedFd, bytes: &[u8]) -> (r: Result<(), CoreError>)
    ensures
        r matches Err(e) ==> e is Configuration,
{
    let n = bytes.len();
    let mut written: usize = 0;
    while written < n
        invariant
            written <= n,
            n == bytes@.len(),
        decreases n - written,
    {
        let rest = vstd::slice::slice_subrange(bytes, written, n);
        match write_some(fd, rest) {
            Ok(0) => {
                return Err(
                    CoreError::Configuration(
                        String::from_str("Failed to write lock file: wrote zero bytes"),
                    ),
                );
            },
            Ok(k) => {
                written = written + k;
            },
            Err(e) => {
                return Err(config_error("Failed to write lock file: ", &e));
            },
        }
    }
    Ok(())
}

/// Truncates the lock file and publishes the new leader's port as decimal
/// text: the file never holds a previous leader's stale port once a new
/// owner has the lock settled. A failure to publish is fatal.
fn publish_port(fd: &rustix::fd::OwnedFd, port: u32) -> (r: Result<(), CoreError>)
    ensures
        r matches Err(e) ==> e is Configuration,
{
    match truncate_to_zero(fd) {
        Ok(()) => {},
        Err(e) => {
            return Err(config_error("Failed to truncate lock file: ", &e));
        },
    }
    let text = u32_to_dec_bytes(port);
    write_all_bytes(fd, text.as_slice())
}

/// Publish/discover round trip: the decimal text a new leader writes is read
/// back as exactly that port by a failed-lock reader, and is reported as
/// usable precisely when it lies above the reserved range.
pub proof fn lemma_publish_discover_round_trip(port: u32)
    ensures
        spec_published_port(spec_dec_bytes(port as nat)) == (if port > MAX_UNTRUSTED_PORT {
            Some(port)
        } else {
            None::<u32>
        }),
{
    lemma_dec_parse_round_trip(port);
}

/// One leader-election attempt, as the lock coordinator's algorithm says:
/// a missing lock file is created and locked (a fresh file has no
/// contender); an existing one is opened and locked if possible, the stale
/// content being overwritten with `candidate_port`; when the lock is already
/// held, the holder's published port is read and validated instead. Every
/// failure here is a fatal configuration error, and a discovered port is
/// always above the reserved range.
pub fn acquire_or_discover(runtime_dir: &str, candidate_port: u32) -> (r: Result<
    LockOutcome,
    CoreError,
>)
    ensures
        r matches Ok(o) ==> (o matches LockOutcome::Busy(op) ==> (op matches Some(p) ==> p
            > MAX_UNTRUSTED_PORT)),
        r matches Err(e) ==> e is Configuration,
{
    let path = lock_file_path(runtime_dir);
    if !path_exists(path.as_str()) {
        let fd = match create_file_for_write(path.as_str()) {
            Ok(fd) => fd,
            Err(e) => {
                return Err(config_error("Failed to create lock file: ", &e));
            },
        };
        match try_lock_exclusive(&fd) {
            Ok(()) => {},
            Err(e) => {
                return Err(
                    config_error("Failed to acquire exclusive lock on new lock file: ", &e),
                );
            },
        }
        match publish_port(&fd, candidate_port) {
            Ok(()) => Ok(LockOutcome::Acquired(fd)),
            Err(e) => Err(e),
        }
    } else {
        let fd = match open_file_read_write(path.as_str()) {
            Ok(fd) => fd,
            Err(e) => {
                return Err(config_error("Failed to open lock file: ", &e));
            },
        };
        match try_lock_exclusive(&fd) {
            Ok(()) => {
                match publish_port(&fd, candidate_port) {
                    Ok(()) => Ok(LockOutcome::Acquired(fd)),
                    Err(e) => Err(e),
                }
            },
            Err(_) => {
                match read_lock_bytes(&fd) {
                    Ok(Some(data)) => Ok(LockOutcome::Busy(interpret_lock_contents(&data))),
                    Ok(None) => Ok(LockOutcome::Busy(None)),
                    Err(e) => Err(e),
                }
            },
        }
    }
}

} // verus!
