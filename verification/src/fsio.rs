//! Trusted boundary to the operating system, through `rustix`.
//!
//! Every item here is believed, not proved: each wrapper makes exactly one
//! `rustix` call, and its contract states only what that call's source and
//! documentation plainly give. Results that depend on the state of the disk
//! (whether a path exists, what a file holds, whether a lock is free) are
//! deliberately left unconstrained; the verified callers state what holds of
//! every possible outcome.

use vstd::prelude::*;

verus! {

#[verifier::external_type_specification]
#[verifier::external_body]
pub struct ExOwnedFd(rustix::fd::OwnedFd);

#[verifier::external_type_specification]
#[verifier::external_body]
pub struct ExErrno(rustix::io::Errno);

/// Relies on `rustix::fs::access` with `Access::EXISTS`: whether the path
/// names an existing filesystem entry right now.
#[verifier::external_body]
pub(crate) fn path_exists(path: &str) -> bool {
    rustix::fs::access(path, rustix::fs::Access::EXISTS).is_ok()
}

/// Relies on `rustix::fs::open` with `CREATE | WRONLY | TRUNC` and mode
/// `0o666`: creates (or truncates) the file and opens it for writing, as
/// `File::create` would.
#[verifier::external_body]
pub(crate) fn create_file_for_write(path: &str) -> Result<rustix::fd::OwnedFd, rustix::io::Errno> {
    rustix::fs::open(
        path,
        rustix::fs::OFlags::CREATE | rustix::fs::OFlags::WRONLY | rustix::fs::OFlags::TRUNC,
        rustix::fs::Mode::from_raw_mode(0o666),
    )
}

/// Relies on `rustix::fs::open` with `RDWR`: opens an existing file for
/// reading and writing, without creating or truncating it.
#[verifier::external_body]
pub(crate) fn open_file_read_write(path: &str) -> Result<rustix::fd::OwnedFd, rustix::io::Errno> {
    rustix::fs::open(path, rustix::fs::OFlags::RDWR, rustix::fs::Mode::empty())
}

/// Relies on `rustix::fs::flock` with `NonBlockingLockExclusive`: succeeds
/// exactly when the advisory exclusive lock was taken without blocking, and
/// fails without waiting when another open file description holds it.
#[verifier::external_body]
pub(crate) fn try_lock_exclusive(fd: &rustix::fd::OwnedFd) -> Result<(), rustix::io::Errno> {
    rustix::fs::flock(fd, rustix::fs::FlockOperation::NonBlockingLockExclusive)
}

/// Relies on `rustix::io::read`: reads at most 64 bytes at the current file
/// position and appends exactly the bytes read; on error nothing is
/// appended. A return of `Ok(0)` means end of file for a regular file.
#[verifier::external_body]
pub(crate) fn read_chunk(fd: &rustix::fd::OwnedFd, buf: &mut Vec<u8>) -> (r: Result<
    usize,
    rustix::io::Errno,
>)
    ensures
        r matches Ok(n) ==> n <= 64 && final(buf)@.len() == old(buf)@.len() + n,
        r matches Ok(n) ==> final(buf)@.subrange(0, old(buf)@.len() as int) == old(buf)@,
        r is Err ==> final(buf)@ == old(buf)@,
{
    let mut tmp = [0u8; 64];
    match rustix::io::read(fd, &mut tmp[..]) {
        Ok(n) => {
            buf.extend_from_slice(&tmp[..n]);
            Ok(n)
        },
        Err(e) => Err(e),
    }
}

/// Relies on `rustix::io::write`: writes some prefix of the bytes at the
/// current file position and returns how many were written, never more than
/// were given.
#[verifier::external_body]
pub(crate) fn write_some(fd: &rustix::fd::OwnedFd, bytes: &[u8]) -> (r: Result<
    usize,
    rustix::io::Errno,
>)
    ensures
        r matches Ok(n) ==> n <= bytes@.len(),
{
    rustix::io::write(fd, bytes)
}

/// Relies on `rustix::fs::ftruncate`: truncates the open file to zero
/// length, discarding all prior content.
#[verifier::external_body]
pub(crate) fn truncate_to_zero(fd: &rustix::fd::OwnedFd) -> Result<(), rustix::io::Errno> {
    rustix::fs::ftruncate(fd, 0)
}

/// Relies on `rustix::io::Errno`'s `Display` impl: a human-readable
/// description of the error.
#[verifier::external_body]
pub(crate) fn errno_message(e: &rustix::io::Errno) -> String {
    format!("{}", e)
}

} // verus!
