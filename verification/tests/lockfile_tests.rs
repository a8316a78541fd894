use krun::lockfile::{acquire_or_discover, interpret_lock_contents, LockOutcome};

fn read_file_bytes(path: &str) -> Vec<u8> {
    let fd = rustix::fs::open(
        path,
        rustix::fs::OFlags::RDONLY,
        rustix::fs::Mode::empty(),
    )
    .unwrap();
    let mut out = Vec::new();
    let mut buf = [0u8; 256];
    loop {
        let n = rustix::io::read(&fd, &mut buf[..]).unwrap();
        if n == 0 {
            break;
        }
        out.extend_from_slice(&buf[..n]);
    }
    out
}

fn make_dir(path: &str) {
    let _ = rustix::fs::mkdir(path, rustix::fs::Mode::from_raw_mode(0o755));
}

#[test]
fn reserved_port_is_never_usable() {
    assert_eq!(interpret_lock_contents(&b"42".to_vec()), None);
    assert_eq!(interpret_lock_contents(&b"1024".to_vec()), None);
    assert_eq!(interpret_lock_contents(&b"1025".to_vec()), Some(1025));
    assert_eq!(interpret_lock_contents(&b"55123".to_vec()), Some(55123));
}

#[test]
fn unparseable_content_means_no_port() {
    assert_eq!(interpret_lock_contents(&b"".to_vec()), None);
    assert_eq!(interpret_lock_contents(&b"sixty".to_vec()), None);
    assert_eq!(interpret_lock_contents(&b"60000 ".to_vec()), None);
}

#[test]
fn new_leader_fully_overwrites_published_port() {
    let dir = "/tmp/krun_lock_overwrite_scratch";
    make_dir(dir);
    let _ = rustix::fs::unlink(format!("{dir}/krun.lock"));

    let first = acquire_or_discover(dir, 60000).unwrap();
    assert!(matches!(first, LockOutcome::Acquired(_)));
    assert_eq!(read_file_bytes(&format!("{dir}/krun.lock")), b"60000");
    drop(first);

    let second = acquire_or_discover(dir, 5000).unwrap();
    assert!(matches!(second, LockOutcome::Acquired(_)));
    assert_eq!(read_file_bytes(&format!("{dir}/krun.lock")), b"5000");
}

#[test]
fn racing_acquisition_discovers_leader_port() {
    let dir = "/tmp/krun_lock_race_scratch";
    make_dir(dir);
    let _ = rustix::fs::unlink(format!("{dir}/krun.lock"));

    let leader = acquire_or_discover(dir, 55123).unwrap();
    assert!(matches!(leader, LockOutcome::Acquired(_)));

    // While the leader's lock is held, a second contender must lose and
    // discover the published port instead.
    let loser = acquire_or_discover(dir, 56000).unwrap();
    match loser {
        LockOutcome::Busy(port) => assert_eq!(port, Some(55123)),
        LockOutcome::Acquired(_) => panic!("two acquisitions of one lock file"),
    }
    assert_eq!(read_file_bytes(&format!("{dir}/krun.lock")), b"55123");
}

#[test]
fn reserved_published_port_is_reported_as_none() {
    let dir = "/tmp/krun_lock_reserved_scratch";
    make_dir(dir);
    let path = format!("{dir}/krun.lock");
    let _ = rustix::fs::unlink(&path);

    // A "leader" that published a reserved port: hold the lock ourselves
    // with 42 as the file's content.
    let fd = rustix::fs::open(
        &path,
        rustix::fs::OFlags::CREATE | rustix::fs::OFlags::WRONLY,
        rustix::fs::Mode::from_raw_mode(0o644),
    )
    .unwrap();
    rustix::io::write(&fd, b"42").unwrap();
    rustix::fs::flock(&fd, rustix::fs::FlockOperation::NonBlockingLockExclusive).unwrap();

    let outcome = acquire_or_discover(dir, 57000).unwrap();
    match outcome {
        LockOutcome::Busy(port) => assert_eq!(port, None),
        LockOutcome::Acquired(_) => panic!("lock was held, acquisition must fail"),
    }
}
