use krun::errors::CoreError;
use krun::lockfile::LockOutcome;
use krun::policy::{launch_or_lock, retry_step, route_election, LaunchResult, LaunchStep, RetryStep};

fn make_dir(path: &str) {
    let _ = rustix::fs::mkdir(path, rustix::fs::Mode::from_raw_mode(0o755));
}

fn connection_error() -> Result<(), CoreError> {
    Err(CoreError::Connection(String::from("refused")))
}

/// Drives the retry policy over scripted attempt outcomes, as the caller's
/// forwarding loop does, and reports the terminal result and how many
/// attempts were made.
fn run_retries(outcomes: Vec<Result<(), CoreError>>) -> (Result<(), CoreError>, usize) {
    let mut tries: u32 = 0;
    let mut attempts: usize = 0;
    for outcome in outcomes {
        attempts += 1;
        match retry_step(tries, outcome) {
            RetryStep::Done(result) => return (result, attempts),
            RetryStep::Retry(t) => tries = t,
        }
    }
    panic!("ran out of scripted outcomes");
}

#[test]
fn retry_exhausts_budget_on_fourth_connection_failure() {
    let outcomes = vec![
        connection_error(),
        connection_error(),
        connection_error(),
        connection_error(),
        Ok(()),
    ];
    let (result, attempts) = run_retries(outcomes);
    assert_eq!(attempts, 4);
    assert_eq!(result, Err(CoreError::Connection(String::from("refused"))));
}

#[test]
fn retry_recovers_before_budget_runs_out() {
    let outcomes = vec![
        connection_error(),
        connection_error(),
        connection_error(),
        Ok(()),
    ];
    let (result, attempts) = run_retries(outcomes);
    assert_eq!(attempts, 4);
    assert_eq!(result, Ok(()));
}

#[test]
fn server_error_aborts_immediately() {
    let outcomes = vec![
        Err(CoreError::ServerReported(String::from("no such file"))),
        Ok(()),
    ];
    let (result, attempts) = run_retries(outcomes);
    assert_eq!(attempts, 1);
    assert_eq!(
        result,
        Err(CoreError::ServerReported(String::from("no such file")))
    );
}

#[test]
fn known_port_routes_to_follower() {
    let port_var = String::from("8080");
    let step = launch_or_lock(
        "target/unused",
        Some(&port_var),
        6000,
        String::from("/bin/true"),
        Vec::new(),
        Vec::new(),
    )
    .unwrap();
    assert!(matches!(
        step,
        LaunchStep::Forward { port: 8080, retry_allowed: false }
    ));
}

#[test]
fn malformed_known_port_is_fatal() {
    let port_var = String::from("eight");
    let err = launch_or_lock(
        "target/unused",
        Some(&port_var),
        6000,
        String::from("/bin/true"),
        Vec::new(),
        Vec::new(),
    )
    .unwrap_err();
    assert!(matches!(err, CoreError::Configuration(_)));
}

#[test]
fn election_winner_keeps_command_and_lock() {
    let dir = "/tmp/krun_policy_lead_scratch";
    make_dir(dir);
    let _ = rustix::fs::unlink(format!("{dir}/krun.lock"));

    let step = launch_or_lock(
        dir,
        None,
        58000,
        String::from("/usr/bin/env"),
        vec![String::from("-i")],
        vec![(String::from("PATH"), Some(String::from("/usr/bin")))],
    )
    .unwrap();
    match step {
        LaunchStep::Became(LaunchResult::LockAcquired {
            lock_file,
            command,
            command_args,
            env,
        }) => {
            assert_eq!(command, String::from("/usr/bin/env"));
            assert_eq!(command_args, vec![String::from("-i")]);
            assert_eq!(
                env,
                vec![(String::from("PATH"), Some(String::from("/usr/bin")))]
            );
            // The losing candidate discovers the winner's port and may retry.
            let second = launch_or_lock(
                dir,
                None,
                59000,
                String::from("/bin/true"),
                Vec::new(),
                Vec::new(),
            )
            .unwrap();
            assert!(matches!(
                second,
                LaunchStep::Forward { port: 58000, retry_allowed: true }
            ));
            drop(lock_file);
        },
        _ => panic!("fresh lock file must make this process the leader"),
    }
}

#[test]
fn held_lock_without_usable_port_is_ambiguous() {
    let dir = "/tmp/krun_policy_ambiguous_scratch";
    make_dir(dir);
    let path = format!("{dir}/krun.lock");
    let _ = rustix::fs::unlink(&path);

    let fd = rustix::fs::open(
        &path,
        rustix::fs::OFlags::CREATE | rustix::fs::OFlags::WRONLY,
        rustix::fs::Mode::from_raw_mode(0o644),
    )
    .unwrap();
    rustix::io::write(&fd, b"977").unwrap();
    rustix::fs::flock(&fd, rustix::fs::FlockOperation::NonBlockingLockExclusive).unwrap();

    let err = launch_or_lock(
        dir,
        None,
        60000,
        String::from("/bin/true"),
        Vec::new(),
        Vec::new(),
    )
    .unwrap_err();
    assert_eq!(err, CoreError::LeadershipAmbiguous);
}

#[test]
fn error_messages_name_the_failing_stage() {
    assert_eq!(
        CoreError::Connection(String::from("refused")).message(),
        String::from("could not connect to krun server: refused")
    );
    assert_eq!(
        CoreError::ServerReported(String::from("boom")).message(),
        String::from("krun server returned an error: boom")
    );
    assert_eq!(
        CoreError::Serialization(String::from("bad value")).message(),
        String::from("could not serialize into JSON: bad value")
    );
    assert_eq!(
        CoreError::Configuration(String::from("missing directory")).message(),
        String::from("missing directory")
    );
    assert_eq!(
        CoreError::LeadershipAmbiguous.message(),
        String::from("krun is already running but couldn't find its server port, bailing out")
    );
}

#[test]
fn route_election_pins_every_outcome() {
    let busy = route_election(
        Ok(LockOutcome::Busy(Some(55123))),
        String::from("/bin/true"),
        Vec::new(),
        Vec::new(),
    );
    assert!(matches!(
        busy,
        Ok(LaunchStep::Forward { port: 55123, retry_allowed: true })
    ));

    let ambiguous = route_election(
        Ok(LockOutcome::Busy(None)),
        String::from("/bin/true"),
        Vec::new(),
        Vec::new(),
    );
    assert!(matches!(ambiguous, Err(CoreError::LeadershipAmbiguous)));

    let failed = route_election(
        Err(CoreError::Configuration(String::from("no runtime dir"))),
        String::from("/bin/true"),
        Vec::new(),
        Vec::new(),
    );
    assert_eq!(
        failed.unwrap_err(),
        CoreError::Configuration(String::from("no runtime dir"))
    );

    let fd = rustix::fs::open(
        "/tmp/krun_route_election_scratch",
        rustix::fs::OFlags::CREATE | rustix::fs::OFlags::WRONLY,
        rustix::fs::Mode::from_raw_mode(0o644),
    )
    .unwrap();
    let won = route_election(
        Ok(LockOutcome::Acquired(fd)),
        String::from("/usr/bin/env"),
        vec![String::from("-i")],
        Vec::new(),
    );
    match won {
        Ok(LaunchStep::Became(LaunchResult::LockAcquired {
            command,
            command_args,
            env,
            ..
        })) => {
            assert_eq!(command, String::from("/usr/bin/env"));
            assert_eq!(command_args, vec![String::from("-i")]);
            assert_eq!(env, Vec::new());
        },
        _ => panic!("a won election must yield the leader shape"),
    }
}
