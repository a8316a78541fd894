use krun::relay::{
    find_relay_port, relay_spawn_args, rewrite_for_relay, select_relay_port, socket_path,
};

#[test]
fn socket_path_shape() {
    assert_eq!(
        socket_path("/run/user/1000", 50002),
        String::from("/run/user/1000/krun/socket/port-50002")
    );
}

#[test]
fn select_skips_occupied_ports() {
    let mut occupied = vec![false; 200];
    occupied[0] = true;
    occupied[1] = true;
    assert_eq!(select_relay_port(&occupied), Some(50002));
}

#[test]
fn select_takes_first_when_all_free() {
    let occupied = vec![false; 200];
    assert_eq!(select_relay_port(&occupied), Some(50000));
}

#[test]
fn select_exhausted_range() {
    let occupied = vec![true; 200];
    assert_eq!(select_relay_port(&occupied), None);
}

#[test]
fn scan_skips_existing_socket_paths() {
    let base = "/tmp/krun_relay_scan_scratch";
    let sockets = format!("{base}/krun/socket");
    let _ = rustix::fs::mkdir(base, rustix::fs::Mode::from_raw_mode(0o755));
    let _ = rustix::fs::mkdir(format!("{base}/krun"), rustix::fs::Mode::from_raw_mode(0o755));
    let _ = rustix::fs::mkdir(&sockets, rustix::fs::Mode::from_raw_mode(0o755));
    for port in [50000u32, 50001] {
        let _ = rustix::fs::open(
            format!("{sockets}/port-{port}"),
            rustix::fs::OFlags::CREATE | rustix::fs::OFlags::WRONLY,
            rustix::fs::Mode::from_raw_mode(0o644),
        )
        .unwrap();
    }
    let found = find_relay_port(base);
    for port in [50000u32, 50001] {
        let _ = rustix::fs::unlink(format!("{sockets}/port-{port}"));
    }
    assert_eq!(
        found,
        Some((50002, format!("{base}/krun/socket/port-50002")))
    );
}

#[test]
fn rewrite_builds_relay_invocation() {
    let (command, args) = rewrite_for_relay(
        String::from("/bin/bash"),
        vec![String::from("-c"), String::from("echo a:b")],
        50007,
    );
    assert_eq!(command, String::from("socat"));
    assert_eq!(
        args,
        vec![
            String::from("vsock:2:50007"),
            String::from("exec:/bin/bash -c echo a\\:b,pty,setsid,stderr"),
        ]
    );
}

#[test]
fn rewrite_with_no_arguments() {
    let (command, args) = rewrite_for_relay(String::from("top"), Vec::new(), 50000);
    assert_eq!(command, String::from("socat"));
    assert_eq!(
        args,
        vec![
            String::from("vsock:2:50000"),
            String::from("exec:top,pty,setsid,stderr"),
        ]
    );
}

#[test]
fn relay_spawn_arguments() {
    let (listen, passthrough) = relay_spawn_args("/run/user/1000/krun/socket/port-50002");
    assert_eq!(
        listen,
        String::from("unix-l:/run/user/1000/krun/socket/port-50002")
    );
    assert_eq!(passthrough, String::from("-,raw,echo=0"));
}
