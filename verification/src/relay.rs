//! The relay bridge's pure logic: choosing a free relay port under the
//! runtime directory, and rewriting a launch request so that it runs the
//! original command line inside a pseudo-terminal behind a socat relay.
//!
//! Spawning the relay process itself is I/O and lives outside this library;
//! everything decided here — which port, which socket path, which rewritten
//! argument list — is verified.

use vstd::prelude::*;
use crate::escape::{escape_for_socat, spec_escape};
use crate::fsio::path_exists;
use crate::numeric::{spec_dec_chars, u32_to_dec_string};
use crate::strutil::push_char;

verus! {

/// First candidate vsock relay port.
pub const DYNAMIC_PORT_FIRST: u32 = 50000;

/// Number of consecutive candidate ports tried, so the range is
/// `[50000, 50200)`.
pub const DYNAMIC_PORT_COUNT: u32 = 200;

/// The unix socket path for a relay port: `<dir>/krun/socket/port-<N>`.
pub open spec fn spec_socket_path(dir: Seq<char>, port: nat) -> Seq<char> {
    dir + "/krun/socket/port-"@ + spec_dec_chars(port)
}

/// Builds the unix socket path for one candidate relay port.
pub fn socket_path(runtime_dir: &str, port: u32) -> (r: String)
    ensures
        r@ == spec_socket_path(runtime_dir@, port as nat),
{
    let r = String::from_str(runtime_dir).concat("/krun/socket/port-").concat(
        u32_to_dec_string(port).as_str(),
    );
    proof {
        assert(r@ =~= spec_socket_path(runtime_dir@, port as nat));
    }
    r
}

/// Picks the first unoccupied slot in the candidate range: `occupied[j]`
/// says whether the socket path of port `50000 + j` already exists.
pub fn select_relay_port(occupied: &Vec<bool>) -> (r: Option<u32>)
    requires
        occupied@.len() == DYNAMIC_PORT_COUNT,
    ensures
        r matches Some(p) ==> DYNAMIC_PORT_FIRST <= p < DYNAMIC_PORT_FIRST + DYNAMIC_PORT_COUNT
            && !occupied@[p - DYNAMIC_PORT_FIRST] && (forall|j: int|
            0 <= j < p - DYNAMIC_PORT_FIRST ==> occupied@[j]),
        r is None ==> forall|j: int| 0 <= j < occupied@.len() ==> occupied@[j],
{
    let mut i: usize = 0;
    while i < 200
        invariant
            i <= 200,
            occupied@.len() == 200,
            forall|j: int| 0 <= j < i ==> occupied@[j],
        decreases 200 - i,
    {
        if !occupied[i] {
            return Some(50000 + i as u32);
        }
        i = i + 1;
    }
    None
}

/// Scans the candidate range under the runtime directory and returns the
/// first port whose socket path does not exist yet, together with that path.
/// Which port is free depends on the disk, so the contract fixes only what
/// holds of every outcome; the selection rule itself is
/// [`select_relay_port`], which this function drives.
pub fn find_relay_port(runtime_dir: &str) -> (r: Option<(u32, String)>)
    ensures
        r matches Some(pr) ==> DYNAMIC_PORT_FIRST <= pr.0 < DYNAMIC_PORT_FIRST
            + DYNAMIC_PORT_COUNT && pr.1@ == spec_socket_path(runtime_dir@, pr.0 as nat),
{
    let mut occupied: Vec<bool> = Vec::new();
    let mut i: u32 = 0;
    while i < 200
        invariant
            i <= 200,
            occupied@.len() == i,
        decreases 200 - i,
    {
        let path = socket_path(runtime_dir, 50000 + i);
        occupied.push(path_exists(path.as_str()));
        i = i + 1;
    }
    match select_relay_port(&occupied) {
        Some(port) => Some((port, socket_path(runtime_dir, port))),
        None => None,
    }
}

/// The two arguments the relay process itself is spawned with: listen on
/// the chosen unix socket, and bridge it to its own standard streams in
/// raw, echo-disabled passthrough mode.
pub fn relay_spawn_args(socket_path: &str) -> (r: (String, String))
    ensures
        r.0@ == "unix-l:"@ + socket_path@,
        r.1@ == "-,raw,echo=0"@,
{
    (String::from_str("unix-l:").concat(socket_path), String::from_str("-,raw,echo=0"))
}

/// Joining with single spaces, in order.
pub open spec fn spec_join_space(parts: Seq<Seq<char>>) -> Seq<char>
    decreases parts.len(),
{
    if parts.len() == 0 {
        Seq::empty()
    } else if parts.len() == 1 {
        parts[0]
    } else {
        spec_join_space(parts.drop_last()) + seq![' '] + parts.last()
    }
}

/// Joins strings with single spaces, in order.
pub fn join_with_spaces(parts: &Vec<String>) -> (r: String)
    ensures
        r@ == spec_join_space(parts@.map_values(|s: String| s@)),
{
    let ghost views = parts@.map_values(|s: String| s@);
    let n = parts.len();
    let mut out = String::new();
    let mut i: usize = 0;
    while i < n
        invariant
            i <= n,
            n == parts@.len(),
            views == parts@.map_values(|s: String| s@),
            out@ == spec_join_space(views.subrange(0, i as int)),
        decreases n - i,
    {
        if i > 0 {
            push_char(&mut out, ' ');
        }
        out.append(parts[i].as_str());
        proof {
            let pre = views.subrange(0, (i + 1) as int);
            assert(pre.drop_last() =~= views.subrange(0, i as int));
            assert(pre.last() == views[i as int]);
            assert(views[i as int] == parts@[i as int]@);
            if i == 0 {
                assert(out@ =~= spec_join_space(pre));
            } else {
                assert(out@ =~= spec_join_space(views.subrange(0, i as int)) + seq![' ']
                    + views[i as int]);
            }
        }
        i = i + 1;
    }
    proof {
        assert(views.subrange(0, n as int) =~= views);
    }
    out
}

/// The joined original command line: the command itself first, then its
/// arguments, separated by single spaces.
pub open spec fn spec_joined_command_line(command: Seq<char>, args: Seq<Seq<char>>) -> Seq<char> {
    spec_join_space(seq![command] + args)
}

/// Rewrites an interactive launch into a relay invocation: the effective
/// command becomes `socat` with exactly two arguments — the vsock
/// destination for the chosen relay port, and an `exec:` address that runs
/// the escaped original command line inside a pseudo-terminal as session
/// leader with stderr attached.
pub fn rewrite_for_relay(command: String, command_args: Vec<String>, vsock_port: u32) -> (r: (
    String,
    Vec<String>,
))
    ensures
        r.0@ == "socat"@,
        r.1@.len() == 2,
        r.1@[0]@ == "vsock:2:"@ + spec_dec_chars(vsock_port as nat),
        r.1@[1]@ == "exec:"@ + spec_escape(
            spec_joined_command_line(command@, command_args@.map_values(|s: String| s@)),
        ) + ",pty,setsid,stderr"@,
{
    let ghost arg_views = command_args@.map_values(|s: String| s@);
    let mut parts: Vec<String> = Vec::new();
    parts.push(command);
    let n = command_args.len();
    let mut i: usize = 0;
    while i < n
        invariant
            i <= n,
            n == command_args@.len(),
            parts@.len() == i + 1,
            parts@.map_values(|s: String| s@) =~= (seq![command@] + command_args@.map_values(
                |s: String| s@,
            )).subrange(0, i + 1),
        decreases n - i,
    {
        parts.push(command_args[i].clone());
        proof {
            assert(parts@.map_values(|s: String| s@) =~= (seq![command@]
                + command_args@.map_values(|s: String| s@)).subrange(0, i + 2));
        }
        i = i + 1;
    }
    proof {
        assert((seq![command@] + arg_views).subrange(0, n + 1) =~= seq![command@] + arg_views);
    }
    let joined = join_with_spaces(&parts);
    let escaped = escape_for_socat(joined);
    let dest = String::from_str("vsock:2:").concat(u32_to_dec_string(vsock_port).as_str());
    let address = String::from_str("exec:").concat(escaped.as_str()).concat(",pty,setsid,stderr");
    proof {
        assert(address@ =~= "exec:"@ + spec_escape(
            spec_joined_command_line(parts@.map_values(|s: String| s@)[0], arg_views),
        ) + ",pty,setsid,stderr"@);
    }
    let mut out_args: Vec<String> = Vec::new();
    out_args.push(dest);
    out_args.push(address);
    (String::from_str("socat"), out_args)
}

} // verus!
