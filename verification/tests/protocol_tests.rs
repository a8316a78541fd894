use krun::errors::CoreError;
use krun::protocol::{encode_request, interpret_response, strip_line_terminator, LaunchRequest};

#[test]
fn wire_form_ends_with_sentinel() {
    let req = LaunchRequest {
        command: String::from("/bin/true"),
        command_args: Vec::new(),
        env: Vec::new(),
    };
    let wire = encode_request(&req);
    assert!(wire.ends_with("\nEOM\n"));
    assert_eq!(
        wire,
        String::from("{\"command\":\"/bin/true\",\"command_args\":[],\"env\":{}}\nEOM\n")
    );
}

#[test]
fn serialization_round_trips_through_a_json_parser() {
    let req = LaunchRequest {
        command: String::from("/usr/bin/echo"),
        command_args: vec![
            String::from("first"),
            String::from("wo rld"),
            String::from("a\"b\\c\nd\u{1}e"),
        ],
        env: vec![
            (String::from("PATH"), String::from("/usr/bin:/bin")),
            (String::from("RUST_LOG"), String::from("debug")),
        ],
    };
    let wire = encode_request(&req);
    let json = wire.strip_suffix("\nEOM\n").expect("sentinel missing");

    let value: serde_json::Value = serde_json::from_str(json).expect("emitter must produce JSON");
    assert_eq!(value["command"].as_str(), Some("/usr/bin/echo"));

    let args = value["command_args"].as_array().unwrap();
    assert_eq!(args.len(), 3);
    assert_eq!(args[0].as_str(), Some("first"));
    assert_eq!(args[1].as_str(), Some("wo rld"));
    assert_eq!(args[2].as_str(), Some("a\"b\\c\nd\u{1}e"));

    let env = value["env"].as_object().unwrap();
    assert_eq!(env.len(), 2);
    assert_eq!(env["PATH"].as_str(), Some("/usr/bin:/bin"));
    assert_eq!(env["RUST_LOG"].as_str(), Some("debug"));
}

#[test]
fn control_characters_use_json_escapes() {
    let req = LaunchRequest {
        command: String::from("\n\r\t\u{8}\u{c}\u{1b}"),
        command_args: Vec::new(),
        env: Vec::new(),
    };
    let wire = encode_request(&req);
    assert!(wire.starts_with("{\"command\":\"\\n\\r\\t\\b\\f\\u001b\""));
}

#[test]
fn ok_line_is_success() {
    assert_eq!(interpret_response("OK"), Ok(()));
}

#[test]
fn ok_line_keeps_its_meaning_with_a_terminator() {
    assert_eq!(interpret_response("OK\n"), Ok(()));
    assert_eq!(interpret_response("OK\r\n"), Ok(()));
}

#[test]
fn strip_removes_one_terminator_only() {
    assert_eq!(strip_line_terminator("OK\n"), String::from("OK"));
    assert_eq!(strip_line_terminator("OK\r\n"), String::from("OK"));
    assert_eq!(strip_line_terminator("OK\n\n"), String::from("OK\n"));
    assert_eq!(strip_line_terminator("OK"), String::from("OK"));
    assert_eq!(strip_line_terminator(""), String::from(""));
}

#[test]
fn any_other_line_is_the_servers_error() {
    let err = interpret_response("no such file or directory\n").unwrap_err();
    assert_eq!(
        err,
        CoreError::ServerReported(String::from("no such file or directory"))
    );
    assert_eq!(
        err.message(),
        String::from("krun server returned an error: no such file or directory")
    );
}

#[test]
fn ok_embedded_in_a_longer_line_is_not_success() {
    assert_eq!(
        interpret_response("OK but not really\n"),
        Err(CoreError::ServerReported(String::from("OK but not really")))
    );
}
