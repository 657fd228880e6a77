use rcargo::proto::{frame, has_names_once, Event, Request, PROTO_VERSION};
use serde_json::Value;

fn parsed(line: &str) -> Value {
    serde_json::from_str(line).unwrap()
}

#[test]
fn request_roundtrip() {
    let r = Request::Build {
        project_key: "abc123".into(),
        args: vec!["test".into(), "-p".into(), "foo".into()],
        env: vec![],
    };
    let line = r.to_line();
    let parsed = parsed(&line);
    match parsed["op"].as_str() {
        Some("build") => {
            let args: Vec<&str> =
                parsed["args"].as_array().unwrap().iter().map(|a| a.as_str().unwrap()).collect();
            assert_eq!(args, vec!["test", "-p", "foo"])
        }
        _ => panic!("wrong variant"),
    }
}

#[test]
fn event_exit_roundtrip() {
    let e = Event::Exit { code: 0 };
    let line = e.to_line();
    let parsed = parsed(&line);
    assert!(parsed["kind"] == "exit" && parsed["code"] == 0);
}

#[test]
fn lines_are_exact() {
    assert_eq!(PROTO_VERSION, 1);
    assert_eq!(Request::Hello { client_version: 1 }.to_line(), r#"{"op":"hello","client_version":1}"#);
    assert_eq!(Request::Bye.to_line(), r#"{"op":"bye"}"#);
    assert_eq!(
        Request::Build { project_key: "k".into(), args: vec![], env: vec![] }.to_line(),
        r#"{"op":"build","project_key":"k","args":[],"env":{}}"#
    );
    assert_eq!(
        Request::Build {
            project_key: "k".into(),
            args: vec!["a".into(), "\"b\"".into()],
            env: vec![("X".into(), "1".into()), ("Y".into(), "\\".into())],
        }
        .to_line(),
        r#"{"op":"build","project_key":"k","args":["a","\"b\""],"env":{"X":"1","Y":"\\"}}"#
    );
    assert_eq!(Event::Stdout { data: "x".into() }.to_line(), r#"{"kind":"stdout","data":"x"}"#);
    assert_eq!(Event::Stderr { data: "".into() }.to_line(), r#"{"kind":"stderr","data":""}"#);
    assert_eq!(
        Event::HelloAck { server_version: u32::MAX }.to_line(),
        r#"{"kind":"hello_ack","server_version":4294967295}"#
    );
    assert_eq!(Event::Exit { code: i32::MIN }.to_line(), r#"{"kind":"exit","code":-2147483648}"#);
    assert_eq!(Event::Error { message: "m".into() }.to_line(), r#"{"kind":"error","message":"m"}"#);
}

#[test]
fn strings_are_escaped_as_serde_json_escapes_them() {
    for c in (0u32..0x300).chain([0x2028, 0x2029, 0xfeff, 0x1f600]).filter_map(char::from_u32) {
        let data = format!("a{c}b");
        let line = Event::Stdout { data: data.clone() }.to_line();
        let quoted = serde_json::to_string(&data).unwrap();
        assert_eq!(line, format!("{{\"kind\":\"stdout\",\"data\":{quoted}}}"));
        assert!(!line.contains('\n') && !line.contains('\r'));
        assert_eq!(parsed(&line)["data"].as_str(), Some(data.as_str()));
    }
    assert_eq!(
        Event::Stdout { data: "\u{1}\u{8}\t\n\u{c}\r\u{1f}\u{7f}\"\\/".into() }.to_line(),
        "{\"kind\":\"stdout\",\"data\":\"\\u0001\\b\\t\\n\\f\\r\\u001f\u{7f}\\\"\\\\/\"}"
    );
}

#[test]
fn different_values_have_different_lines() {
    let events = [
        Event::Stdout { data: "1".into() },
        Event::Stderr { data: "1".into() },
        Event::Stdout { data: "\\n".into() },
        Event::Stdout { data: "\n".into() },
        Event::HelloAck { server_version: 1 },
        Event::Exit { code: 1 },
        Event::Exit { code: -1 },
        Event::Error { message: "1".into() },
    ];
    for (i, a) in events.iter().enumerate() {
        for (j, b) in events.iter().enumerate() {
            assert_eq!(i == j, a.to_line() == b.to_line());
        }
    }
    let build = |args: &[&str], env: &[(&str, &str)]| {
        Request::Build {
            project_key: "k".into(),
            args: args.iter().map(|s| s.to_string()).collect(),
            env: env.iter().map(|(k, v)| (k.to_string(), v.to_string())).collect(),
        }
        .to_line()
    };
    assert_ne!(build(&["a,b"], &[]), build(&["a", "b"], &[]));
    assert_ne!(build(&[], &[]), build(&[""], &[]));
    assert_ne!(build(&[], &[("a", "b")]), build(&[], &[("b", "a")]));
}

#[test]
fn a_frame_ends_its_line() {
    assert_eq!(frame("{}".into()), "{}\n");
}

#[test]
fn a_name_that_stands_twice_is_seen() {
    let env = |names: &[&str]| names.iter().map(|n| (n.to_string(), "v".to_string())).collect();
    assert!(has_names_once(&env(&[])));
    assert!(has_names_once(&env(&["A", "B", "a"])));
    assert!(!has_names_once(&env(&["A", "B", "A"])));
    assert!(!has_names_once(&env(&["A", "B", "B"])));
}
