use local_gateway::bootstrap::{
    bootstrap_script, compose_user_script, escape_label, open_remote_window, require_port,
    OpenError, SCRIPT_BODY, SCRIPT_HEAD, SCRIPT_LABEL, SCRIPT_TAIL, WINDOW_TITLE,
};
use local_gateway::relay::RemoteServiceState;

fn listening(port: u16) -> RemoteServiceState {
    let mut state = RemoteServiceState::new();
    state.publish_port(port);
    state
}

#[test]
fn the_script_names_port_and_label() {
    let script = bootstrap_script(40123, "windowA", "console.log('mine');");
    assert!(script.starts_with("\n    (function() {\n        const PORT = 40123;\n        const LABEL = \"windowA\";\n        let ws = null;"));
    assert!(script.ends_with("    })();\n\n    console.log('mine');\n    "));
    assert!(script.contains("ws = new WebSocket('ws://127.0.0.1:' + PORT);"));
    assert!(script.contains("ws.send(JSON.stringify({ type: 'register', label: LABEL }));"));
    assert!(script.contains("setTimeout(connect, 3000);"));
    assert!(script.contains("new CustomEvent('remote-message', { detail: data })"));
    assert!(script.contains("queue.push(payload);"));
    let mut expected = String::new();
    expected.push_str(SCRIPT_HEAD);
    expected.push_str("40123");
    expected.push_str(SCRIPT_LABEL);
    expected.push_str("windowA");
    expected.push_str(SCRIPT_BODY);
    expected.push_str("console.log('mine');");
    expected.push_str(SCRIPT_TAIL);
    assert_eq!(script, expected);
}

#[test]
fn ports_are_written_to_base_ten() {
    for (port, text) in [(1u16, "= 1;"), (9, "= 9;"), (10, "= 10;"), (80, "= 80;"), (65535, "= 65535;"), (14500, "= 14500;"), (1009, "= 1009;")] {
        let script = bootstrap_script(port, "w", "");
        let mut line = String::from("const PORT ");
        line.push_str(text);
        assert!(script.contains(&line), "{}", port);
    }
}

#[test]
fn a_label_is_escaped_for_the_string_literal() {
    assert_eq!(escape_label("windowA"), "windowA");
    assert_eq!(escape_label(""), "");
    assert_eq!(escape_label("a b-c_d.e'f"), "a b-c_d.e'f");
    assert_eq!(escape_label("say \"hi\""), "say \\u0022hi\\u0022");
    assert_eq!(escape_label("back\\slash"), "back\\u005cslash");
    assert_eq!(escape_label("line\nbreak\r\t\u{0}"), "line\\u000abreak\\u000d\\u0009\\u0000");
    assert_eq!(escape_label("\u{2028}x\u{2029}\u{7f}"), "\\u2028x\\u2029\\u007f");
    assert_eq!(escape_label("caf\u{e9} \u{1f600}"), "caf\u{e9} \u{1f600}");
    let script = bootstrap_script(1, "\";alert(1);//", "");
    assert!(script.contains("const LABEL = \"\\u0022;alert(1);//\";"));
    assert!(!script.contains("const LABEL = \"\";"));
}

#[test]
fn the_callers_script_follows_the_bootstrap() {
    assert_eq!(compose_user_script(None, None), "");
    assert_eq!(compose_user_script(Some("a();".to_string()), None), "a();");
    assert_eq!(compose_user_script(None, Some("b();".to_string())), "\nb();");
    assert_eq!(
        compose_user_script(Some("a();".to_string()), Some("b();".to_string())),
        "a();\nb();"
    );
}

#[test]
fn a_window_is_planned_once_the_hub_listens() {
    let state = listening(40000);
    let plan = open_remote_window(
        &state,
        "windowA",
        "https://example.com/app?x=1",
        Some("first();".to_string()),
        Some(Ok("second();".to_string())),
    )
    .unwrap();
    assert_eq!(plan.label, "windowA");
    assert_eq!(plan.title, "Remote Service");
    assert_eq!(plan.title, WINDOW_TITLE);
    assert_eq!(plan.address.as_str(), "https://example.com/app?x=1");
    assert_eq!(plan.address.host_str(), Some("example.com"));
    assert_eq!(plan.script, bootstrap_script(40000, "windowA", "first();\nsecond();"));
}

#[test]
fn no_window_before_the_hub_listens() {
    let state = RemoteServiceState::new();
    assert!(matches!(require_port(&state), Err(OpenError::NotReady)));
    let error = open_remote_window(&state, "w", "https://example.com", None, None).unwrap_err();
    assert!(matches!(error, OpenError::NotReady));
    assert_eq!(error.message(), "Remote service not initialized yet");
    let error = open_remote_window(&state, "w", "nonsense", None, Some(Err("gone".to_string())))
        .unwrap_err();
    assert!(matches!(error, OpenError::NotReady));
    assert!(matches!(require_port(&listening(7)), Ok(7)));
}

#[test]
fn an_unreadable_script_file_stops_the_opening() {
    let state = listening(40000);
    let error = open_remote_window(
        &state,
        "w",
        "not a url",
        Some("x".to_string()),
        Some(Err("No such file or directory (os error 2)".to_string())),
    )
    .unwrap_err();
    assert!(matches!(error, OpenError::ScriptFile { .. }));
    assert_eq!(
        error.message(),
        "Failed to read script file: No such file or directory (os error 2)"
    );
}

#[test]
fn an_address_that_is_no_url_stops_the_opening() {
    let state = listening(40000);
    let error = open_remote_window(&state, "w", "example.com/no-scheme", None, None).unwrap_err();
    assert!(matches!(error, OpenError::Address { .. }));
    assert_eq!(error.message(), "relative URL without a base");
    let error = open_remote_window(&state, "w", "", None, None).unwrap_err();
    assert_eq!(error.message(), "relative URL without a base");
    let error = open_remote_window(&state, "w", "https://", None, None).unwrap_err();
    assert_eq!(error.message(), "empty host");
    let window = OpenError::Window { detail: "no display".to_string() };
    assert_eq!(window.message(), "no display");
}
