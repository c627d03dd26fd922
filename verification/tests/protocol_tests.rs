use nut_monitor::protocol::{
    check_auth_reply, check_instcmd_reply, check_ok_reply, make_instcmd, make_list_cmd_cmd,
    make_list_ups_cmd, make_list_var_cmd, make_logout_cmd, make_password_cmd, make_username_cmd,
    wire_line, NutError, ResponseFramer,
};

#[test]
fn single_line_response_completes_at_once() {
    let mut f = ResponseFramer::new();
    assert!(!f.is_complete());
    f.feed_line("OK\n");
    assert!(f.is_complete());
    assert_eq!(f.take_response(), "OK\n");
}

#[test]
fn list_response_runs_through_end_marker() {
    let mut f = ResponseFramer::new();
    f.feed_line("BEGIN LIST VAR ups\n");
    assert!(!f.is_complete());
    f.feed_line("VAR ups battery.charge \"100\"\n");
    assert!(!f.is_complete());
    f.feed_line("VAR ups ups.status \"OL\"\n");
    assert!(!f.is_complete());
    f.feed_line("END LIST VAR ups\n");
    assert!(f.is_complete());
    assert_eq!(
        f.take_response(),
        "BEGIN LIST VAR ups\nVAR ups battery.charge \"100\"\nVAR ups ups.status \"OL\"\nEND LIST VAR ups\n"
    );
}

#[test]
fn many_lines_between_markers_are_all_consumed() {
    let mut f = ResponseFramer::new();
    f.feed_line("BEGIN LIST VAR ups\n");
    for i in 0..50 {
        assert!(!f.is_complete());
        let line = format!("VAR ups var{i} \"{i}\"\n");
        f.feed_line(line.as_str());
    }
    assert!(!f.is_complete());
    f.feed_line("END LIST VAR ups\n");
    assert!(f.is_complete());
}

#[test]
fn eof_before_any_line_is_a_connection_failure() {
    let f = ResponseFramer::new();
    assert!(matches!(f.eof_error(), NutError::ConnectionFailed));
}

#[test]
fn eof_inside_list_is_an_abrupt_truncation() {
    let mut f = ResponseFramer::new();
    f.feed_line("BEGIN LIST VAR ups\n");
    match f.eof_error() {
        NutError::Io(d) => assert_eq!(d, "unexpected end of stream inside list response"),
        _ => panic!("expected a transport error"),
    }
}

#[test]
fn command_builders_produce_wire_text() {
    assert_eq!(make_username_cmd("monuser"), "USERNAME monuser");
    assert_eq!(make_password_cmd("secret"), "PASSWORD secret");
    assert_eq!(make_list_ups_cmd(), "LIST UPS");
    assert_eq!(make_list_var_cmd("ups"), "LIST VAR ups");
    assert_eq!(make_list_cmd_cmd("ups"), "LIST CMD ups");
    assert_eq!(make_instcmd("ups", "beeper.mute"), "INSTCMD ups beeper.mute");
    assert_eq!(make_logout_cmd(), "LOGOUT");
    assert_eq!(wire_line(make_logout_cmd()), "LOGOUT\n");
}

#[test]
fn success_token_is_ok_after_trimming() {
    assert!(check_ok_reply("OK\n"));
    assert!(check_ok_reply("  OK  "));
    assert!(!check_ok_reply("ERR ACCESS-DENIED\n"));
    assert!(!check_ok_reply("OKAY\n"));
}

#[test]
fn instcmd_failure_wraps_the_whole_reply() {
    assert!(check_instcmd_reply("OK\n".to_string()).is_ok());
    match check_instcmd_reply("ERR CMD-NOT-SUPPORTED\n".to_string()) {
        Err(NutError::CommandFailed(d)) => assert_eq!(d, "ERR CMD-NOT-SUPPORTED\n"),
        _ => panic!("expected a command failure"),
    }
}

#[test]
fn credential_rejection_is_an_auth_failure() {
    assert!(check_auth_reply("OK\n").is_ok());
    assert!(matches!(check_auth_reply("ERR ACCESS-DENIED\n"), Err(NutError::AuthFailed)));
}

#[test]
fn error_messages_name_the_failure() {
    assert_eq!(NutError::ConnectionFailed.message(), "Connection failed");
    assert_eq!(NutError::AuthFailed.message(), "Authentication failed");
    assert_eq!(NutError::Io("broken pipe".to_string()).message(), "IO error: broken pipe");
    assert_eq!(
        NutError::CommandFailed("ERR".to_string()).message(),
        "Command failed: ERR"
    );
}
