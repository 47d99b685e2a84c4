use whack::cli::executor::{
    address_request, on_command, parse_number, parse_verb, ProtocolError, Request, Verb,
};
use whack::cli::parser::{is_blank_char, is_whitespace_char, parse_command};
use whack::cli::{
    created_reply, error_reply, on_received, received, reply_line, version_reply, ClientAction,
    ClientProperties, ReadFailure, Received, VERSION,
};
use whack::servers::command::{
    handle_server_command, Decision, InteractionResult, ServerCommand, ServerInteraction,
    Supervisor,
};
use whack::servers::processes::SpawnError;

const ID: u128 = 0x6a16edc7_02f6_4f9c_b7df_07ae4a9db1c2;
const ID_TEXT: &str = "6a16edc7-02f6-4f9c-b7df-07ae4a9db1c2";

fn client() -> ClientProperties {
    ClientProperties { uid: 1000, gid: 100 }
}

fn decode(line: &str) -> Result<Request, ProtocolError> {
    on_command(line.to_string(), client())
}

fn server(interaction: ServerInteraction) -> Result<Request, ProtocolError> {
    Ok(Request::Server(ServerCommand::new(ID, interaction)))
}

#[test]
fn blank_characters_are_space_tab_and_line_ends() {
    assert!(is_blank_char(' '));
    assert!(is_blank_char('\t'));
    assert!(is_blank_char('\r'));
    assert!(is_blank_char('\n'));
    assert!(!is_blank_char('a'));
    assert!(!is_blank_char('\u{b}'));
}

#[test]
fn white_space_is_what_the_standard_library_takes_for_it() {
    for code in 0..=0x11_0000u32 {
        if let Some(c) = char::from_u32(code) {
            assert_eq!(is_whitespace_char(c), c.is_whitespace(), "U+{:04X}", code);
        }
    }
}

#[test]
fn every_blank_is_white_space() {
    for c in [' ', '\t', '\r', '\n'] {
        assert!(is_blank_char(c) && is_whitespace_char(c));
    }
    for c in ['\u{b}', '\u{c}', '\u{85}', '\u{a0}', '\u{2028}', '\u{3000}'] {
        assert!(!is_blank_char(c) && is_whitespace_char(c));
    }
}

#[test]
fn parse_command_ends_the_name_at_any_white_space() {
    assert_eq!(parse_command("a\u{b}b"), ("\u{b}b", "a"));
    assert_eq!(parse_command("a\u{c}b"), ("\u{c}b", "a"));
    assert_eq!(parse_command("stop\u{a0}x"), ("\u{a0}x", "stop"));
    assert_eq!(parse_command("stop\u{85}"), ("\u{85}", "stop"));
    assert_eq!(parse_command("stop\u{2028}x y"), ("\u{2028}x y", "stop"));
    // Behind the name only blanks are passed over.
    assert_eq!(parse_command("a \u{b} b"), ("\u{b} b", "a"));
    assert_eq!(parse_command("a \t\u{3000}b"), ("\u{3000}b", "a"));
    assert_eq!(parse_command("\u{a0}a"), ("\u{a0}a", ""));
}

#[test]
fn parse_command_gives_the_rest_and_the_name() {
    assert_eq!(parse_command("stop abc"), ("abc", "stop"));
    assert_eq!(parse_command("create-server name echo hi\n"), ("name echo hi\n", "create-server"));
    assert_eq!(parse_command("version"), ("", "version"));
    assert_eq!(parse_command("version\n"), ("", "version"));
    assert_eq!(parse_command("a \t\r\n b c"), ("b c", "a"));
}

#[test]
fn parse_command_of_edge_lines() {
    assert_eq!(parse_command(""), ("", ""));
    assert_eq!(parse_command("   x"), ("x", ""));
    assert_eq!(parse_command(" \n"), ("", ""));
    assert_eq!(parse_command("häßlich wörter"), ("wörter", "häßlich"));
}

#[test]
fn parse_number_reads_decimal_digits() {
    assert_eq!(parse_number("0"), Some(0));
    assert_eq!(parse_number("9"), Some(9));
    assert_eq!(parse_number("15"), Some(15));
    assert_eq!(parse_number("007"), Some(7));
    assert_eq!(parse_number("2147483647"), Some(2147483647));
}

#[test]
fn parse_number_turns_down_everything_else() {
    assert_eq!(parse_number(""), None);
    assert_eq!(parse_number("2147483648"), None);
    assert_eq!(parse_number("99999999999999999999"), None);
    assert_eq!(parse_number("-1"), None);
    assert_eq!(parse_number("+1"), None);
    assert_eq!(parse_number("1a"), None);
    assert_eq!(parse_number("a1"), None);
    assert_eq!(parse_number("99999999999x"), None);
    assert_eq!(parse_number("١٢"), None);
}

#[test]
fn parse_verb_knows_the_five_commands() {
    assert_eq!(parse_verb("start"), Some(Verb::Start));
    assert_eq!(parse_verb("stop"), Some(Verb::Stop));
    assert_eq!(parse_verb("restart"), Some(Verb::Restart));
    assert_eq!(parse_verb("signal"), Some(Verb::Signal));
    assert_eq!(parse_verb("command"), Some(Verb::Command));
    assert_eq!(parse_verb("Start"), None);
    assert_eq!(parse_verb(""), None);
    assert_eq!(parse_verb("version"), None);
}

#[test]
fn lines_about_one_server_decode_to_commands() {
    assert_eq!(decode(&format!("start {}\n", ID_TEXT)), server(ServerInteraction::Start));
    assert_eq!(decode(&format!("stop {}\n", ID_TEXT)), server(ServerInteraction::Stop));
    assert_eq!(decode(&format!("stop {}", ID_TEXT)), server(ServerInteraction::Stop));
    assert_eq!(decode(&format!("restart {} \n", ID_TEXT)), server(ServerInteraction::Restart));
    assert_eq!(decode(&format!("signal {} 15\n", ID_TEXT)), server(ServerInteraction::Signal(15)));
    assert_eq!(
        decode(&format!("command {} say hello world\n", ID_TEXT)),
        server(ServerInteraction::Command("say hello world\n".to_string()))
    );
}

#[test]
fn identifiers_are_read_in_every_form_of_the_uuid_crate() {
    let stop = server(ServerInteraction::Stop);
    assert_eq!(decode("stop 6a16edc702f64f9cb7df07ae4a9db1c2\n"), stop);
    assert_eq!(decode("stop 6A16EDC7-02F6-4F9C-B7DF-07AE4A9DB1C2\n"), stop);
    assert_eq!(decode("stop {6a16edc7-02f6-4f9c-b7df-07ae4a9db1c2}\n"), stop);
    assert_eq!(decode("stop urn:uuid:6a16edc7-02f6-4f9c-b7df-07ae4a9db1c2\n"), stop);
}

#[test]
fn version_and_create_server_decode() {
    assert_eq!(decode("version\n"), Ok(Request::Version));
    assert_eq!(decode("version"), Ok(Request::Version));
    assert_eq!(
        decode("create-server web python3 -m http.server 8080\n"),
        Ok(Request::CreateServer {
            name: "web".to_string(),
            exec_str: "python3 -m http.server 8080\n".to_string()
        })
    );
}

#[test]
fn unknown_command_names_are_errors() {
    assert_eq!(decode("frobnicate\n"), Err(ProtocolError::UnknownCommand));
    assert_eq!(decode(""), Err(ProtocolError::UnknownCommand));
    assert_eq!(decode("\n"), Err(ProtocolError::UnknownCommand));
    assert_eq!(decode(" stop\n"), Err(ProtocolError::UnknownCommand));
    assert_eq!(decode("STOP x\n"), Err(ProtocolError::UnknownCommand));
}

#[test]
fn missing_arguments_are_errors() {
    assert_eq!(decode("stop\n"), Err(ProtocolError::MissingArgument));
    assert_eq!(decode("start"), Err(ProtocolError::MissingArgument));
    assert_eq!(decode(&format!("signal {}\n", ID_TEXT)), Err(ProtocolError::MissingArgument));
    assert_eq!(decode(&format!("command {}\n", ID_TEXT)), Err(ProtocolError::MissingArgument));
    assert_eq!(decode("create-server\n"), Err(ProtocolError::MissingArgument));
    assert_eq!(decode("create-server web\n"), Err(ProtocolError::MissingArgument));
}

#[test]
fn unexpected_arguments_are_errors() {
    assert_eq!(decode("version 2\n"), Err(ProtocolError::UnexpectedArgument));
    assert_eq!(decode(&format!("stop {} now\n", ID_TEXT)), Err(ProtocolError::UnexpectedArgument));
    assert_eq!(
        decode(&format!("signal {} 15 16\n", ID_TEXT)),
        Err(ProtocolError::UnexpectedArgument)
    );
}

#[test]
fn invalid_identifiers_and_numbers_are_errors() {
    assert_eq!(decode("stop nonsense\n"), Err(ProtocolError::InvalidIdentifier));
    assert_eq!(
        decode("stop 6a16edc7-02f6-4f9c-b7df-07ae4a9db1c\n"),
        Err(ProtocolError::InvalidIdentifier)
    );
    assert_eq!(decode(&format!("signal {} TERM\n", ID_TEXT)), Err(ProtocolError::InvalidNumber));
    assert_eq!(
        decode(&format!("signal {} 2147483648\n", ID_TEXT)),
        Err(ProtocolError::InvalidNumber)
    );
}

#[test]
fn address_request_builds_on_what_the_identifier_read_as() {
    assert_eq!(address_request(Verb::Stop, "x", Some(5)), Ok(Request::Server(ServerCommand::new(
        5,
        ServerInteraction::Stop
    ))));
    assert_eq!(address_request(Verb::Stop, "x", None), Err(ProtocolError::InvalidIdentifier));
    assert_eq!(address_request(Verb::Stop, "", Some(5)), Err(ProtocolError::MissingArgument));
    assert_eq!(
        address_request(Verb::Command, "x  ls -l\n", Some(5)),
        Ok(Request::Server(ServerCommand::new(5, ServerInteraction::Command("ls -l\n".to_string()))))
    );
    assert_eq!(
        address_request(Verb::Signal, "x 9", Some(5)),
        Ok(Request::Server(ServerCommand::new(5, ServerInteraction::Signal(9))))
    );
}

#[test]
fn reply_lines_for_every_answer() {
    assert_eq!(reply_line(InteractionResult::Success), "ok\n");
    assert_eq!(reply_line(InteractionResult::AlreadyRunning), "already-running\n");
    assert_eq!(reply_line(InteractionResult::NotRunning), "not-running\n");
    assert_eq!(reply_line(InteractionResult::UnknownServer), "err\n");
    assert_eq!(reply_line(InteractionResult::ChannelClosed), "err\n");
    assert_eq!(reply_line(InteractionResult::SpawnError(SpawnError::Refused)), "err\n");
    assert_eq!(reply_line(InteractionResult::SpawnError(SpawnError::EmptyCommand)), "err\n");
    assert_eq!(error_reply(), "err\n");
}

#[test]
fn created_reply_shows_the_identifier() {
    assert_eq!(created_reply(ID), format!("ok {}\n", ID_TEXT));
    assert_eq!(created_reply(0), "ok 00000000-0000-0000-0000-000000000000\n");
    assert_eq!(created_reply(u128::MAX), "ok ffffffff-ffff-ffff-ffff-ffffffffffff\n");
}

#[test]
fn version_reply_is_the_version_and_a_line_feed() {
    assert_eq!(VERSION, "0.1.0");
    assert_eq!(version_reply(), "0.1.0\n");
}

#[test]
fn session_passes_over_failed_reads_and_ends_when_closed() {
    assert_eq!(on_received(Received::Failed, client()), ClientAction::Ignore);
    assert_eq!(on_received(Received::Closed, client()), ClientAction::Close);
}

#[test]
fn session_answers_a_line_that_is_no_text_with_err_and_stays_open() {
    // The line of bad bytes is reported by the reader as no text.
    let bad = received(Err(ReadFailure::NotText), String::new());
    assert_eq!(bad, Received::Unreadable);
    assert_eq!(on_received(bad, client()), ClientAction::Write("err\n".to_string()));
    // The valid line behind it is read and answered.
    let good = received(Ok(8), "version\n".to_string());
    assert_eq!(on_received(good, client()), ClientAction::Perform(Request::Version));
}

#[test]
fn white_space_other_than_blanks_stays_in_the_arguments() {
    assert_eq!(decode("version\u{b}\n"), Err(ProtocolError::UnexpectedArgument));
    assert_eq!(
        decode(&format!("stop {}\u{a0}\n", ID_TEXT)),
        Err(ProtocolError::UnexpectedArgument)
    );
    assert_eq!(decode("stop\u{a0}x\n"), Err(ProtocolError::InvalidIdentifier));
}

#[test]
fn session_answers_a_bad_line_with_err_and_stays_open() {
    let action = on_received(Received::Line("what is this\n".to_string()), client());
    assert_eq!(action, ClientAction::Write("err\n".to_string()));
    let action = on_received(Received::Line("stop not-an-id\n".to_string()), client());
    assert_eq!(action, ClientAction::Write("err\n".to_string()));
}

#[test]
fn session_performs_what_a_good_line_asks() {
    let action = on_received(Received::Line("version\n".to_string()), client());
    assert_eq!(action, ClientAction::Perform(Request::Version));
}

#[test]
fn stop_of_an_unknown_server_is_answered_with_err_and_the_session_goes_on() {
    let mut supervisor = Supervisor::new();
    let line = "stop 6a16edc7-02f6-4f9c-b7df-07ae4a9db1c2\n".to_string();
    let action = on_received(Received::Line(line), client());
    let command = match action {
        ClientAction::Perform(Request::Server(command)) => command,
        other => panic!("unexpected action {:?}", other),
    };
    assert_eq!(command, ServerCommand::new(ID, ServerInteraction::Stop));
    let decision = handle_server_command(command, &mut supervisor);
    assert_eq!(decision, Decision::Reply(InteractionResult::UnknownServer));
    let reply = match decision {
        Decision::Reply(result) => reply_line(result),
        other => panic!("unexpected decision {:?}", other),
    };
    assert_eq!(reply, "err\n");
    // The next line on the same connection is handled as usual.
    let next = on_received(Received::Line("version\n".to_string()), client());
    assert_eq!(next, ClientAction::Perform(Request::Version));
}

#[test]
fn received_tells_lines_from_a_closed_connection_and_from_failures() {
    assert_eq!(received(Ok(8), "version\n".to_string()), Received::Line("version\n".to_string()));
    assert_eq!(received(Ok(0), String::new()), Received::Closed);
    assert_eq!(received(Err(ReadFailure::Io), String::new()), Received::Failed);
    assert_eq!(received(Err(ReadFailure::NotText), "x".to_string()), Received::Unreadable);
}
