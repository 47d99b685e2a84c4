//! What a request line asks for.
//!
//! A line is a command name followed by its arguments:
//!
//! ```text
//! version
//! create-server <name> <command line...>
//! start <id>
//! stop <id>
//! restart <id>
//! signal <id> <number>
//! command <id> <text...>
//! ```

use crate::cli::parser::{after_first_word, first_word, parse_command};
use crate::cli::ClientProperties;
use crate::servers::command::{CommandView, Interaction, ServerCommand, ServerInteraction};
use vstd::prelude::*;
use vstd::std_specs::iter::IteratorSpec;
use vstd::string::{StrSliceExecFns, StringExecFns};

verus! {

/// The identifier that `Uuid::parse_str` reads in a text, as a number, or
/// `None` where it reports an error.
pub uninterp spec fn uuid_of(text: Seq<char>) -> Option<u128>;

/// `Uuid::parse_str`, then `Uuid::as_u128`: reads an identifier in any of
/// the forms that the `uuid` crate writes. The result depends on the text
/// alone.
#[verifier::external_body]
fn parse_uuid(text: &str) -> (id: Option<u128>)
    ensures
        id == uuid_of(text@),
{
    match uuid::Uuid::parse_str(text) {
        Ok(id) => Some(id.as_u128()),
        Err(_) => None,
    }
}

/// Why a request line was not understood.
#[derive(Debug, Clone, Copy, PartialEq, Eq, Structural)]
pub enum ProtocolError {
    /// The line does not begin with the name of a command.
    UnknownCommand,
    /// The command needs an argument that the line does not have.
    MissingArgument,
    /// The line goes on after the last argument of the command.
    UnexpectedArgument,
    /// The argument that should name a server is no identifier.
    InvalidIdentifier,
    /// The argument that should be a signal number is none.
    InvalidNumber,
}

/// What a client asks for.
#[derive(Debug, PartialEq, Eq)]
pub enum Request {
    /// Tell the version of the daemon.
    Version,
    /// Make a server of this name and command line known.
    CreateServer { name: String, exec_str: String },
    /// Hand this command to the supervisor.
    Server(ServerCommand),
}

/// A request as plain values.
pub enum RequestView {
    Version,
    CreateServer { name: Seq<char>, exec_str: Seq<char> },
    Server(CommandView),
}

impl View for Request {
    type V = RequestView;

    open spec fn view(&self) -> RequestView {
        match *self {
            Request::Version => RequestView::Version,
            Request::CreateServer { name, exec_str } => RequestView::CreateServer {
                name: name@,
                exec_str: exec_str@,
            },
            Request::Server(command) => RequestView::Server(command@),
        }
    }
}

/// The views of a decoding result.
pub open spec fn request_result_view(result: Result<Request, ProtocolError>) -> Result<
    RequestView,
    ProtocolError,
> {
    match result {
        Ok(request) => Ok(request@),
        Err(error) => Err(error),
    }
}

/// The commands that are about one server.
#[derive(Debug, Clone, Copy, PartialEq, Eq, Structural)]
pub enum Verb {
    Start,
    Stop,
    Restart,
    Signal,
    Command,
}

/// The command that a name stands for, if it is about one server.
pub open spec fn verb_of(name: Seq<char>) -> Option<Verb> {
    if name == "start"@ {
        Some(Verb::Start)
    } else if name == "stop"@ {
        Some(Verb::Stop)
    } else if name == "restart"@ {
        Some(Verb::Restart)
    } else if name == "signal"@ {
        Some(Verb::Signal)
    } else if name == "command"@ {
        Some(Verb::Command)
    } else {
        None
    }
}

/// The value of a decimal digit.
pub open spec fn digit_value(c: char) -> int {
    c as int - '0' as int
}

/// True for the ten decimal digits.
pub open spec fn is_digit(c: char) -> bool {
    '0' <= c <= '9'
}

/// The number that a run of decimal digits writes. The empty run writes 0.
pub open spec fn decimal_value(digits: Seq<char>) -> int
    decreases digits.len(),
{
    if digits.len() == 0 {
        0
    } else {
        decimal_value(digits.drop_last()) * 10 + digit_value(digits.last())
    }
}

/// The signal number that a text writes: one or more decimal digits whose
/// value fits a signal number.
pub open spec fn number_of(text: Seq<char>) -> Option<i32> {
    if text.len() > 0 && (forall|i: int| 0 <= i < text.len() ==> is_digit(#[trigger] text[i]))
        && decimal_value(text) <= i32::MAX {
        Some(decimal_value(text) as i32)
    } else {
        None
    }
}

/// The request of a command about the server `id`, where `args` is what
/// follows the identifier on the line.
pub open spec fn server_request(verb: Verb, id: u128, args: Seq<char>) -> Result<
    RequestView,
    ProtocolError,
> {
    let plain = |interaction: Interaction|
        if args.len() == 0 {
            Ok(RequestView::Server(CommandView { id: id, interaction: interaction }))
        } else {
            Err(ProtocolError::UnexpectedArgument)
        };
    match verb {
        Verb::Start => plain(Interaction::Start),
        Verb::Stop => plain(Interaction::Stop),
        Verb::Restart => plain(Interaction::Restart),
        Verb::Signal => if args.len() == 0 {
            Err(ProtocolError::MissingArgument)
        } else if after_first_word(args).len() > 0 {
            Err(ProtocolError::UnexpectedArgument)
        } else {
            match number_of(first_word(args)) {
                Some(kind) => Ok(
                    RequestView::Server(
                        CommandView { id: id, interaction: Interaction::Signal(kind) },
                    ),
                ),
                None => Err(ProtocolError::InvalidNumber),
            }
        },
        Verb::Command => if args.len() == 0 {
            Err(ProtocolError::MissingArgument)
        } else {
            Ok(
                RequestView::Server(
                    CommandView { id: id, interaction: Interaction::Command(args) },
                ),
            )
        },
    }
}

/// The request of a command about one server, where `args` is what follows
/// the command name on the line and `id` is what its first word reads as.
pub open spec fn addressed_request(verb: Verb, args: Seq<char>, id: Option<u128>) -> Result<
    RequestView,
    ProtocolError,
> {
    if args.len() == 0 {
        Err(ProtocolError::MissingArgument)
    } else {
        match id {
            None => Err(ProtocolError::InvalidIdentifier),
            Some(id) => server_request(verb, id, after_first_word(args)),
        }
    }
}

/// What a request line asks for.
pub open spec fn decoded(line: Seq<char>) -> Result<RequestView, ProtocolError> {
    let name = first_word(line);
    let args = after_first_word(line);
    if name == "version"@ {
        if args.len() == 0 {
            Ok(RequestView::Version)
        } else {
            Err(ProtocolError::UnexpectedArgument)
        }
    } else if name == "create-server"@ {
        if first_word(args).len() == 0 || after_first_word(args).len() == 0 {
            Err(ProtocolError::MissingArgument)
        } else {
            Ok(
                RequestView::CreateServer {
                    name: first_word(args),
                    exec_str: after_first_word(args),
                },
            )
        }
    } else {
        match verb_of(name) {
            Some(verb) => addressed_request(verb, args, uuid_of(first_word(args))),
            None => Err(ProtocolError::UnknownCommand),
        }
    }
}

/// True when the two texts are the same.
fn same_text(left: &str, right: &str) -> (same: bool)
    ensures
        same == (left@ == right@),
{
    String::from_str(left) == String::from_str(right)
}

/// Reads a signal number: one or more decimal digits.
pub fn parse_number(text: &str) -> (number: Option<i32>)
    ensures
        number == number_of(text@),
{
    let total = text.unicode_len();
    if total == 0 {
        return None;
    }
    let mut chars = text.chars();
    let mut value: i32 = 0;
    let mut index: usize = 0;
    while index < total
        invariant
            0 <= index <= total,
            total == text@.len(),
            chars.remaining() == text@.subrange(index as int, total as int),
            forall|i: int| 0 <= i < index ==> is_digit(#[trigger] text@[i]),
            value == decimal_value(text@.subrange(0, index as int)),
            0 <= value,
        decreases total - index,
    {
        let ghost seen = text@.subrange(0, index as int);
        let ghost longer = text@.subrange(0, index as int + 1);
        let next = chars.next();
        assert(next is Some);
        if let Some(c) = next {
            assert(longer.drop_last() =~= seen);
            if !(c >= '0' && c <= '9') {
                return None;
            }
            let digit: i32 = (c as u32 - '0' as u32) as i32;
            if value > (i32::MAX - digit) / 10 {
                proof {
                    if forall|i: int| 0 <= i < text@.len() ==> is_digit(#[trigger] text@[i]) {
                        lemma_decimal_grows(longer, text@);
                    }
                }
                return None;
            }
            value = value * 10 + digit;
            index = index + 1;
        }
    }
    Some(value)
}

/// The value of a run of digits is at least that of any run it begins with.
proof fn lemma_decimal_grows(start: Seq<char>, whole: Seq<char>)
    requires
        start.len() <= whole.len(),
        start == whole.subrange(0, start.len() as int),
        forall|i: int| 0 <= i < whole.len() ==> is_digit(#[trigger] whole[i]),
    ensures
        0 <= decimal_value(start) <= decimal_value(whole),
    decreases whole.len(),
{
    if start.len() == 0 {
        lemma_decimal_nonnegative(whole);
    } else if start.len() == whole.len() {
        assert(start =~= whole);
        lemma_decimal_nonnegative(whole);
    } else {
        let shorter = whole.drop_last();
        assert(start =~= shorter.subrange(0, start.len() as int));
        lemma_decimal_grows(start, shorter);
    }
}

/// A run of digits writes no negative number.
proof fn lemma_decimal_nonnegative(digits: Seq<char>)
    requires
        forall|i: int| 0 <= i < digits.len() ==> is_digit(#[trigger] digits[i]),
    ensures
        0 <= decimal_value(digits),
    decreases digits.len(),
{
    if digits.len() > 0 {
        lemma_decimal_nonnegative(digits.drop_last());
    }
}

/// The command that a name stands for, if it is about one server.
pub fn parse_verb(name: &str) -> (verb: Option<Verb>)
    ensures
        verb == verb_of(name@),
{
    if same_text(name, "start") {
        Some(Verb::Start)
    } else if same_text(name, "stop") {
        Some(Verb::Stop)
    } else if same_text(name, "restart") {
        Some(Verb::Restart)
    } else if same_text(name, "signal") {
        Some(Verb::Signal)
    } else if same_text(name, "command") {
        Some(Verb::Command)
    } else {
        None
    }
}

/// Makes the request of a command about one server, given what follows the
/// command name on the line and what its first word reads as.
pub fn address_request(verb: Verb, args: &str, id: Option<u128>) -> (result: Result<
    Request,
    ProtocolError,
>)
    ensures
        request_result_view(result) == addressed_request(verb, args@, id),
{
    if args.unicode_len() == 0 {
        return Err(ProtocolError::MissingArgument);
    }
    let id = match id {
        Some(id) => id,
        None => {
            return Err(ProtocolError::InvalidIdentifier);
        },
    };
    let (rest, _) = parse_command(args);
    let empty = rest.unicode_len() == 0;
    let interaction = match verb {
        Verb::Start => ServerInteraction::Start,
        Verb::Stop => ServerInteraction::Stop,
        Verb::Restart => ServerInteraction::Restart,
        Verb::Signal => {
            if empty {
                return Err(ProtocolError::MissingArgument);
            }
            let (extra, digits) = parse_command(rest);
            if extra.unicode_len() > 0 {
                return Err(ProtocolError::UnexpectedArgument);
            }
            match parse_number(digits) {
                Some(kind) => {
                    return Ok(
                        Request::Server(ServerCommand::new(id, ServerInteraction::Signal(kind))),
                    );
                },
                None => {
                    return Err(ProtocolError::InvalidNumber);
                },
            }
        },
        Verb::Command => {
            if empty {
                return Err(ProtocolError::MissingArgument);
            }
            return Ok(
                Request::Server(
                    ServerCommand::new(id, ServerInteraction::Command(String::from_str(rest))),
                ),
            );
        },
    };
    if empty {
        Ok(Request::Server(ServerCommand::new(id, interaction)))
    } else {
        Err(ProtocolError::UnexpectedArgument)
    }
}

/// Decodes a request line. The properties of the client are taken along and
/// decide nothing: every client may ask for everything.
pub fn on_command(input: String, _props: ClientProperties) -> (result: Result<
    Request,
    ProtocolError,
>)
    ensures
        request_result_view(result) == decoded(input@),
{
    let (args, name) = parse_command(input.as_str());
    if same_text(name, "version") {
        if args.unicode_len() == 0 {
            Ok(Request::Version)
        } else {
            Err(ProtocolError::UnexpectedArgument)
        }
    } else if same_text(name, "create-server") {
        let (exec_str, server_name) = parse_command(args);
        if server_name.unicode_len() == 0 || exec_str.unicode_len() == 0 {
            Err(ProtocolError::MissingArgument)
        } else {
            Ok(
                Request::CreateServer {
                    name: String::from_str(server_name),
                    exec_str: String::from_str(exec_str),
                },
            )
        }
    } else {
        match parse_verb(name) {
            Some(verb) => {
                let (_, id_text) = parse_command(args);
                address_request(verb, args, parse_uuid(id_text))
            },
            None => Err(ProtocolError::UnknownCommand),
        }
    }
}

} // verus!
