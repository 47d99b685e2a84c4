//! The control socket as the supervisor sees it: lines in, lines out.
//!
//! A connection is a sequence of request lines, each answered by a reply
//! line. A line that is not understood, or that is no text at all, is
//! answered with `err` and the connection stays open.

pub mod executor;
pub mod parser;

use crate::cli::executor::{decoded, on_command, Request, RequestView};
use crate::servers::command::InteractionResult;
use vstd::arithmetic::power::pow;
use vstd::prelude::*;
use vstd::string::StringExecFns;

verus! {

/// The version that the daemon reports.
pub const VERSION: &'static str = "0.1.0";

/// Who is at the other end of a connection, as the system reports it.
#[derive(Debug, Clone, Copy, PartialEq, Eq, Structural)]
pub struct ClientProperties {
    pub uid: u32,
    pub gid: u32,
}

/// The character that writes a value below sixteen in lower-case
/// hexadecimal.
pub open spec fn hex_digit(value: int) -> char {
    seq!['0', '1', '2', '3', '4', '5', '6', '7', '8', '9', 'a', 'b', 'c', 'd', 'e', 'f'][value]
}

/// The hexadecimal digit of an identifier at `index`, counted from the most
/// significant of its thirty-two.
pub open spec fn nibble(id: u128, index: int) -> int {
    (id as int / pow(16, (31 - index) as nat)) % 16
}

/// True for the four places of a written identifier that hold a hyphen.
pub open spec fn is_hyphen_place(place: int) -> bool {
    place == 8 || place == 13 || place == 18 || place == 23
}

/// The index of the digit that stands at a place of a written identifier.
pub open spec fn digit_at(place: int) -> int {
    if place < 8 {
        place
    } else if place < 13 {
        place - 1
    } else if place < 18 {
        place - 2
    } else if place < 23 {
        place - 3
    } else {
        place - 4
    }
}

/// An identifier as it is written: its thirty-two lower-case hexadecimal
/// digits, most significant first, in groups of 8, 4, 4, 4 and 12 with a
/// hyphen between the groups.
pub open spec fn hyphenated(id: u128) -> Seq<char> {
    Seq::new(
        36,
        |place: int|
            if is_hyphen_place(place) {
                '-'
            } else {
                hex_digit(nibble(id, digit_at(place)))
            },
    )
}

/// `Uuid::from_u128`, then `Uuid::hyphenated` and its `to_string`: writes the
/// bytes of the identifier, most significant first, as lower-case
/// hexadecimal digits in five groups with hyphens between them.
#[verifier::external_body]
fn format_uuid(id: u128) -> (text: String)
    ensures
        text@ == hyphenated(id),
{
    uuid::Uuid::from_u128(id).hyphenated().to_string()
}

/// Why a read of a request line gave no line.
#[derive(Debug, Clone, Copy, PartialEq, Eq, Structural)]
pub enum ReadFailure {
    /// A line was read, but its bytes are no text.
    NotText,
    /// The connection could not be read.
    Io,
}

/// What an attempt to read a request line from a client gave.
#[derive(Debug, PartialEq, Eq)]
pub enum Received {
    /// The connection could not be read. It may still be usable.
    Failed,
    /// A line was read whose bytes are no text.
    Unreadable,
    /// The client has closed the connection.
    Closed,
    /// A line, with its line ending if it had one.
    Line(String),
}

/// A received item as plain values.
pub enum ReceivedView {
    Failed,
    Unreadable,
    Closed,
    Line(Seq<char>),
}

impl View for Received {
    type V = ReceivedView;

    open spec fn view(&self) -> ReceivedView {
        match *self {
            Received::Failed => ReceivedView::Failed,
            Received::Unreadable => ReceivedView::Unreadable,
            Received::Closed => ReceivedView::Closed,
            Received::Line(line) => ReceivedView::Line(line@),
        }
    }
}

/// What a read of a request line gave, told from what the reader returned:
/// the number of bytes read, or why there is none, and the line that it
/// filled. No bytes means that the client has closed the connection.
pub fn received(read: Result<usize, ReadFailure>, line: String) -> (received: Received)
    ensures
        received@ == match read {
            Err(ReadFailure::Io) => ReceivedView::Failed,
            Err(ReadFailure::NotText) => ReceivedView::Unreadable,
            Ok(bytes) => if bytes == 0 {
                ReceivedView::Closed
            } else {
                ReceivedView::Line(line@)
            },
        },
{
    match read {
        Err(ReadFailure::Io) => Received::Failed,
        Err(ReadFailure::NotText) => Received::Unreadable,
        Ok(0) => Received::Closed,
        Ok(_) => Received::Line(line),
    }
}

/// What to do on a connection next.
#[derive(Debug, PartialEq, Eq)]
pub enum ClientAction {
    /// Nothing: read on.
    Ignore,
    /// End the session.
    Close,
    /// Write this reply, then read on.
    Write(String),
    /// Do what the client asks, write the reply, then read on.
    Perform(Request),
}

/// An action as plain values.
pub enum ClientActionView {
    Ignore,
    Close,
    Write(Seq<char>),
    Perform(RequestView),
}

impl View for ClientAction {
    type V = ClientActionView;

    open spec fn view(&self) -> ClientActionView {
        match *self {
            ClientAction::Ignore => ClientActionView::Ignore,
            ClientAction::Close => ClientActionView::Close,
            ClientAction::Write(text) => ClientActionView::Write(text@),
            ClientAction::Perform(request) => ClientActionView::Perform(request@),
        }
    }
}

/// The reply to a line that was not understood.
pub open spec fn error_text() -> Seq<char> {
    "err\n"@
}

/// The reply line for the answer of the supervisor. The two answers that
/// are no failures have lines of their own; every failure reads `err`.
pub open spec fn reply_text(result: InteractionResult) -> Seq<char> {
    match result {
        InteractionResult::Success => "ok\n"@,
        InteractionResult::AlreadyRunning => "already-running\n"@,
        InteractionResult::NotRunning => "not-running\n"@,
        _ => error_text(),
    }
}

/// The action that a line calls for: what it asks, or the error reply if it
/// is not understood.
pub open spec fn line_action(line: Seq<char>) -> ClientActionView {
    match decoded(line) {
        Ok(request) => ClientActionView::Perform(request),
        Err(_) => ClientActionView::Write(error_text()),
    }
}

/// The reply to a line that was not understood.
pub fn error_reply() -> (text: String)
    ensures
        text@ == error_text(),
{
    String::from_str("err\n")
}

/// The reply line for the answer of the supervisor.
pub fn reply_line(result: InteractionResult) -> (text: String)
    ensures
        text@ == reply_text(result),
{
    match result {
        InteractionResult::Success => String::from_str("ok\n"),
        InteractionResult::AlreadyRunning => String::from_str("already-running\n"),
        InteractionResult::NotRunning => String::from_str("not-running\n"),
        _ => error_reply(),
    }
}

/// The reply to a request that made a server known: `ok`, a space, the new
/// identifier, and a line feed.
pub fn created_reply(id: u128) -> (text: String)
    ensures
        text@ == "ok "@ + hyphenated(id) + "\n"@,
{
    let shown = format_uuid(id);
    let mut text = String::from_str("ok ");
    text.append(shown.as_str());
    text.append("\n");
    text
}

/// The reply to a request for the version: the version and a line feed.
pub fn version_reply() -> (text: String)
    ensures
        text@ == VERSION@ + "\n"@,
{
    let mut text = String::from_str(VERSION);
    text.append("\n");
    text
}

/// Decides what to do with what a read from the client gave: a connection
/// that could not be read is passed over, a closed one ends the session, a
/// line that is no text is answered with the error reply, and a line of
/// text is decoded and either performed or answered with the error reply.
pub fn on_received(received: Received, props: ClientProperties) -> (action: ClientAction)
    ensures
        action@ == match received@ {
            ReceivedView::Failed => ClientActionView::Ignore,
            ReceivedView::Unreadable => ClientActionView::Write(error_text()),
            ReceivedView::Closed => ClientActionView::Close,
            ReceivedView::Line(line) => line_action(line),
        },
{
    match received {
        Received::Failed => ClientAction::Ignore,
        Received::Unreadable => ClientAction::Write(error_reply()),
        Received::Closed => ClientAction::Close,
        Received::Line(line) => match on_command(line, props) {
            Ok(request) => ClientAction::Perform(request),
            Err(_) => ClientAction::Write(error_reply()),
        },
    }
}

} // verus!
