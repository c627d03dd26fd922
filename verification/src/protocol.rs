//! The line-oriented wire protocol: command builders, reply checks,
//! the error taxonomy, and the response framer.  A response is either
//! a single line or a list envelope running from a line beginning
//! `BEGIN LIST` through the first following line beginning `END LIST`,
//! inclusive.  The framer decides completeness line by line; the
//! transport only reads one line at a time and feeds it in, so
//! response framing never rests on read timeouts.

use vstd::prelude::*;
use crate::text::{seq_starts_with, str_eq, str_starts_with, trim_ws, trim_ws_str};

verus! {

/// Error taxonomy of the protocol client.  Every variant is
/// recoverable at the caller's discretion; none is fatal.
#[derive(Debug)]
pub enum NutError {
    /// Transport-level failure mid-exchange.
    Io(String),
    /// No usable socket.
    ConnectionFailed,
    /// A credential was rejected.
    AuthFailed,
    /// The server rejected a specific request; the session stays valid.
    CommandFailed(String),
}

impl NutError {
    /// Human-readable description of the error.
    pub fn message(&self) -> (r: String)
        ensures
            match self {
                NutError::Io(d) => r@ == "IO error: "@ + d@,
                NutError::ConnectionFailed => r@ == "Connection failed"@,
                NutError::AuthFailed => r@ == "Authentication failed"@,
                NutError::CommandFailed(d) => r@ == "Command failed: "@ + d@,
            },
    {
        match self {
            NutError::Io(d) => String::from_str("IO error: ").concat(d.as_str()),
            NutError::ConnectionFailed => String::from_str("Connection failed"),
            NutError::AuthFailed => String::from_str("Authentication failed"),
            NutError::CommandFailed(d) => String::from_str("Command failed: ").concat(d.as_str()),
        }
    }
}

/// Build the username command for one credential exchange.
pub fn make_username_cmd(user: &str) -> (r: String)
    ensures
        r@ == "USERNAME "@ + user@,
{
    String::from_str("USERNAME ").concat(user)
}

/// Build the password command for one credential exchange.
pub fn make_password_cmd(pass: &str) -> (r: String)
    ensures
        r@ == "PASSWORD "@ + pass@,
{
    String::from_str("PASSWORD ").concat(pass)
}

/// Build the device listing command.
pub fn make_list_ups_cmd() -> (r: String)
    ensures
        r@ == "LIST UPS"@,
{
    String::from_str("LIST UPS")
}

/// Build the variable listing command for one device.
pub fn make_list_var_cmd(device: &str) -> (r: String)
    ensures
        r@ == "LIST VAR "@ + device@,
{
    String::from_str("LIST VAR ").concat(device)
}

/// Build the command listing command for one device.
pub fn make_list_cmd_cmd(device: &str) -> (r: String)
    ensures
        r@ == "LIST CMD "@ + device@,
{
    String::from_str("LIST CMD ").concat(device)
}

/// Build an instant command invocation for one device.
pub fn make_instcmd(device: &str, command: &str) -> (r: String)
    ensures
        r@ == "INSTCMD "@ + device@ + " "@ + command@,
{
    String::from_str("INSTCMD ").concat(device).concat(" ").concat(command)
}

/// Build the logout command sent on a best-effort disconnect.
pub fn make_logout_cmd() -> (r: String)
    ensures
        r@ == "LOGOUT"@,
{
    String::from_str("LOGOUT")
}

/// Append the line terminator that ends every request on the wire.
pub fn wire_line(cmd: String) -> (r: String)
    ensures
        r@ == cmd@ + "\n"@,
{
    cmd.concat("\n")
}

/// A reply is a success token when it reads `OK` after trimming.
pub open spec fn is_ok_reply(resp: Seq<char>) -> bool {
    trim_ws(resp) == "OK"@
}

/// Test a reply for the success token.
pub fn check_ok_reply(resp: &str) -> (r: bool)
    ensures
        r == is_ok_reply(resp@),
{
    let t = trim_ws_str(resp);
    str_eq(t.as_str(), "OK")
}

/// Judge the server's reply to an instant command: exactly the success
/// token, or the whole reply wrapped as a command failure.
pub fn check_instcmd_reply(resp: String) -> (r: Result<(), NutError>)
    ensures
        match r {
            Ok(_) => is_ok_reply(resp@),
            Err(e) => !is_ok_reply(resp@) && (e matches NutError::CommandFailed(d) && d@
                == resp@),
        },
{
    if check_ok_reply(resp.as_str()) {
        Ok(())
    } else {
        Err(NutError::CommandFailed(resp))
    }
}

/// Judge the server's reply to a credential command: anything but the
/// success token is an authentication failure.
pub fn check_auth_reply(resp: &str) -> (r: Result<(), NutError>)
    ensures
        match r {
            Ok(_) => is_ok_reply(resp@),
            Err(e) => !is_ok_reply(resp@) && e is AuthFailed,
        },
{
    if check_ok_reply(resp) {
        Ok(())
    } else {
        Err(NutError::AuthFailed)
    }
}

/// The marker opening a list envelope.
pub open spec fn begin_marker() -> Seq<char> {
    seq!['B', 'E', 'G', 'I', 'N', ' ', 'L', 'I', 'S', 'T']
}

/// The marker closing a list envelope.
pub open spec fn end_marker() -> Seq<char> {
    seq!['E', 'N', 'D', ' ', 'L', 'I', 'S', 'T']
}

pub proof fn lemma_begin_marker()
    ensures
        "BEGIN LIST"@ == begin_marker(),
{
    reveal_strlit("BEGIN LIST");
    assert("BEGIN LIST"@ =~= begin_marker());
}

pub proof fn lemma_end_marker()
    ensures
        "END LIST"@ == end_marker(),
{
    reveal_strlit("END LIST");
    assert("END LIST"@ =~= end_marker());
}

/// Where the framer stands within one logical response.
pub enum FramerState {
    /// No line has been read yet.
    AwaitingFirst,
    /// The first line opened a list envelope whose end marker has not
    /// arrived yet.
    InList,
    /// One whole logical response has been read.
    Complete,
}

/// One line fed to the framer: the accumulated text always grows by
/// the line; completeness is decided by the markers alone.
pub open spec fn frame_step(st: FramerState, resp: Seq<char>, line: Seq<char>) -> (
    FramerState,
    Seq<char>,
) {
    match st {
        FramerState::AwaitingFirst => (
            if seq_starts_with(line, begin_marker()) {
                FramerState::InList
            } else {
                FramerState::Complete
            },
            resp + line,
        ),
        FramerState::InList => (
            if seq_starts_with(line, end_marker()) {
                FramerState::Complete
            } else {
                FramerState::InList
            },
            resp + line,
        ),
        FramerState::Complete => (st, resp),
    }
}

/// Accumulates one logical response, line by line, as the transport
/// reads them.  Lines are fed exactly as read, terminator included.
pub struct ResponseFramer {
    pub state: FramerState,
    pub response: String,
}

impl ResponseFramer {
    /// A framer that has read nothing.
    pub fn new() -> (r: ResponseFramer)
        ensures
            r.state is AwaitingFirst,
            r.response@ == Seq::<char>::empty(),
    {
        ResponseFramer { state: FramerState::AwaitingFirst, response: String::new() }
    }

    /// Whether one whole logical response has been read.
    pub fn is_complete(&self) -> (r: bool)
        ensures
            r == (self.state is Complete),
    {
        match self.state {
            FramerState::Complete => true,
            _ => false,
        }
    }

    /// Feed the next line read from the transport.
    pub fn feed_line(&mut self, line: &str)
        requires
            !(old(self).state is Complete),
        ensures
            (final(self).state, final(self).response@) == frame_step(
                old(self).state,
                old(self).response@,
                line@,
            ),
    {
        proof {
            lemma_begin_marker();
            lemma_end_marker();
        }
        match self.state {
            FramerState::AwaitingFirst => {
                self.response.append(line);
                if str_starts_with(line, "BEGIN LIST") {
                    self.state = FramerState::InList;
                } else {
                    self.state = FramerState::Complete;
                }
            },
            FramerState::InList => {
                self.response.append(line);
                if str_starts_with(line, "END LIST") {
                    self.state = FramerState::Complete;
                }
            },
            FramerState::Complete => {
                proof {
                    assert(false);
                }
            },
        }
    }

    /// Hand out the completed response.
    pub fn take_response(self) -> (r: String)
        requires
            self.state is Complete,
        ensures
            r@ == self.response@,
    {
        self.response
    }

    /// The error an end-of-file denotes: before any line, a failed
    /// connection; inside a list envelope, an abrupt truncation, which
    /// is never silently accepted as the end of the response.
    pub fn eof_error(&self) -> (e: NutError)
        requires
            !(self.state is Complete),
        ensures
            self.state is AwaitingFirst ==> e is ConnectionFailed,
            self.state is InList ==> (e matches NutError::Io(d) && d@
                == "unexpected end of stream inside list response"@),
    {
        match self.state {
            FramerState::InList => NutError::Io(
                String::from_str("unexpected end of stream inside list response"),
            ),
            _ => NutError::ConnectionFailed,
        }
    }
}

/// The framer run over a whole sequence of lines, stopping at the
/// first complete response.
pub open spec fn frame_fold(lines: Seq<Seq<char>>) -> (FramerState, Seq<char>)
    decreases lines.len(),
{
    if lines.len() == 0 {
        (FramerState::AwaitingFirst, Seq::<char>::empty())
    } else {
        let prev = frame_fold(lines.drop_last());
        if prev.0 is Complete {
            prev
        } else {
            frame_step(prev.0, prev.1, lines.last())
        }
    }
}

/// Concatenation of a sequence of lines.
pub open spec fn concat_all(lines: Seq<Seq<char>>) -> Seq<char>
    decreases lines.len(),
{
    if lines.len() == 0 {
        Seq::<char>::empty()
    } else {
        concat_all(lines.drop_last()) + lines.last()
    }
}

/// A response whose first line does not open a list envelope is that
/// one line, complete at once.
pub proof fn lemma_single_line_completes(line: Seq<char>)
    requires
        !seq_starts_with(line, begin_marker()),
    ensures
        frame_fold(seq![line]) == (FramerState::Complete, line),
{
    assert(seq![line].drop_last() =~= Seq::<Seq<char>>::empty());
    assert(seq![line].last() == line);
    assert(frame_fold(Seq::<Seq<char>>::empty()) == (
        FramerState::AwaitingFirst,
        Seq::<char>::empty(),
    ));
    assert(Seq::<char>::empty() + line =~= line);
    assert(frame_fold(seq![line]) == frame_step(
        FramerState::AwaitingFirst,
        Seq::<char>::empty(),
        line,
    ));
}

/// While a list envelope is open and no end marker has arrived, the
/// framer keeps consuming: after any number of ordinary lines it still
/// reports the response incomplete, with every line accumulated.
pub proof fn lemma_list_stays_open(lines: Seq<Seq<char>>)
    requires
        lines.len() >= 1,
        seq_starts_with(lines[0], begin_marker()),
        forall|j: int| 1 <= j < lines.len() ==> !seq_starts_with(#[trigger] lines[j], end_marker()),
    ensures
        frame_fold(lines) == (FramerState::InList, concat_all(lines)),
    decreases lines.len(),
{
    if lines.len() == 1 {
        assert(lines.drop_last().len() == 0);
        assert(Seq::<char>::empty() + lines[0] =~= lines[0]);
        assert(concat_all(lines.drop_last()) + lines.last() =~= lines[0]);
    } else {
        let prefix = lines.drop_last();
        assert(prefix[0] == lines[0]);
        assert(forall|j: int|
            1 <= j < prefix.len() ==> !seq_starts_with(#[trigger] prefix[j], end_marker()));
        lemma_list_stays_open(prefix);
    }
}

/// For every response whose first line begins with the list marker,
/// the framer consumes lines through and including the first following
/// line that begins with the end marker — however many lines lie
/// between — and completes exactly there, with the response equal to
/// all consumed lines.
pub proof fn lemma_list_framing(lines: Seq<Seq<char>>)
    requires
        lines.len() >= 2,
        seq_starts_with(lines[0], begin_marker()),
        forall|j: int|
            1 <= j < lines.len() - 1 ==> !seq_starts_with(#[trigger] lines[j], end_marker()),
        seq_starts_with(lines[lines.len() - 1], end_marker()),
    ensures
        frame_fold(lines) == (FramerState::Complete, concat_all(lines)),
{
    let prefix = lines.drop_last();
    assert(prefix[0] == lines[0]);
    assert(forall|j: int|
        1 <= j < prefix.len() ==> !seq_starts_with(#[trigger] prefix[j], end_marker()));
    lemma_list_stays_open(prefix);
}

} // verus!
