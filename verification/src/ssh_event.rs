//! Events published by a running SSH session.
//!
//! A session never blocks its caller: everything it learns about the remote host
//! arrives as an [`SshEvent`].
use vstd::prelude::*;

use crate::text::{copy, decimal, decimal_text, join2, join3};

verus! {

/// What std's `Debug` writes for a text.
pub uninterp spec fn debug_text(text: Seq<char>) -> Seq<char>;

/// Writes a text as std's `Debug` for `str` does: quoted and escaped. Which
/// characters are escaped, and how, is left to std.
#[verifier::external_body]
fn quoted_text(text: &str) -> (quoted: String)
    ensures
        quoted@ == debug_text(text@),
{
    format!("{text:?}")
}

/// Coarse classification of a fatal session failure.
#[derive(Debug, Clone, Copy, PartialEq, Eq, Structural)]
pub enum SshErrorKind {
    /// Name resolution, TCP connect, connect timeout, or protocol handshake
    /// failure: the session never reached authentication.
    Connect,
    /// The host key verifier refused the key the server presented.
    HostKeyRejected,
    /// The server rejected our credentials.
    Auth,
    /// A private key could not be read, parsed, or decrypted.
    KeyLoad,
    /// Opening the session channel, the pty, or the shell failed.
    Channel,
    /// Transport-level I/O failure, or an internal error while running the
    /// session.
    Io,
}

/// The wording of a failure.
pub open spec fn kind_text(kind: SshErrorKind) -> Seq<char> {
    match kind {
        SshErrorKind::Connect => "connection failed"@,
        SshErrorKind::HostKeyRejected => "host key rejected"@,
        SshErrorKind::Auth => "authentication failed"@,
        SshErrorKind::KeyLoad => "private key could not be loaded"@,
        SshErrorKind::Channel => "channel request failed"@,
        SshErrorKind::Io => "i/o error"@,
    }
}

/// The name of a failure.
pub open spec fn kind_name(kind: SshErrorKind) -> Seq<char> {
    match kind {
        SshErrorKind::Connect => "Connect"@,
        SshErrorKind::HostKeyRejected => "HostKeyRejected"@,
        SshErrorKind::Auth => "Auth"@,
        SshErrorKind::KeyLoad => "KeyLoad"@,
        SshErrorKind::Channel => "Channel"@,
        SshErrorKind::Io => "Io"@,
    }
}

impl SshErrorKind {
    /// The failure in words.
    pub fn text(self) -> (text: &'static str)
        ensures
            text@ == kind_text(self),
    {
        match self {
            SshErrorKind::Connect => "connection failed",
            SshErrorKind::HostKeyRejected => "host key rejected",
            SshErrorKind::Auth => "authentication failed",
            SshErrorKind::KeyLoad => "private key could not be loaded",
            SshErrorKind::Channel => "channel request failed",
            SshErrorKind::Io => "i/o error",
        }
    }

    /// The failure's name.
    pub fn name(self) -> (name: &'static str)
        ensures
            name@ == kind_name(self),
    {
        match self {
            SshErrorKind::Connect => "Connect",
            SshErrorKind::HostKeyRejected => "HostKeyRejected",
            SshErrorKind::Auth => "Auth",
            SshErrorKind::KeyLoad => "KeyLoad",
            SshErrorKind::Channel => "Channel",
            SshErrorKind::Io => "Io",
        }
    }
}

/// A single observation about the life of an SSH session.
///
/// The stream always ends with either [`SshEvent::Disconnected`] or
/// [`SshEvent::Error`]; no further events follow those.
pub enum SshEvent {
    /// The transport is about to open a TCP connection to the server.
    Connecting,
    /// The server presented its host key and the verifier ruled on it.
    HostKey {
        /// SSH name of the key algorithm, e.g. `ssh-ed25519`.
        algorithm: String,
        /// OpenSSH-style SHA-256 fingerprint, e.g. `SHA256:...`.
        fingerprint: String,
        /// Whether the verifier accepted the key.
        accepted: bool,
    },
    /// Authentication succeeded and the remote pty and shell are live.
    Ready,
    /// Bytes read from the remote shell's standard output.
    Data(Vec<u8>),
    /// Bytes read from the remote shell's extended data stream.
    ExtendedData(Vec<u8>),
    /// The remote shell reported its exit status.
    ExitStatus(u32),
    /// The session finished.
    Disconnected {
        /// Human-readable explanation, suitable for display in the UI.
        reason: String,
    },
    /// The session failed and cannot continue.
    Error(SshErrorKind, String),
}

/// `true` or `false`.
pub open spec fn bool_text(value: bool) -> Seq<char> {
    if value {
        "true"@
    } else {
        "false"@
    }
}

/// What a log line says of an event.
pub open spec fn event_text(event: SshEvent) -> Seq<char> {
    match event {
        SshEvent::Connecting => "Connecting"@,
        SshEvent::HostKey { algorithm, fingerprint, accepted } => "HostKey { algorithm: "@ + debug_text(algorithm@)
            + ", fingerprint: "@ + debug_text(fingerprint@) + ", accepted: "@ + bool_text(accepted) + " }"@,
        SshEvent::Ready => "Ready"@,
        SshEvent::Data(bytes) => "Data("@ + decimal_text(bytes@.len()) + " bytes)"@,
        SshEvent::ExtendedData(bytes) => "ExtendedData("@ + decimal_text(bytes@.len()) + " bytes)"@,
        SshEvent::ExitStatus(code) => "ExitStatus("@ + decimal_text(code as nat) + ")"@,
        SshEvent::Disconnected { reason } => "Disconnected { reason: "@ + debug_text(reason@) + " }"@,
        SshEvent::Error(kind, message) => "Error("@ + kind_name(kind) + ", "@ + debug_text(message@) + ")"@,
    }
}

impl SshEvent {
    /// The event for a log line. Payloads are summarised by their length instead
    /// of dumped: terminal traffic is both noisy and potentially sensitive.
    pub fn text(&self) -> (text: String)
        ensures
            text@ == event_text(*self),
    {
        match self {
            SshEvent::Connecting => copy("Connecting"),
            SshEvent::HostKey { algorithm, fingerprint, accepted } => {
                let mut text = join3(
                    "HostKey { algorithm: ",
                    quoted_text(algorithm.as_str()).as_str(),
                    ", fingerprint: ",
                );
                text.append(quoted_text(fingerprint.as_str()).as_str());
                text.append(", accepted: ");
                text.append(
                    if *accepted {
                        "true"
                    } else {
                        "false"
                    },
                );
                text.append(" }");
                text
            },
            SshEvent::Ready => copy("Ready"),
            SshEvent::Data(bytes) => join3("Data(", decimal(bytes.len() as u64).as_str(), " bytes)"),
            SshEvent::ExtendedData(bytes) => join3(
                "ExtendedData(",
                decimal(bytes.len() as u64).as_str(),
                " bytes)",
            ),
            SshEvent::ExitStatus(code) => join3("ExitStatus(", decimal(*code as u64).as_str(), ")"),
            SshEvent::Disconnected { reason } => join3(
                "Disconnected { reason: ",
                quoted_text(reason.as_str()).as_str(),
                " }",
            ),
            SshEvent::Error(kind, message) => {
                let mut text = join3("Error(", kind.name(), ", ");
                text.append(join2(quoted_text(message.as_str()).as_str(), ")").as_str());
                assert(text@ =~= event_text(*self));
                text
            },
        }
    }
}

/// Terminal traffic never reaches a log line: two payloads of one length read the
/// same.
pub proof fn payloads_are_not_shown(a: Vec<u8>, b: Vec<u8>)
    requires
        a@.len() == b@.len(),
    ensures
        event_text(SshEvent::Data(a)) == event_text(SshEvent::Data(b)),
        event_text(SshEvent::ExtendedData(a)) == event_text(SshEvent::ExtendedData(b)),
{
}

/// Every kind of failure says what failed.
pub proof fn failures_say_what_failed()
    ensures
        kind_text(SshErrorKind::Connect) == "connection failed"@,
        kind_text(SshErrorKind::HostKeyRejected) == "host key rejected"@,
        kind_text(SshErrorKind::Auth) == "authentication failed"@,
        kind_text(SshErrorKind::KeyLoad) == "private key could not be loaded"@,
        kind_text(SshErrorKind::Channel) == "channel request failed"@,
        kind_text(SshErrorKind::Io) == "i/o error"@,
        kind_name(SshErrorKind::Connect) == "Connect"@,
        kind_name(SshErrorKind::HostKeyRejected) == "HostKeyRejected"@,
        kind_name(SshErrorKind::Auth) == "Auth"@,
        kind_name(SshErrorKind::KeyLoad) == "KeyLoad"@,
        kind_name(SshErrorKind::Channel) == "Channel"@,
        kind_name(SshErrorKind::Io) == "Io"@,
{
}

/// Every event is written by its own name, with what it carries; of a payload only how
/// long it is.
pub proof fn events_are_written_by_name(bytes: Vec<u8>, code: u32, text: String, kind: SshErrorKind, other: String)
    ensures
        event_text(SshEvent::Connecting) == "Connecting"@,
        event_text(SshEvent::Ready) == "Ready"@,
        event_text(SshEvent::Data(bytes)) == "Data("@ + decimal_text(bytes@.len()) + " bytes)"@,
        event_text(SshEvent::ExtendedData(bytes)) == "ExtendedData("@ + decimal_text(bytes@.len()) + " bytes)"@,
        event_text(SshEvent::ExitStatus(code)) == "ExitStatus("@ + decimal_text(code as nat) + ")"@,
        event_text(SshEvent::Disconnected { reason: text }) == "Disconnected { reason: "@ + debug_text(text@) + " }"@,
        event_text(SshEvent::Error(kind, text)) == "Error("@ + kind_name(kind) + ", "@ + debug_text(text@) + ")"@,
        event_text(SshEvent::HostKey { algorithm: text, fingerprint: other, accepted: true })
            == "HostKey { algorithm: "@ + debug_text(text@) + ", fingerprint: "@ + debug_text(other@)
            + ", accepted: "@ + "true"@ + " }"@,
        event_text(SshEvent::HostKey { algorithm: text, fingerprint: other, accepted: false })
            == "HostKey { algorithm: "@ + debug_text(text@) + ", fingerprint: "@ + debug_text(other@)
            + ", accepted: "@ + "false"@ + " }"@,
{
}

} // verus!
