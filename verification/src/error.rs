//! Errors of the mirroring service, and the text that each is shown with.

use vstd::prelude::*;
use vstd::string::*;

verus! {

/// `ssh2::ErrorCode`: a number with its source, the session layer or the
/// SFTP subsystem.
#[verifier::external_type_specification]
pub struct ExErrorCode(ssh2::ErrorCode);

/// Where an ssh error code comes from, with the code.
#[derive(Clone, Copy, Debug, PartialEq, Eq, Structural)]
pub enum SshCode {
    /// A code of the session layer.
    Session(i32),
    /// A code of the SFTP subsystem.
    Sftp(i32),
}

/// Error enum
#[derive(Debug, PartialEq, Eq)]
pub enum Error {
    /// A local I/O failure, with its text.
    Io(String),
    /// A failure of the remote side or of the protocol, with its code and text.
    Ssh(SshCode, String),
    /// Invalid or missing start-up arguments.
    InvalidArgs,
    /// The number of bytes copied, and the length of the source it differs from.
    CopyLength(u64, u64),
}

/// The decimal digit for `d`, which is below ten.
pub open spec fn digit(d: nat) -> char {
    if d == 0 {
        '0'
    } else if d == 1 {
        '1'
    } else if d == 2 {
        '2'
    } else if d == 3 {
        '3'
    } else if d == 4 {
        '4'
    } else if d == 5 {
        '5'
    } else if d == 6 {
        '6'
    } else if d == 7 {
        '7'
    } else if d == 8 {
        '8'
    } else {
        '9'
    }
}

/// `n` in decimal, without leading zeros.
pub open spec fn decimal(n: nat) -> Seq<char>
    decreases n,
{
    if n < 10 {
        seq![digit(n)]
    } else {
        decimal(n / 10) + seq![digit(n % 10)]
    }
}

/// `n` in decimal, with a minus sign where it is negative.
pub open spec fn signed_decimal(n: int) -> Seq<char> {
    if n < 0 {
        seq!['-'] + decimal((-n) as nat)
    } else {
        decimal(n as nat)
    }
}

/// The text of an ssh error code: its source, and the code in brackets.
pub open spec fn code_text(code: SshCode) -> Seq<char> {
    match code {
        SshCode::Session(c) => "Session("@ + signed_decimal(c as int) + ")"@,
        SshCode::Sftp(c) => "SFTP("@ + signed_decimal(c as int) + ")"@,
    }
}

/// The text that an error is shown with.
pub open spec fn message_text(e: Error) -> Seq<char> {
    match e {
        Error::Io(text) => text@,
        Error::Ssh(code, text) => "["@ + code_text(code) + "] "@ + text@,
        Error::InvalidArgs => "invlaid args"@,
        Error::CopyLength(copied, len) => "copy length: "@ + decimal(copied as nat) + " != "@
            + decimal(len as nat),
    }
}

/// Whether an error tells that the session is lost: it comes from the
/// session layer of the protocol, so that nothing more can be done with
/// the connection.
pub open spec fn loses_session(e: Error) -> bool {
    e matches Error::Ssh(SshCode::Session(_), _)
}

/// The code of this library for a code of the ssh library: the same
/// source with the same number.
pub open spec fn code_of(code: ssh2::ErrorCode) -> SshCode {
    match code {
        ssh2::ErrorCode::Session(c) => SshCode::Session(c),
        ssh2::ErrorCode::SFTP(c) => SshCode::Sftp(c),
    }
}

/// The one-character string for a digit.
fn digit_str(d: u64) -> (s: &'static str)
    requires
        d < 10,
    ensures
        s@ == seq![digit(d as nat)],
{
    proof {
        reveal_strlit("0");
        reveal_strlit("1");
        reveal_strlit("2");
        reveal_strlit("3");
        reveal_strlit("4");
        reveal_strlit("5");
        reveal_strlit("6");
        reveal_strlit("7");
        reveal_strlit("8");
        reveal_strlit("9");
    }
    let s = if d == 0 {
        "0"
    } else if d == 1 {
        "1"
    } else if d == 2 {
        "2"
    } else if d == 3 {
        "3"
    } else if d == 4 {
        "4"
    } else if d == 5 {
        "5"
    } else if d == 6 {
        "6"
    } else if d == 7 {
        "7"
    } else if d == 8 {
        "8"
    } else {
        "9"
    };
    assert(s@ =~= seq![digit(d as nat)]);
    s
}

/// Writes `n` in decimal.
pub fn decimal_string(n: u64) -> (s: String)
    ensures
        s@ == decimal(n as nat),
    decreases n,
{
    if n < 10 {
        String::from_str(digit_str(n))
    } else {
        let mut s = decimal_string(n / 10);
        s.append(digit_str(n % 10));
        s
    }
}

/// Writes `n` in decimal, with a minus sign where it is negative.
pub fn signed_decimal_string(n: i32) -> (s: String)
    ensures
        s@ == signed_decimal(n as int),
{
    let wide: i64 = n as i64;
    if wide < 0 {
        let mut s = String::from_str("-");
        proof {
            reveal_strlit("-");
        }
        let digits = decimal_string((0 - wide) as u64);
        s.append(digits.as_str());
        assert(s@ =~= seq!['-'] + decimal((-n) as nat));
        s
    } else {
        decimal_string(wide as u64)
    }
}

impl SshCode {
    /// Writes the code as its source with the number in brackets, such as
    /// `SFTP(4)`.
    pub fn text(&self) -> (s: String)
        ensures
            s@ == code_text(*self),
    {
        let (mut s, c) = match self {
            SshCode::Session(c) => (String::from_str("Session("), *c),
            SshCode::Sftp(c) => (String::from_str("SFTP("), *c),
        };
        let digits = signed_decimal_string(c);
        s.append(digits.as_str());
        s.append(")");
        s
    }
}

impl Error {
    /// A copy of the error.
    pub fn duplicate(&self) -> (copy: Error)
        ensures
            copy == *self,
    {
        match self {
            Error::Io(text) => Error::Io(text.clone()),
            Error::Ssh(code, text) => Error::Ssh(*code, text.clone()),
            Error::InvalidArgs => Error::InvalidArgs,
            Error::CopyLength(copied, len) => Error::CopyLength(*copied, *len),
        }
    }

    /// Makes the error for a failure of the ssh library from its code and
    /// its text.
    pub fn from_ssh(code: ssh2::ErrorCode, text: &str) -> (r: Error)
        ensures
            r matches Error::Ssh(c, t) && c == code_of(code) && t@ == text@,
    {
        let code = match code {
            ssh2::ErrorCode::Session(c) => SshCode::Session(c),
            ssh2::ErrorCode::SFTP(c) => SshCode::Sftp(c),
        };
        Error::Ssh(code, String::from_str(text))
    }

    /// The text that the error is shown with: the text of the failure below
    /// it where there is one, and a text of its own otherwise.
    pub fn message(&self) -> (text: String)
        ensures
            text@ == message_text(*self),
    {
        match self {
            Error::Io(text) => text.clone(),
            Error::Ssh(code, text) => {
                let mut s = String::from_str("[");
                let c = code.text();
                s.append(c.as_str());
                s.append("] ");
                s.append(text.as_str());
                s
            },
            Error::InvalidArgs => String::from_str("invlaid args"),
            Error::CopyLength(copied, len) => {
                let mut s = String::from_str("copy length: ");
                let a = decimal_string(*copied);
                s.append(a.as_str());
                s.append(" != ");
                let b = decimal_string(*len);
                s.append(b.as_str());
                s
            },
        }
    }

    /// Whether the error comes from the session layer of the protocol: the
    /// connection is then no longer usable.
    pub fn is_session_failure(&self) -> (b: bool)
        ensures
            b == loses_session(*self),
    {
        match self {
            Error::Ssh(SshCode::Session(_), _) => true,
            _ => false,
        }
    }
}

} // verus!
