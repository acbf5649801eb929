//! Errors of the library.

use vstd::prelude::*;

use crate::text::{dec_nat, push_u64};

verus! {

/// Why the compositor reported that a frame capture failed.
#[derive(Debug, Copy, Clone, PartialEq, Eq, Structural)]
pub enum FailureReason {
    Unknown,
    BufferConstraints,
    Stopped,
}

/// A failure reason as it comes over the wire: a known value, or a code
/// that the protocol does not define.
#[derive(Debug, Copy, Clone, PartialEq, Eq, Structural)]
pub enum FailureCode {
    Value(FailureReason),
    Unknown(u32),
}

/// Errors raised by the library.
#[derive(Debug, Clone, PartialEq, Eq)]
pub enum Error {
    NoOutputs,
    BufferTooSmall,
    InvalidColor,
    FramecopyFailed,
    FramecopyFailedWithReason(FailureCode),
    NoSupportedBufferFormat,
    ProtocolNotFound(String),
    FreezeCallbackError(String),
    NoDMAStateError,
    CaptureFailed(String),
    Unsupported(String),
    NotSupportFormat,
}

impl FailureReason {
    /// The name of the reason.
    pub open spec fn text(self) -> Seq<char> {
        match self {
            FailureReason::Unknown => seq!['U', 'n', 'k', 'n', 'o', 'w', 'n'],
            FailureReason::BufferConstraints => seq![
                'B', 'u', 'f', 'f', 'e', 'r', 'C', 'o', 'n', 's', 't', 'r', 'a', 'i', 'n', 't', 's'
            ],
            FailureReason::Stopped => seq!['S', 't', 'o', 'p', 'p', 'e', 'd'],
        }
    }

    /// Appends the name of the reason.
    pub fn write_to(&self, s: &mut String)
        ensures
            final(s)@ == old(s)@ + self.text(),
    {
        proof {
            reveal_strlit("Unknown");
            reveal_strlit("BufferConstraints");
            reveal_strlit("Stopped");
        }
        match self {
            FailureReason::Unknown => s.append("Unknown"),
            FailureReason::BufferConstraints => s.append("BufferConstraints"),
            FailureReason::Stopped => s.append("Stopped"),
        }
    }
}

impl FailureCode {
    /// The debug text of a wire value: `Value(<name>)` or `Unknown(<code>)`.
    pub open spec fn text(self) -> Seq<char> {
        match self {
            FailureCode::Value(r) => seq!['V', 'a', 'l', 'u', 'e', '('] + r.text() + seq![')'],
            FailureCode::Unknown(c) => seq!['U', 'n', 'k', 'n', 'o', 'w', 'n', '('] + dec_nat(
                c as nat,
            ) + seq![')'],
        }
    }

    /// Appends the debug text of the wire value.
    pub fn write_to(&self, s: &mut String)
        ensures
            final(s)@ == old(s)@ + self.text(),
    {
        proof {
            reveal_strlit("Value(");
            reveal_strlit("Unknown(");
            reveal_strlit(")");
        }
        match self {
            FailureCode::Value(r) => {
                s.append("Value(");
                r.write_to(s);
                s.append(")");
            },
            FailureCode::Unknown(c) => {
                s.append("Unknown(");
                push_u64(s, *c as u64);
                s.append(")");
            },
        }
        assert(final(s)@ =~= old(s)@ + self.text());
    }
}

impl Error {
    /// The message of the error.
    pub open spec fn text(self) -> Seq<char> {
        match self {
            Error::NoOutputs => "no outputs supplied"@,
            Error::BufferTooSmall => "image buffer is not big enough"@,
            Error::InvalidColor => "image color type not supported"@,
            Error::FramecopyFailed => "framecopy failed"@,
            Error::FramecopyFailedWithReason(c) => "framecopy failed with reason "@ + c.text(),
            Error::NoSupportedBufferFormat => "No supported buffer format"@,
            Error::ProtocolNotFound(_) => "Cannot find required wayland protocol"@,
            Error::FreezeCallbackError(_) => "error occurred in freeze callback"@,
            Error::NoDMAStateError =>
                "dmabuf configuration not initialized. Did you not use Wayshot::from_connection_with_dmabuf()?"@,
            Error::CaptureFailed(m) => "Capture failed: "@ + m@,
            Error::Unsupported(m) => "Unsupported for some reason: "@ + m@,
            Error::NotSupportFormat => "Not supported format"@,
        }
    }

    /// Renders the message of the error.
    pub fn to_string(&self) -> (s: String)
        ensures
            s@ == self.text(),
    {
        let mut s = String::new();
        match self {
            Error::NoOutputs => s.append("no outputs supplied"),
            Error::BufferTooSmall => s.append("image buffer is not big enough"),
            Error::InvalidColor => s.append("image color type not supported"),
            Error::FramecopyFailed => s.append("framecopy failed"),
            Error::FramecopyFailedWithReason(c) => {
                s.append("framecopy failed with reason ");
                c.write_to(&mut s);
            },
            Error::NoSupportedBufferFormat => s.append("No supported buffer format"),
            Error::ProtocolNotFound(_) => s.append("Cannot find required wayland protocol"),
            Error::FreezeCallbackError(_) => s.append("error occurred in freeze callback"),
            Error::NoDMAStateError => s.append(
                "dmabuf configuration not initialized. Did you not use Wayshot::from_connection_with_dmabuf()?",
            ),
            Error::CaptureFailed(m) => {
                s.append("Capture failed: ");
                s.append(m.as_str());
            },
            Error::Unsupported(m) => {
                s.append("Unsupported for some reason: ");
                s.append(m.as_str());
            },
            Error::NotSupportFormat => s.append("Not supported format"),
        }
        s
    }
}

} // verus!
