//! What can go wrong in the memory node.
use vstd::prelude::*;
use crate::numeral;
use crate::text::{self, Text};

verus! {

/// Memory-node errors.
#[derive(Debug, Clone, PartialEq, Eq)]
pub enum MemoryError {
    /// File-system failure preparing the database path.
    Io(String),
    /// Failure of the database or of its search index.
    Db(String),
    /// The store's lock is poisoned.
    Lock,
    /// A malformed argument.
    InvalidArg(String),
    /// The text to find is in no entry.
    NotFound(String),
    /// The text to find is in more than one entry.
    Ambiguous(String),
    /// The write would exceed the target's cap.
    CapExceeded { target: String, proposed: usize, cap: usize },
}

/// The mathematical model of [`MemoryError`].
pub enum MemoryFault {
    Io(Text),
    Db(Text),
    Lock,
    InvalidArg(Text),
    NotFound(Text),
    Ambiguous(Text),
    CapExceeded { target: Text, proposed: int, cap: int },
}

impl View for MemoryError {
    type V = MemoryFault;

    open spec fn view(&self) -> MemoryFault {
        match *self {
            MemoryError::Io(m) => MemoryFault::Io(m@),
            MemoryError::Db(m) => MemoryFault::Db(m@),
            MemoryError::Lock => MemoryFault::Lock,
            MemoryError::InvalidArg(m) => MemoryFault::InvalidArg(m@),
            MemoryError::NotFound(m) => MemoryFault::NotFound(m@),
            MemoryError::Ambiguous(m) => MemoryFault::Ambiguous(m@),
            MemoryError::CapExceeded { target, proposed, cap } => MemoryFault::CapExceeded {
                target: target@,
                proposed: proposed as int,
                cap: cap as int,
            },
        }
    }
}

impl MemoryFault {
    /// The fault in words.
    pub open spec fn message(self) -> Text {
        match self {
            MemoryFault::Io(m) => "io: "@ + m,
            MemoryFault::Db(m) => "db: "@ + m,
            MemoryFault::Lock => "lock poisoned"@,
            MemoryFault::InvalidArg(m) => "invalid arg: "@ + m,
            MemoryFault::NotFound(m) => "not found: "@ + m,
            MemoryFault::Ambiguous(m) => "ambiguous: "@ + m,
            MemoryFault::CapExceeded { target, proposed, cap } => "'"@ + target + "' cap exceeded: "@ + numeral::dec(
                proposed,
            ) + " > "@ + numeral::dec(cap),
        }
    }
}

impl MemoryError {
    /// The error in words.
    pub fn message(&self) -> (r: String)
        ensures
            r@ == self@.message(),
    {
        match self {
            MemoryError::Io(m) => text::owned("io: ").concat(m.as_str()),
            MemoryError::Db(m) => text::owned("db: ").concat(m.as_str()),
            MemoryError::Lock => text::owned("lock poisoned"),
            MemoryError::InvalidArg(m) => text::owned("invalid arg: ").concat(m.as_str()),
            MemoryError::NotFound(m) => text::owned("not found: ").concat(m.as_str()),
            MemoryError::Ambiguous(m) => text::owned("ambiguous: ").concat(m.as_str()),
            MemoryError::CapExceeded { target, proposed, cap } => {
                let mut s = text::owned("'");
                s.append(target.as_str());
                s.append("' cap exceeded: ");
                numeral::push_usize(&mut s, *proposed);
                s.append(" > ");
                numeral::push_usize(&mut s, *cap);
                s
            },
        }
    }
}

} // verus!
