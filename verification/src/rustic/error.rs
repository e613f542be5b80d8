//! The errors an execution of the target can end with.
use vstd::prelude::*;
use vstd::std_specs::cmp::PartialEqSpecImpl;

verus! {

/// The kind of failure and the message the execution reported.
#[derive(Debug)]
pub enum Error {
    Abort { message: String },
    OutOfBound { message: String },
    OutOfGas { message: String },
    ArithmeticError { message: String },
    MemoryLimitExceeded { message: String },
    Unknown { message: String },
}

/// The variant of an error, as a number, and its message.
pub open spec fn error_parts(e: Error) -> (int, Seq<char>) {
    match e {
        Error::Abort { message } => (0, message@),
        Error::OutOfBound { message } => (1, message@),
        Error::OutOfGas { message } => (2, message@),
        Error::ArithmeticError { message } => (3, message@),
        Error::MemoryLimitExceeded { message } => (4, message@),
        Error::Unknown { message } => (5, message@),
    }
}

/// The name of each variant.
pub open spec fn error_name(kind: int) -> Seq<char> {
    if kind == 0 {
        "Abort"@
    } else if kind == 1 {
        "OutOfBound"@
    } else if kind == 2 {
        "OutOfGas"@
    } else if kind == 3 {
        "ArithmeticError"@
    } else if kind == 4 {
        "MemoryLimitExceeded"@
    } else {
        "Unknown"@
    }
}

impl PartialEq for Error {
    fn eq(&self, other: &Self) -> (r: bool) {
        let (ka, ma) = self.parts();
        let (kb, mb) = other.parts();
        let same_message: bool = String::eq(ma, mb);
        ka == kb && same_message
    }
}

impl PartialEqSpecImpl for Error {
    open spec fn obeys_eq_spec() -> bool {
        true
    }

    open spec fn eq_spec(&self, other: &Error) -> bool {
        error_parts(*self) == error_parts(*other)
    }
}

impl Error {
    /// The variant of the error, as a number, and its message.
    pub fn parts(&self) -> (r: (u8, &String))
        ensures
            (r.0 as int, r.1@) == error_parts(*self),
    {
        match self {
            Error::Abort { message } => (0, message),
            Error::OutOfBound { message } => (1, message),
            Error::OutOfGas { message } => (2, message),
            Error::ArithmeticError { message } => (3, message),
            Error::MemoryLimitExceeded { message } => (4, message),
            Error::Unknown { message } => (5, message),
        }
    }

    /// A copy of the error.
    pub fn duplicate(&self) -> (r: Error)
        ensures
            error_parts(r) == error_parts(*self),
    {
        match self {
            Error::Abort { message } => Error::Abort { message: message.clone() },
            Error::OutOfBound { message } => Error::OutOfBound { message: message.clone() },
            Error::OutOfGas { message } => Error::OutOfGas { message: message.clone() },
            Error::ArithmeticError { message } => Error::ArithmeticError { message: message.clone() },
            Error::MemoryLimitExceeded { message } => Error::MemoryLimitExceeded { message: message.clone() },
            Error::Unknown { message } => Error::Unknown { message: message.clone() },
        }
    }

    /// The text the error is displayed as: its variant's name, a colon and
    /// a space, then its message.
    pub fn to_display_string(&self) -> (r: String)
        ensures
            r@ == error_name(error_parts(*self).0) + ": "@ + error_parts(*self).1,
    {
        let (name, message) = match self {
            Error::Abort { message } => ("Abort", message),
            Error::OutOfBound { message } => ("OutOfBound", message),
            Error::OutOfGas { message } => ("OutOfGas", message),
            Error::ArithmeticError { message } => ("ArithmeticError", message),
            Error::MemoryLimitExceeded { message } => ("MemoryLimitExceeded", message),
            Error::Unknown { message } => ("Unknown", message),
        };
        let mut r = String::from_str(name);
        r.append(": ");
        r.append(message.as_str());
        r
    }
}

} // verus!
