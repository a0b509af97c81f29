use vstd::prelude::*;

use crate::text::str_eq;

verus! {

/// The gRPC status codes, as numbered by the gRPC specification.
#[derive(Clone, Copy, Debug, PartialEq, Eq, Structural)]
pub enum Code {
    /// The operation completed successfully (status `OK`, 0).
    Okay,
    /// The operation was cancelled (1).
    Cancelled,
    /// Unknown error (2).
    Unknown,
    /// Client specified an invalid argument (3).
    InvalidArgument,
    /// Deadline expired before operation could complete (4).
    DeadlineExceeded,
    /// Some requested entity was not found (5).
    NotFound,
    /// Some entity that we attempted to create already exists (6).
    AlreadyExists,
    /// The caller does not have permission to execute the specified operation (7).
    PermissionDenied,
    /// Some resource has been exhausted (8).
    ResourceExhausted,
    /// The system is not in a state required for the operation's execution (9).
    FailedPrecondition,
    /// The operation was aborted (10).
    Aborted,
    /// Operation was attempted past the valid range (11).
    OutOfRange,
    /// Operation is not implemented or not supported (12).
    Unimplemented,
    /// Internal error (13).
    Internal,
    /// The service is currently unavailable (14).
    Unavailable,
    /// Unrecoverable data loss or corruption (15).
    DataLoss,
    /// The request does not have valid authentication credentials (16).
    Unauthenticated,
}

/// The number of a code in the gRPC specification.
pub open spec fn code_number(c: Code) -> int {
    match c {
        Code::Okay => 0,
        Code::Cancelled => 1,
        Code::Unknown => 2,
        Code::InvalidArgument => 3,
        Code::DeadlineExceeded => 4,
        Code::NotFound => 5,
        Code::AlreadyExists => 6,
        Code::PermissionDenied => 7,
        Code::ResourceExhausted => 8,
        Code::FailedPrecondition => 9,
        Code::Aborted => 10,
        Code::OutOfRange => 11,
        Code::Unimplemented => 12,
        Code::Internal => 13,
        Code::Unavailable => 14,
        Code::DataLoss => 15,
        Code::Unauthenticated => 16,
    }
}

/// The code with the given number; `Unknown` for numbers outside the specification.
pub open spec fn code_from_number(n: int) -> Code {
    if n == 0 {
        Code::Okay
    } else if n == 1 {
        Code::Cancelled
    } else if n == 3 {
        Code::InvalidArgument
    } else if n == 4 {
        Code::DeadlineExceeded
    } else if n == 5 {
        Code::NotFound
    } else if n == 6 {
        Code::AlreadyExists
    } else if n == 7 {
        Code::PermissionDenied
    } else if n == 8 {
        Code::ResourceExhausted
    } else if n == 9 {
        Code::FailedPrecondition
    } else if n == 10 {
        Code::Aborted
    } else if n == 11 {
        Code::OutOfRange
    } else if n == 12 {
        Code::Unimplemented
    } else if n == 13 {
        Code::Internal
    } else if n == 14 {
        Code::Unavailable
    } else if n == 15 {
        Code::DataLoss
    } else if n == 16 {
        Code::Unauthenticated
    } else {
        Code::Unknown
    }
}

/// Numbering codes and reading them back gives the code itself; every code's number lies in
/// `0..=16`, and distinct codes have distinct numbers.
pub proof fn lemma_code_number_roundtrip(c: Code)
    ensures
        code_from_number(code_number(c)) == c,
        0 <= code_number(c) <= 16,
        forall|d: Code| code_number(d) == code_number(c) ==> d == c,
{
}

impl Code {
    /// The number of this code in the gRPC specification.
    pub fn as_i32(&self) -> (r: i32)
        ensures
            r == code_number(*self),
    {
        match self {
            Code::Okay => 0,
            Code::Cancelled => 1,
            Code::Unknown => 2,
            Code::InvalidArgument => 3,
            Code::DeadlineExceeded => 4,
            Code::NotFound => 5,
            Code::AlreadyExists => 6,
            Code::PermissionDenied => 7,
            Code::ResourceExhausted => 8,
            Code::FailedPrecondition => 9,
            Code::Aborted => 10,
            Code::OutOfRange => 11,
            Code::Unimplemented => 12,
            Code::Internal => 13,
            Code::Unavailable => 14,
            Code::DataLoss => 15,
            Code::Unauthenticated => 16,
        }
    }

    /// Get the code that the integer represents; `Unknown` if it represents none.
    pub fn from_i32(i: i32) -> (c: Code)
        ensures
            c == code_from_number(i as int),
            0 <= i <= 16 ==> code_number(c) == i,
            !(0 <= i <= 16) ==> c == Code::Unknown,
    {
        match i {
            0 => Code::Okay,
            1 => Code::Cancelled,
            3 => Code::InvalidArgument,
            4 => Code::DeadlineExceeded,
            5 => Code::NotFound,
            6 => Code::AlreadyExists,
            7 => Code::PermissionDenied,
            8 => Code::ResourceExhausted,
            9 => Code::FailedPrecondition,
            10 => Code::Aborted,
            11 => Code::OutOfRange,
            12 => Code::Unimplemented,
            13 => Code::Internal,
            14 => Code::Unavailable,
            15 => Code::DataLoss,
            16 => Code::Unauthenticated,
            _ => Code::Unknown,
        }
    }
}

/// The value of `key` in a list of metadata entries: that of the last entry with this key, as
/// a later entry replaces an earlier one.
pub open spec fn metadata_lookup(entries: Seq<(String, String)>, key: Seq<char>) -> Option<
    Seq<char>,
>
    decreases entries.len(),
{
    if entries.len() == 0 {
        None
    } else if entries.last().0@ == key {
        Some(entries.last().1@)
    } else {
        metadata_lookup(entries.drop_last(), key)
    }
}

/// The error status of a gRPC call: a code, a message, and metadata entries.
#[derive(Clone, Debug)]
pub struct Status {
    code: Code,
    message: String,
    metadata: Vec<(String, String)>,
}

impl Status {
    /// Create a status with the given code and message, and no metadata.
    pub fn new(code: Code, message: String) -> (s: Status)
        ensures
            s.code_spec() == code,
            s.message_spec() == message@,
            s.metadata_spec().len() == 0,
    {
        Status { code, message, metadata: Vec::new() }
    }

    /// A copy of this status: the same code, message and metadata entries.
    pub fn duplicate(&self) -> (s: Status)
        ensures
            s.code_spec() == self.code_spec(),
            s.message_spec() == self.message_spec(),
            s.metadata_spec() == self.metadata_spec(),
    {
        let mut metadata: Vec<(String, String)> = Vec::new();
        let mut i: usize = 0;
        while i < self.metadata.len()
            invariant
                i <= self.metadata@.len(),
                metadata@ == self.metadata@.subrange(0, i as int),
            decreases self.metadata@.len() - i,
        {
            let entry = &self.metadata[i];
            let key = entry.0.clone();
            let value = entry.1.clone();
            metadata.push((key, value));
            proof {
                assert(metadata@ =~= self.metadata@.subrange(0, i + 1));
            }
            i = i + 1;
        }
        proof {
            assert(metadata@ =~= self.metadata@);
        }
        Status { code: self.code, message: self.message.clone(), metadata }
    }

    /// The metadata entries of this status, in the order they were set.
    pub closed spec fn metadata_spec(&self) -> Seq<(String, String)> {
        self.metadata@
    }

    /// The value of a metadata key in this status.
    pub open spec fn metadata_value(&self, key: Seq<char>) -> Option<Seq<char>> {
        metadata_lookup(self.metadata_spec(), key)
    }

    /// The metadata entries of this status, in the order they were set; a later entry with the
    /// same key replaces an earlier one.
    pub fn metadata_entries(&self) -> (m: &[(String, String)])
        ensures
            m@ == self.metadata_spec(),
    {
        self.metadata.as_slice()
    }

    /// Set a metadata key, replacing any value it had. The code and message are unchanged.
    pub fn insert_metadata(&mut self, key: String, value: String)
        ensures
            final(self).code_spec() == old(self).code_spec(),
            final(self).message_spec() == old(self).message_spec(),
            final(self).metadata_value(key@) == Some(value@),
            forall|k: Seq<char>|
                k != key@ ==> #[trigger] final(self).metadata_value(k) == old(self).metadata_value(k),
    {
        let ghost before = self.metadata@;
        self.metadata.push((key, value));
        proof {
            assert(self.metadata@.drop_last() =~= before);
        }
    }

    /// The value of a metadata key in this status.
    pub fn metadata_get(&self, key: &str) -> (r: Option<&str>)
        ensures
            match r {
                Some(v) => self.metadata_value(key@) == Some(v@),
                None => self.metadata_value(key@) is None,
            },
    {
        let mut i: usize = self.metadata.len();
        assert(self.metadata@.subrange(0, i as int) =~= self.metadata@);
        while i > 0
            invariant
                i <= self.metadata@.len(),
                self.metadata_value(key@) == metadata_lookup(self.metadata@.subrange(0, i as int), key@),
            decreases i,
        {
            let ghost prefix = self.metadata@.subrange(0, i as int);
            assert(prefix.drop_last() =~= self.metadata@.subrange(0, i - 1));
            let entry = &self.metadata[i - 1];
            if str_eq(entry.0.as_str(), key) {
                return Some(entry.1.as_str());
            }
            i = i - 1;
        }
        None
    }

    /// The code of this status.
    pub closed spec fn code_spec(&self) -> Code {
        self.code
    }

    /// The message of this status.
    pub closed spec fn message_spec(&self) -> Seq<char> {
        self.message@
    }

    /// The code of this status.
    pub fn code(&self) -> (c: Code)
        ensures
            c == self.code_spec(),
    {
        self.code
    }

    /// The message of this status.
    pub fn message(&self) -> (m: &str)
        ensures
            m@ == self.message_spec(),
    {
        self.message.as_str()
    }

    /// A status with code `InvalidArgument`.
    pub fn invalid_argument(message: String) -> (s: Status)
        ensures
            s.code_spec() == Code::InvalidArgument,
            s.message_spec() == message@,
    {
        Status::new(Code::InvalidArgument, message)
    }

    /// A status with code `Internal`.
    pub fn internal(message: String) -> (s: Status)
        ensures
            s.code_spec() == Code::Internal,
            s.message_spec() == message@,
    {
        Status::new(Code::Internal, message)
    }

    /// A status with code `Aborted`.
    pub fn aborted(message: String) -> (s: Status)
        ensures
            s.code_spec() == Code::Aborted,
            s.message_spec() == message@,
    {
        Status::new(Code::Aborted, message)
    }
}

} // verus!
