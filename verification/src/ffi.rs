//! Calls into foreign functions: their pinned arguments, their results and
//! errors, and the safety check made before a call.

use vstd::prelude::*;
use vstd::utf8::encode_utf8;
use crate::ir::{FloatLit, Region};
use crate::text::string_of;

verus! {

/// Errors of foreign function calls.
#[derive(Debug, Clone)]
pub enum FfiError {
    Timeout { name: String, timeout_ms: i64 },
    NotFound { name: String },
    UnpinnableArg { region: Region },
    CallFailed { code: i32, msg: String },
    SecurityViolation,
}


/// An argument of a foreign call, held in pinned memory.
#[derive(Debug, Clone)]
pub enum FfiArg {
    /// Pinned integer
    Int(i64),
    /// Pinned float
    Float(FloatLit),
    /// Pinned boolean
    Bool(bool),
    /// Pinned string (null-terminated)
    String(String),
    /// Pinned memory buffer
    Buffer(Vec<u8>),
}

impl FfiArg {
    /// The size of this argument in bytes: a string counts its UTF-8 bytes
    /// and the null terminator.
    pub fn size(&self) -> (r: usize)
        requires
            self matches FfiArg::String(s) ==> encode_utf8(s@).len() < usize::MAX,
        ensures
            r as int == match self {
                FfiArg::Int(_) => 8int,
                FfiArg::Float(_) => 8int,
                FfiArg::Bool(_) => 1int,
                FfiArg::String(s) => encode_utf8(s@).len() as int + 1,
                FfiArg::Buffer(buf) => buf@.len() as int,
            },
    {
        match self {
            FfiArg::Int(_) => 8,
            FfiArg::Float(_) => 8,
            FfiArg::Bool(_) => 1,
            FfiArg::String(s) => s.as_str().len() + 1,
            FfiArg::Buffer(buf) => buf.len(),
        }
    }

    /// Whether this argument can be pinned: every argument can, by
    /// construction.
    pub fn is_pinnable(&self) -> (r: bool)
        ensures
            r,
    {
        true
    }
}

/// The result of a foreign call.
#[derive(Debug, Clone)]
pub enum FfiResult {
    Int(i64),
    Float(FloatLit),
    Bool(bool),
    String(String),
    Buffer(Vec<u8>),
    Unit,
    Error(FfiError),
}

impl FfiResult {
    /// Whether the call failed.
    pub fn is_error(&self) -> (r: bool)
        ensures
            r == (self is Error),
    {
        match self {
            FfiResult::Error(_) => true,
            _ => false,
        }
    }

    /// The error of a failed call, or the result itself.
    pub fn into_result(self) -> (r: Result<FfiResult, FfiError>)
        ensures
            r is Err <==> self is Error,
            r matches Err(e) ==> self == FfiResult::Error(e),
            r matches Ok(v) ==> v == self,
    {
        match self {
            FfiResult::Error(e) => Err(e),
            other => Ok(other),
        }
    }
}

/// One hour, in milliseconds: every timeout of a foreign call must be shorter.
pub const MAX_FFI_TIMEOUT_MS: u64 = 3_600_000;

/// Checks that a foreign call is safe: every argument can be pinned, and the
/// timeout is positive and below one hour.
pub fn check_ffi_safety(args: &[FfiArg], timeout_ms: u64) -> (r: Result<(), FfiError>)
    ensures
        r is Ok <==> 0 < timeout_ms < MAX_FFI_TIMEOUT_MS,
        r matches Err(e) ==> e matches FfiError::Timeout { name, timeout_ms: t } && name@ == "validation"@
            && t == timeout_ms as i64,
{
    let mut i: usize = 0;
    while i < args.len()
        invariant
            i <= args@.len(),
        decreases args.len() - i,
    {
        if !args[i].is_pinnable() {
            return Err(FfiError::UnpinnableArg { region: Region::Stack });
        }
        i = i + 1;
    }
    if timeout_ms == 0 || timeout_ms >= MAX_FFI_TIMEOUT_MS {
        return Err(FfiError::Timeout { name: string_of("validation"), timeout_ms: timeout_ms as i64 });
    }
    Ok(())
}

} // verus!
