//! Typed failures of the engine. Each startup or navigation failure is a
//! distinct variant; `describe` gives a fixed user-readable phrase, and the
//! caller may append the variant's details (paths, names, checksums).

use vstd::prelude::*;

verus! {

/// A failure of the engine. Variants that carry a `String` hold a message
/// produced at the failure site; the numeric variants carry the values that
/// explain the failure.
#[derive(Clone, Debug)]
pub enum Error {
    /// The executable (or debug companion) could not be opened or read.
    FileOpen(String),
    /// The executable could not be parsed as an object file.
    Parse,
    /// No debug-line information could be located, directly or via a
    /// debug-link companion.
    MissingDebugInfo,
    /// A debug-link companion file was found but its checksum does not match
    /// the one recorded in the executable.
    CrcMismatch { expected: u32, actual: u32 },
    /// The requested function name matched no symbol, or more than one.
    NoMatchingFunction { matches: usize },
    /// The function is a dynamically linked stub (address 0) and has no body
    /// to disassemble.
    DynamicSymbolNotEnterable,
    /// The bytes of a function's section could not be read.
    SectionDataUnavailable,
    /// Debug info resolves no source location for the function.
    NoDebugInfoForFunction,
    /// The child tracing process failed; the message holds its stderr tail.
    FatalError(String),
    /// A single dump could not be parsed; the dump is discarded and tracing
    /// continues.
    Transient,
}

impl Error {
    /// A fixed human-readable phrase for the failure kind.
    pub fn describe(&self) -> (r: &'static str)
        ensures
            r@.len() > 0,
    {
        let r: &'static str = match self {
            Error::FileOpen(_) => "failed to open file",
            Error::Parse => "failed to parse object file",
            Error::MissingDebugInfo => "missing debug symbols (no debug-line section found)",
            Error::CrcMismatch { .. } => "debug file does not correspond to binary (CRC mismatch)",
            Error::NoMatchingFunction { .. } => "function name matched no unique symbol",
            Error::DynamicSymbolNotEnterable => "cannot inspect dynamically linked symbol",
            Error::SectionDataUnavailable => "failed to read function bytes from section",
            Error::NoDebugInfoForFunction => "no debug info for function",
            Error::FatalError(_) => "tracer failed",
            Error::Transient => "transient trace parse error",
        };
        proof {
            reveal_strlit("failed to open file");
            reveal_strlit("failed to parse object file");
            reveal_strlit("missing debug symbols (no debug-line section found)");
            reveal_strlit("debug file does not correspond to binary (CRC mismatch)");
            reveal_strlit("function name matched no unique symbol");
            reveal_strlit("cannot inspect dynamically linked symbol");
            reveal_strlit("failed to read function bytes from section");
            reveal_strlit("no debug info for function");
            reveal_strlit("tracer failed");
            reveal_strlit("transient trace parse error");
        }
        r
    }
}

} // verus!
