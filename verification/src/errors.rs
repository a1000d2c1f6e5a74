use vstd::prelude::*;
use vstd::string::StringExecFns;

use crate::strings::{decimal, i32_to_string, signed_decimal, u64_to_string};

verus! {

/// Everything that can go wrong inside the engine.
#[derive(Debug, Clone, PartialEq, Eq)]
pub enum Error {
    UnsupportedLspRequest { request: String },
    /// The line of a position (line, unit offset) does not exist in the document.
    PositionOutOfBounds(u32, u32),
    /// The unit offset of a position lies past the content of its line, or inside a
    /// UTF-16 surrogate pair.
    UnitOffsetOutOfBounds,
    UnknownDocument,
    CommandSpawnFailure,
    /// The command did not finish in time; carries the elapsed seconds.
    CommandTimeout(u64),
    /// The command exited unsuccessfully; carries the exit code, if the platform
    /// reported one, and the trimmed text of its standard error.
    CommandNonZeroExit(Option<i32>, String),
    Utf8DecodeRecovered,
    ClipboardMissStdin,
    ClipboardMissStdout,
    ClipboardFail(&'static str),
    NotFound(String),
}

impl Error {
    /// What the error says to a reader.
    pub open spec fn message(self) -> Seq<char> {
        match self {
            Error::UnsupportedLspRequest { request } => "Unsupported LSP request: "@ + request@,
            Error::PositionOutOfBounds(line, unit) => "position "@ + decimal(line as nat) + ":"@
                + decimal(unit as nat) + " is out of bounds"@,
            Error::UnitOffsetOutOfBounds => "unit offset is out of bounds"@,
            Error::UnknownDocument => "unknown document"@,
            Error::CommandSpawnFailure => "Failed to spawn child process"@,
            Error::CommandTimeout(elapsed) => "Command timed out after "@ + decimal(
                elapsed as nat,
            ) + "s"@,
            Error::CommandNonZeroExit(status, stderr) => "Command failed ("@ + (match status {
                Some(code) => "exit status: "@ + signed_decimal(code as int),
                None => "no exit status"@,
            }) + "): "@ + stderr@,
            Error::Utf8DecodeRecovered => "output was not valid UTF-8"@,
            Error::ClipboardMissStdin => "clipboard provider: stdin is missing"@,
            Error::ClipboardMissStdout => "clipboard provider: stdout is missing"@,
            Error::ClipboardFail(provider) => "clipboard provider "@ + provider@ + " failed"@,
            Error::NotFound(what) => "Not Found: "@ + what@,
        }
    }

    pub fn to_string(&self) -> (text: String)
        ensures
            text@ == self.message(),
    {
        match self {
            Error::UnsupportedLspRequest { request } => {
                let mut text = "Unsupported LSP request: ".to_owned();
                text.append(request.as_str());
                text
            },
            Error::PositionOutOfBounds(line, unit) => {
                let mut text = "position ".to_owned();
                text.append(u64_to_string(*line as u64).as_str());
                text.append(":");
                text.append(u64_to_string(*unit as u64).as_str());
                text.append(" is out of bounds");
                text
            },
            Error::UnitOffsetOutOfBounds => "unit offset is out of bounds".to_owned(),
            Error::UnknownDocument => "unknown document".to_owned(),
            Error::CommandSpawnFailure => "Failed to spawn child process".to_owned(),
            Error::CommandTimeout(elapsed) => {
                let mut text = "Command timed out after ".to_owned();
                text.append(u64_to_string(*elapsed).as_str());
                text.append("s");
                text
            },
            Error::CommandNonZeroExit(status, stderr) => {
                let mut text = "Command failed (".to_owned();
                match status {
                    Some(code) => {
                        text.append("exit status: ");
                        text.append(i32_to_string(*code).as_str());
                        assert(text@ =~= "Command failed ("@ + ("exit status: "@
                            + signed_decimal(*code as int)));
                    },
                    None => {
                        text.append("no exit status");
                    },
                }
                text.append("): ");
                text.append(stderr.as_str());
                text
            },
            Error::Utf8DecodeRecovered => "output was not valid UTF-8".to_owned(),
            Error::ClipboardMissStdin => "clipboard provider: stdin is missing".to_owned(),
            Error::ClipboardMissStdout => "clipboard provider: stdout is missing".to_owned(),
            Error::ClipboardFail(provider) => {
                let mut text = "clipboard provider ".to_owned();
                text.append(provider);
                text.append(" failed");
                text
            },
            Error::NotFound(what) => {
                let mut text = "Not Found: ".to_owned();
                text.append(what.as_str());
                text
            },
        }
    }
}

} // verus!
