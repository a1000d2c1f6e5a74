use hx_lsp::errors::Error;
use hx_lsp::strings::{i32_to_string, str_eq, u128_to_string, u64_to_string};

#[test]
fn error_messages() {
    assert_eq!(
        Error::UnsupportedLspRequest { request: "foo/bar".to_string() }.to_string(),
        "Unsupported LSP request: foo/bar"
    );
    assert_eq!(Error::PositionOutOfBounds(12, 0).to_string(), "position 12:0 is out of bounds");
    assert_eq!(
        Error::PositionOutOfBounds(u32::MAX, 7).to_string(),
        "position 4294967295:7 is out of bounds"
    );
    assert_eq!(Error::UnitOffsetOutOfBounds.to_string(), "unit offset is out of bounds");
    assert_eq!(Error::UnknownDocument.to_string(), "unknown document");
    assert_eq!(Error::CommandSpawnFailure.to_string(), "Failed to spawn child process");
    assert_eq!(Error::CommandTimeout(5).to_string(), "Command timed out after 5s");
    assert_eq!(
        Error::CommandNonZeroExit(Some(1), "boom".to_string()).to_string(),
        "Command failed (exit status: 1): boom"
    );
    assert_eq!(
        Error::CommandNonZeroExit(Some(-3), "".to_string()).to_string(),
        "Command failed (exit status: -3): "
    );
    assert_eq!(
        Error::CommandNonZeroExit(None, "killed".to_string()).to_string(),
        "Command failed (no exit status): killed"
    );
    assert_eq!(Error::Utf8DecodeRecovered.to_string(), "output was not valid UTF-8");
    assert_eq!(Error::ClipboardMissStdin.to_string(), "clipboard provider: stdin is missing");
    assert_eq!(Error::ClipboardMissStdout.to_string(), "clipboard provider: stdout is missing");
    assert_eq!(Error::ClipboardFail("xclip").to_string(), "clipboard provider xclip failed");
    assert_eq!(Error::NotFound("thing".to_string()).to_string(), "Not Found: thing");
}

#[test]
fn numbers_as_text() {
    assert_eq!(u64_to_string(0), "0");
    assert_eq!(u64_to_string(9), "9");
    assert_eq!(u64_to_string(10), "10");
    assert_eq!(u64_to_string(1234567890), "1234567890");
    assert_eq!(u64_to_string(u64::MAX), u64::MAX.to_string());
    assert_eq!(u128_to_string(u128::MAX), u128::MAX.to_string());
    assert_eq!(i32_to_string(0), "0");
    assert_eq!(i32_to_string(-1), "-1");
    assert_eq!(i32_to_string(i32::MIN), i32::MIN.to_string());
    assert_eq!(i32_to_string(i32::MAX), i32::MAX.to_string());
}

#[test]
fn strings_compare() {
    assert!(str_eq("", ""));
    assert!(str_eq("你好", "你好"));
    assert!(!str_eq("abc", "abd"));
    assert!(!str_eq("abc", "ab"));
    assert!(!str_eq("", "a"));
}
