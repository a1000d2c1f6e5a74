use hx_lsp::variables::{build_patterns, build_replaced_string, VariableInit, Variables};

fn init() -> VariableInit {
    VariableInit {
        file_path: "/home/me/project/src/main_file.test.rs".to_string(),
        work_path: "/home/me/project".to_string(),
        line_text: "let x = 1;".to_string(),
        current_word: "x".to_string(),
        selected_text: "x = 1".to_string(),
        line_pos: 9,
        cursor_pos: 4,
        clipboard: Some("clip".to_string()),
        time_offset: 8 * 3600,
    }
}

#[test]
fn test_var() {
    assert_eq!(build_patterns().len(), 68);
    assert_eq!(Variables::replace_all("", &VariableInit::default()), "");
}

#[test]
fn names_and_order() {
    let all = Variables::all();
    assert_eq!(all.len(), 34);
    assert_eq!(all[0], Variables::TmSelectedText);
    assert_eq!(all[33], Variables::LineComment);
    assert_eq!(Variables::TmSelectedText.to_string(), "TM_SELECTED_TEXT");
    assert_eq!(Variables::CurrentSecondsUnix.to_string(), "CURRENT_SECONDS_UNIX");
    assert_eq!(Variables::Uuid.to_string(), "UUID");
    let patterns = build_patterns();
    assert_eq!(patterns[0], "$TM_SELECTED_TEXT");
    assert_eq!(patterns[1], "${TM_SELECTED_TEXT}");
    assert_eq!(patterns[67], "${LINE_COMMENT}");
    assert_eq!(Variables::from_pattern_id(0), Some(Variables::TmSelectedText));
    assert_eq!(Variables::from_pattern_id(1), Some(Variables::TmSelectedText));
    assert_eq!(Variables::from_pattern_id(2), Some(Variables::TmCurrentLine));
    assert_eq!(Variables::from_pattern_id(67), Some(Variables::LineComment));
    assert_eq!(Variables::from_pattern_id(68), None);
}

#[test]
fn resolve_from_cursor_and_paths() {
    let init = init();
    assert_eq!(Variables::TmSelectedText.resolve(&init), "x = 1");
    assert_eq!(Variables::TmCurrentLine.resolve(&init), "let x = 1;");
    assert_eq!(Variables::TmCurrentWord.resolve(&init), "x");
    assert_eq!(Variables::TmLineIndex.resolve(&init), "9");
    assert_eq!(Variables::TmLineNumber.resolve(&init), "10");
    assert_eq!(Variables::CursorIndex.resolve(&init), "4");
    assert_eq!(Variables::CursorNumber.resolve(&init), "5");
    assert_eq!(Variables::TmFilename.resolve(&init), "main_file.test.rs");
    assert_eq!(Variables::TmFilenameBase.resolve(&init), "main_file");
    assert_eq!(Variables::TmDirectory.resolve(&init), "/home/me/project/src");
    assert_eq!(Variables::TmFilepath.resolve(&init), "/home/me/project/src/main_file.test.rs");
    assert_eq!(Variables::RelativeFilepath.resolve(&init), "/home/me/project/src/main_file.test.rs");
    assert_eq!(Variables::Clipboard.resolve(&init), "clip");
    assert_eq!(Variables::WorkspaceName.resolve(&init), "project");
    assert_eq!(Variables::WorkspaceFolder.resolve(&init), "/home/me/project");
    assert_eq!(Variables::BlockCommentStart.resolve(&init), "BLOCK_COMMENT_START");
    assert_eq!(Variables::BlockCommentEnd.resolve(&init), "BLOCK_COMMENT_END");
    assert_eq!(Variables::LineComment.resolve(&init), "LINE_COMMENT");
    let empty = VariableInit::default();
    assert_eq!(Variables::Clipboard.resolve(&empty), "");
    assert_eq!(Variables::TmFilename.resolve(&empty), "");
    assert_eq!(Variables::TmDirectory.resolve(&empty), "");
    let far = VariableInit { line_pos: usize::MAX, ..Default::default() };
    assert_eq!(Variables::TmLineNumber.resolve(&far), (usize::MAX as u128 + 1).to_string());
}

#[test]
fn resolve_time_random_and_uuid() {
    let init = init();
    let year = Variables::CurrentYear.resolve(&init);
    assert_eq!(year.len(), 4);
    assert!(year.chars().all(|c| c.is_ascii_digit()));
    assert_eq!(Variables::CurrentYearShort.resolve(&init).len(), 2);
    assert_eq!(Variables::CurrentMonth.resolve(&init).len(), 2);
    assert_eq!(Variables::CurrentDate.resolve(&init).len(), 2);
    assert_eq!(Variables::CurrentHour.resolve(&init).len(), 2);
    assert_eq!(Variables::CurrentMinute.resolve(&init).len(), 2);
    assert_eq!(Variables::CurrentSecond.resolve(&init).len(), 2);
    assert!(Variables::CurrentMonthName.resolve(&init).chars().all(|c| c.is_alphabetic()));
    assert_eq!(Variables::CurrentMonthNameShort.resolve(&init).len(), 3);
    assert_eq!(Variables::CurrentDayNameShort.resolve(&init).len(), 3);
    assert!(Variables::CurrentDayName.resolve(&init).ends_with("day"));
    assert!(Variables::CurrentSecondsUnix.resolve(&init).chars().all(|c| c.is_ascii_digit()));
    assert_eq!(Variables::CurrentTimezoneOffset.resolve(&init), "+08:00:00");
    let bad = VariableInit { time_offset: i32::MAX, ..Default::default() };
    assert_eq!(Variables::CurrentTimezoneOffset.resolve(&bad), "CURRENT_TIMEZONE_OFFSET");
    assert_eq!(Variables::CurrentYear.resolve(&bad), "CURRENT_YEAR");

    let random = Variables::Random.resolve(&init);
    assert_eq!(random.len(), 6);
    assert!(random.chars().all(|c| c.is_ascii_digit()));
    let hex = Variables::RandomHex.resolve(&init);
    assert_eq!(hex.len(), 6);
    assert!(hex.chars().all(|c| c.is_ascii_hexdigit() && !c.is_ascii_uppercase()));
    let uuid = Variables::Uuid.resolve(&init);
    assert_eq!(uuid.len(), 36);
    assert_eq!(uuid.matches('-').count(), 4);
}

#[test]
fn replace_all_in_text() {
    let init = init();
    assert_eq!(
        Variables::replace_all("a $TM_SELECTED_TEXT b ${TM_CURRENT_WORD}!", &init),
        "a x = 1 b x!"
    );
    assert_eq!(Variables::replace_all("no variables, 你好 $ {", &init), "no variables, 你好 $ {");
    assert_eq!(Variables::replace_all("$tm_line_number", &init), "10");
    assert_eq!(Variables::replace_all("你$CLIPBOARD好${CLIPBOARD}", &init), "你clip好clip");
    // The longest name wins where one name starts another.
    assert_eq!(Variables::replace_all("$TM_FILENAME_BASE", &init), "main_file");
    assert_eq!(Variables::replace_all("$TM_FILENAME", &init), "main_file.test.rs");
    assert_eq!(Variables::replace_all("$UNKNOWN_NAME $", &init), "$UNKNOWN_NAME $");
}

#[test]
fn build_replaced_string_splices() {
    assert_eq!(
        build_replaced_string(
            "hello world",
            vec![(0, 5, "bye".to_string()), (6, 11, "all".to_string())]
        ),
        "bye all"
    );
    assert_eq!(build_replaced_string("abc", vec![]), "abc");
    assert_eq!(build_replaced_string("abc", vec![(1, 1, "-".to_string())]), "a-bc");
    assert_eq!(build_replaced_string("abc", vec![(3, 3, "!".to_string())]), "abc!");
}

#[test]
fn build_replaced_string_passes_over_bad_stretches() {
    // reaches back before the end of the one before it
    assert_eq!(
        build_replaced_string(
            "hello world",
            vec![(0, 5, "A".to_string()), (3, 7, "B".to_string()), (6, 11, "C".to_string())]
        ),
        "A C"
    );
    // end before start, and past the text
    assert_eq!(
        build_replaced_string(
            "abc",
            vec![(2, 1, "X".to_string()), (1, 9, "Y".to_string()), (1, 2, "Z".to_string())]
        ),
        "aZc"
    );
    // cuts a scalar value in two
    assert_eq!(
        build_replaced_string("你好", vec![(1, 3, "X".to_string()), (3, 6, "Y".to_string())]),
        "你Y"
    );
}
