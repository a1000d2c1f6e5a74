use hx_lsp::encoding::{
    apply_content_change, apply_content_changes, char_is_punctuation, char_is_word,
    get_current_word, get_range_content, is_field, lsp_pos_to_pos, lsp_pos_to_pos_clamped,
    ChangeEvent, OffsetEncoding, Position, Range,
};
use hx_lsp::errors::Error;
use ropey::Rope;

#[test]
fn test_get_range_content() {
    let cases = [
        ("你好世界", (0, 0, 0, 2), "你好"),
        ("你好世界", (0, 2, 0, 4), "世界"),
    ];

    for (input, range, expected) in cases {
        let result = get_range_content(
            &Rope::from_str(input),
            &Range::new(
                Position::new(range.0, range.1),
                Position::new(range.2, range.3),
            ),
        )
        .unwrap_or_default();
        assert_eq!(result, expected, "{input}:\n {result} != {expected}")
    }
}

#[test]
fn test_get_last() {
    let line = Rope::from_str("abcd ef1h");
    let word = get_current_word(&line, 7);
    assert_eq!(Some("ef1h".to_string()), word);
}

#[test]
fn test_pun() {
    assert!(char_is_punctuation(':'));
}

#[test]
fn decode_second_line_utf16() {
    let doc = Rope::from_str("hello\nworld");
    assert_eq!(lsp_pos_to_pos(&doc, Position::new(1, 2), OffsetEncoding::Utf16), Ok(8));
}

#[test]
fn decode_line_out_of_bounds() {
    let doc = Rope::from_str("hello\nworld");
    assert_eq!(
        lsp_pos_to_pos(&doc, Position::new(2, 0), OffsetEncoding::Utf16),
        Err(Error::PositionOutOfBounds(2, 0))
    );
    assert_eq!(lsp_pos_to_pos_clamped(&doc, Position::new(2, 0), OffsetEncoding::Utf16), Ok(11));
    assert_eq!(lsp_pos_to_pos_clamped(&doc, Position::new(1, 2), OffsetEncoding::Utf16), Ok(8));
}

#[test]
fn decode_offset_past_line_content() {
    let doc = Rope::from_str("hello\nworld");
    for enc in [OffsetEncoding::Utf8, OffsetEncoding::Utf16, OffsetEncoding::Utf32] {
        assert_eq!(lsp_pos_to_pos(&doc, Position::new(0, 5), enc), Ok(5));
        assert_eq!(
            lsp_pos_to_pos(&doc, Position::new(0, 6), enc),
            Err(Error::UnitOffsetOutOfBounds)
        );
        assert_eq!(lsp_pos_to_pos(&doc, Position::new(1, 5), enc), Ok(11));
        assert_eq!(
            lsp_pos_to_pos(&doc, Position::new(1, 6), enc),
            Err(Error::UnitOffsetOutOfBounds)
        );
    }
}

#[test]
fn decode_crlf_terminator_is_not_content() {
    let doc = Rope::from_str("ab\r\ncd\rde\u{2028}f");
    assert_eq!(lsp_pos_to_pos(&doc, Position::new(0, 2), OffsetEncoding::Utf16), Ok(2));
    assert_eq!(
        lsp_pos_to_pos(&doc, Position::new(0, 3), OffsetEncoding::Utf16),
        Err(Error::UnitOffsetOutOfBounds)
    );
    assert_eq!(lsp_pos_to_pos(&doc, Position::new(1, 0), OffsetEncoding::Utf16), Ok(4));
    assert_eq!(lsp_pos_to_pos(&doc, Position::new(1, 2), OffsetEncoding::Utf16), Ok(6));
    assert_eq!(
        lsp_pos_to_pos(&doc, Position::new(1, 3), OffsetEncoding::Utf16),
        Err(Error::UnitOffsetOutOfBounds)
    );
    assert_eq!(lsp_pos_to_pos(&doc, Position::new(2, 2), OffsetEncoding::Utf16), Ok(9));
    assert_eq!(lsp_pos_to_pos(&doc, Position::new(3, 1), OffsetEncoding::Utf16), Ok(11));
    assert_eq!(
        lsp_pos_to_pos(&doc, Position::new(4, 0), OffsetEncoding::Utf16),
        Err(Error::PositionOutOfBounds(4, 0))
    );
}

#[test]
fn decode_last_empty_line() {
    let doc = Rope::from_str("a\n");
    assert_eq!(lsp_pos_to_pos(&doc, Position::new(1, 0), OffsetEncoding::Utf8), Ok(2));
    assert_eq!(
        lsp_pos_to_pos(&doc, Position::new(1, 1), OffsetEncoding::Utf8),
        Err(Error::UnitOffsetOutOfBounds)
    );
    let empty = Rope::from_str("");
    assert_eq!(lsp_pos_to_pos(&empty, Position::new(0, 0), OffsetEncoding::Utf16), Ok(0));
}

#[test]
fn decode_three_encodings() {
    // 'a' (1/1/1), 'é' (2 bytes, 1 unit), '你' (3 bytes, 1 unit), '😀' (4 bytes, 2 units), 'z'
    let doc = Rope::from_str("x\naé你😀z\n");
    let line = 1;
    assert_eq!(lsp_pos_to_pos(&doc, Position::new(line, 3), OffsetEncoding::Utf32), Ok(5));
    assert_eq!(lsp_pos_to_pos(&doc, Position::new(line, 5), OffsetEncoding::Utf32), Ok(7));
    assert_eq!(lsp_pos_to_pos(&doc, Position::new(line, 3), OffsetEncoding::Utf16), Ok(5));
    assert_eq!(lsp_pos_to_pos(&doc, Position::new(line, 5), OffsetEncoding::Utf16), Ok(6));
    assert_eq!(lsp_pos_to_pos(&doc, Position::new(line, 6), OffsetEncoding::Utf16), Ok(7));
    assert_eq!(lsp_pos_to_pos(&doc, Position::new(line, 1), OffsetEncoding::Utf8), Ok(3));
    assert_eq!(lsp_pos_to_pos(&doc, Position::new(line, 3), OffsetEncoding::Utf8), Ok(4));
    assert_eq!(lsp_pos_to_pos(&doc, Position::new(line, 6), OffsetEncoding::Utf8), Ok(5));
    assert_eq!(lsp_pos_to_pos(&doc, Position::new(line, 10), OffsetEncoding::Utf8), Ok(6));
    assert_eq!(lsp_pos_to_pos(&doc, Position::new(line, 11), OffsetEncoding::Utf8), Ok(7));
    assert_eq!(
        lsp_pos_to_pos(&doc, Position::new(line, 12), OffsetEncoding::Utf8),
        Err(Error::UnitOffsetOutOfBounds)
    );
}

#[test]
fn decode_inside_surrogate_pair_is_refused() {
    let doc = Rope::from_str("a😀b");
    assert_eq!(lsp_pos_to_pos(&doc, Position::new(0, 1), OffsetEncoding::Utf16), Ok(1));
    assert_eq!(
        lsp_pos_to_pos(&doc, Position::new(0, 2), OffsetEncoding::Utf16),
        Err(Error::UnitOffsetOutOfBounds)
    );
    assert_eq!(lsp_pos_to_pos(&doc, Position::new(0, 3), OffsetEncoding::Utf16), Ok(2));
}

#[test]
fn decode_inside_utf8_scalar_points_at_it() {
    let doc = Rope::from_str("a你b");
    assert_eq!(lsp_pos_to_pos(&doc, Position::new(0, 2), OffsetEncoding::Utf8), Ok(1));
    assert_eq!(lsp_pos_to_pos(&doc, Position::new(0, 3), OffsetEncoding::Utf8), Ok(1));
    assert_eq!(lsp_pos_to_pos(&doc, Position::new(0, 4), OffsetEncoding::Utf8), Ok(2));
}

#[test]
fn decode_reslices_line_prefix() {
    let text = "fn main() {\n    let s = \"你好😀\";\r\n}\n";
    let doc = Rope::from_str(text);
    let lines: Vec<&str> = vec!["fn main() {", "    let s = \"你好😀\";", "}", ""];
    for (line_idx, line) in lines.iter().enumerate() {
        let line_start: usize = lines[..line_idx]
            .iter()
            .map(|l| l.chars().count() + if l.ends_with(';') { 2 } else { 1 })
            .sum();
        for (k, _) in line.char_indices().chain(std::iter::once((line.len(), ' '))) {
            let prefix = &line[..k];
            let scalars = prefix.chars().count();
            let cases = [
                (OffsetEncoding::Utf8, prefix.len()),
                (OffsetEncoding::Utf16, prefix.encode_utf16().count()),
                (OffsetEncoding::Utf32, scalars),
            ];
            for (enc, units) in cases {
                let pos = Position::new(line_idx as u32, units as u32);
                let offset = lsp_pos_to_pos(&doc, pos, enc).unwrap();
                assert_eq!(offset, line_start + scalars);
                assert_eq!(doc.slice(line_start..offset).to_string(), prefix);
            }
        }
    }
}

#[test]
fn change_inserts_at_end_of_first_line() {
    let mut doc = Rope::from_str("hello\nworld");
    let change = ChangeEvent::Incremental {
        range: Range::new(Position::new(0, 5), Position::new(0, 5)),
        text: "!!".to_string(),
    };
    assert_eq!(apply_content_change(&mut doc, &change, OffsetEncoding::Utf16), Ok(()));
    assert_eq!(doc.to_string(), "hello!!\nworld");
}

#[test]
fn change_replaces_across_lines() {
    let mut doc = Rope::from_str("hello\nworld\nagain");
    let change = ChangeEvent::Incremental {
        range: Range::new(Position::new(0, 3), Position::new(2, 2)),
        text: "p ".to_string(),
    };
    assert_eq!(apply_content_change(&mut doc, &change, OffsetEncoding::Utf16), Ok(()));
    assert_eq!(doc.to_string(), "help ain");
}

#[test]
fn change_full_replace() {
    let mut doc = Rope::from_str("hello\nworld");
    let change = ChangeEvent::FullReplace { text: "new".to_string() };
    assert_eq!(apply_content_change(&mut doc, &change, OffsetEncoding::Utf8), Ok(()));
    assert_eq!(doc.to_string(), "new");
}

#[test]
fn change_with_end_before_start_is_refused() {
    let mut doc = Rope::from_str("hello\nworld");
    let change = ChangeEvent::Incremental {
        range: Range::new(Position::new(1, 1), Position::new(0, 2)),
        text: "x".to_string(),
    };
    assert_eq!(
        apply_content_change(&mut doc, &change, OffsetEncoding::Utf16),
        Err(Error::PositionOutOfBounds(0, 2))
    );
    assert_eq!(doc.to_string(), "hello\nworld");
}

#[test]
fn batch_matches_plain_string_edits() {
    let mut doc = Rope::from_str("one\ntwo\nthree\n");
    let changes = vec![
        ChangeEvent::Incremental {
            range: Range::new(Position::new(0, 0), Position::new(0, 3)),
            text: "1\n1b".to_string(),
        },
        ChangeEvent::Incremental {
            range: Range::new(Position::new(2, 0), Position::new(2, 3)),
            text: "2".to_string(),
        },
        ChangeEvent::Incremental {
            range: Range::new(Position::new(3, 5), Position::new(4, 0)),
            text: "".to_string(),
        },
    ];
    // The same edits on a plain string, offsets recomputed after each step.
    let mut plain = String::from("one\ntwo\nthree\n");
    plain.replace_range(0..3, "1\n1b");
    assert_eq!(plain, "1\n1b\ntwo\nthree\n");
    plain.replace_range(5..8, "2");
    assert_eq!(plain, "1\n1b\n2\nthree\n");
    plain.replace_range(12..13, "");
    assert_eq!(apply_content_changes(&mut doc, &changes, OffsetEncoding::Utf16), Ok(()));
    assert_eq!(doc.to_string(), plain);
}

#[test]
fn batch_stops_at_first_failure_and_keeps_earlier_edits() {
    let mut doc = Rope::from_str("abc");
    let changes = vec![
        ChangeEvent::Incremental {
            range: Range::new(Position::new(0, 1), Position::new(0, 2)),
            text: "X".to_string(),
        },
        ChangeEvent::Incremental {
            range: Range::new(Position::new(5, 0), Position::new(5, 0)),
            text: "never".to_string(),
        },
        ChangeEvent::FullReplace { text: "never".to_string() },
    ];
    assert_eq!(
        apply_content_changes(&mut doc, &changes, OffsetEncoding::Utf16),
        Err(Error::PositionOutOfBounds(5, 0))
    );
    assert_eq!(doc.to_string(), "aXc");
}

#[test]
fn empty_batch_leaves_text() {
    let mut doc = Rope::from_str("abc\n");
    assert_eq!(apply_content_changes(&mut doc, &Vec::new(), OffsetEncoding::Utf16), Ok(()));
    assert_eq!(doc.to_string(), "abc\n");
}

#[test]
fn range_content_refuses_bad_ranges() {
    let doc = Rope::from_str("hello\nworld");
    let inverted = Range::new(Position::new(1, 0), Position::new(0, 0));
    assert_eq!(get_range_content(&doc, &inverted), None);
    let outside = Range::new(Position::new(0, 0), Position::new(7, 0));
    assert_eq!(get_range_content(&doc, &outside), None);
    let whole = Range::new(Position::new(0, 2), Position::new(1, 3));
    assert_eq!(get_range_content(&doc, &whole), Some("llo\nwor".to_string()));
}

#[test]
fn word_and_punctuation_characters() {
    assert!(char_is_word('a'));
    assert!(char_is_word('9'));
    assert!(char_is_word('_'));
    assert!(char_is_word('你'));
    assert!(!char_is_word(' '));
    assert!(!char_is_word('.'));
    for ch in ['.', '(', ')', '«', '»', '_', '-', '+', '$', '^'] {
        assert!(char_is_punctuation(ch), "{ch}");
    }
    for ch in ['a', '1', ' ', '\n', '©'] {
        assert!(!char_is_punctuation(ch), "{ch}");
    }
}

#[test]
fn field_detection() {
    let line = Rope::from_str("foo.bar baz");
    assert!(!is_field(&line, 0));
    assert!(!is_field(&line, 3));
    assert!(is_field(&line, 4));
    assert!(is_field(&line, 7));
    assert!(!is_field(&line, 8));
    assert!(!is_field(&line, 11));
    assert!(!is_field(&line, 12));
}

#[test]
fn current_word_edges() {
    let line = Rope::from_str("abcd ef1h");
    assert_eq!(get_current_word(&line, 0), None);
    assert_eq!(get_current_word(&line, 10), None);
    assert_eq!(get_current_word(&line, 4), Some("abcd".to_string()));
    assert_eq!(get_current_word(&line, 5), Some("ef1h".to_string()));
    assert_eq!(get_current_word(&line, 9), Some("ef1h".to_string()));
    let gaps = Rope::from_str("a  b");
    assert_eq!(get_current_word(&gaps, 2), None);
}

#[test]
fn default_encoding_is_utf16() {
    assert_eq!(OffsetEncoding::default(), OffsetEncoding::Utf16);
}
