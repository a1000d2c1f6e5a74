use hx_lsp::action::ActionData;
use hx_lsp::action_inner::case_actions;
use hx_lsp::encoding::{Position, Range, TextEdit};
use hx_lsp::errors::Error;
use hx_lsp::lsp::{
    client_identity, completion_scope, resolve_edit, selected_text, CompletionScope,
};
use hx_lsp::markdown::actions;
use hx_lsp::markdown::list::{contains_list, convert_to_list, ListType};
use hx_lsp::markdown::table::{
    calculate_column_widths, format_row, gen_separator, get_alignment_cell_minimum_width,
    get_table_range, parse_tables, Alignment,
};
use hx_lsp::state::{Reload, State};
use ropey::Rope;

fn insertion(line: u32, character: u32, text: &str) -> TextEdit {
    let place = Position::new(line, character);
    TextEdit { range: Range::new(place, place), new_text: text.to_string() }
}

fn range(start_line: u32, end_line: u32) -> Range {
    Range::new(Position::new(start_line, 0), Position::new(end_line, 0))
}

#[test]
fn list_detection() {
    assert!(contains_list("- a\n- b\n"));
    assert!(contains_list("1. a\n2. b\n"));
    assert!(contains_list("text\n\n- [ ] task\n"));
    assert!(!contains_list("a\nb\n"));
    assert!(!contains_list(""));
    assert!(!contains_list("# title\n\nparagraph *emph*\n"));
}

#[test]
fn ordered_list_numbers_by_indent() {
    let text = Rope::from_str("a\n  b\n  c\n    d\nx\n");
    let edits = convert_to_list(&text, range(10, 15), ListType::Ordered).unwrap();
    assert_eq!(
        edits,
        vec![
            insertion(10, 0, "1. "),
            insertion(11, 2, "1.1. "),
            insertion(12, 2, "1.2. "),
            insertion(13, 4, "1.2.1. "),
            insertion(14, 0, "2. "),
        ]
    );
}

#[test]
fn ordered_list_after_blank_line() {
    let text = Rope::from_str("a\n  b\n\n  c\nd");
    let edits = convert_to_list(&text, range(0, 4), ListType::Ordered).unwrap();
    assert_eq!(
        edits,
        vec![
            insertion(0, 0, "1. "),
            insertion(1, 2, "1.1. "),
            insertion(3, 2, "2. "),
            insertion(4, 0, "3. "),
        ]
    );
}

#[test]
fn unordered_and_task_lists() {
    let text = Rope::from_str("one\n\ttwo\n   \nthree");
    assert_eq!(
        convert_to_list(&text, range(3, 6), ListType::Unordered),
        Some(vec![insertion(3, 0, "- "), insertion(4, 1, "- "), insertion(6, 0, "- ")])
    );
    assert_eq!(
        convert_to_list(&text, range(3, 6), ListType::TaskList),
        Some(vec![insertion(3, 0, "- [ ] "), insertion(4, 1, "- [ ] "), insertion(6, 0, "- [ ] ")])
    );
}

#[test]
fn no_list_from_a_list_or_from_nothing() {
    assert_eq!(convert_to_list(&Rope::from_str("- a\n- b"), range(0, 1), ListType::Ordered), None);
    assert_eq!(convert_to_list(&Rope::from_str(""), range(0, 0), ListType::Ordered), None);
    assert_eq!(convert_to_list(&Rope::from_str("  \n\n \t\n"), range(0, 3), ListType::Unordered), None);
    let far = Range::new(Position::new(u32::MAX, 0), Position::new(u32::MAX, 0));
    assert_eq!(convert_to_list(&Rope::from_str("a\nb"), far, ListType::Unordered), None);
    assert_eq!(
        convert_to_list(&Rope::from_str("a"), far, ListType::Unordered),
        Some(vec![insertion(u32::MAX, 0, "- ")])
    );
}

#[test]
fn case_actions_for_an_identifier() {
    let at = Range::new(Position::new(2, 4), Position::new(2, 13));
    let actions = case_actions("some_words", at);
    let titles: Vec<&str> = actions.iter().map(|a| a.title.as_str()).collect();
    assert_eq!(titles, vec!["CasePascal", "caseCamel"]);
    assert_eq!(actions[0].edit, TextEdit { range: at, new_text: "SomeWords".to_string() });
    assert_eq!(actions[1].edit, TextEdit { range: at, new_text: "someWords".to_string() });
    let actions = case_actions("SomeWords", at);
    let titles: Vec<&str> = actions.iter().map(|a| a.title.as_str()).collect();
    assert_eq!(titles, vec!["case_snake", "caseCamel"]);
    assert_eq!(actions[0].edit.new_text, "some_words");
}

#[test]
fn case_actions_refused() {
    let one_line = Range::new(Position::new(2, 4), Position::new(2, 13));
    let two_lines = Range::new(Position::new(2, 4), Position::new(3, 1));
    assert!(case_actions("some_words", two_lines).is_empty());
    assert!(case_actions("x", one_line).is_empty());
    assert!(case_actions("你好_世界", one_line).is_empty());
    assert!(!case_actions("xY", one_line).is_empty());
}

#[test]
fn selected_text_of_a_range() {
    let doc = Rope::from_str("hello\nworld");
    let empty = Range::new(Position::new(0, 2), Position::new(0, 2));
    assert_eq!(selected_text(&doc, &empty), None);
    let some = Range::new(Position::new(0, 2), Position::new(1, 1));
    assert_eq!(selected_text(&doc, &some), Some("llo\nw".to_string()));
    let outside = Range::new(Position::new(0, 2), Position::new(5, 1));
    assert_eq!(selected_text(&doc, &outside), Some(String::new()));
}

#[test]
fn resolve_edit_needs_output() {
    let at = Range::new(Position::new(1, 0), Position::new(1, 5));
    let data = ActionData::new("file:///a".to_string(), at).with_command("fmt".to_string());
    assert_eq!(
        resolve_edit(&data, Ok("done".to_string())),
        Some(TextEdit { range: at, new_text: "done".to_string() })
    );
    assert_eq!(resolve_edit(&data, Ok(String::new())), None);
    assert_eq!(resolve_edit(&data, Err(Error::CommandTimeout(5))), None);
    assert_eq!(resolve_edit(&data, Err(Error::CommandNonZeroExit(Some(1), "e".to_string()))), None);
}

#[test]
fn execute_command_names_what_to_reload() {
    let state: State<Vec<u32>> = State::new();
    assert_eq!(state.execute_command("reload actions"), Ok(Reload::Actions));
    assert_eq!(state.execute_command("reload snippets"), Ok(Reload::Snippets));
    assert_eq!(
        state.execute_command("reload"),
        Err(Error::UnsupportedLspRequest { request: "reload".to_string() })
    );
}

#[test]
fn table_is_laid_out() {
    let text = Rope::from_str("| a | b |\n|---|:-:|\n| 1 | 22 |\n");
    let at = Range::new(Position::new(4, 0), Position::new(7, 0));
    let tables = parse_tables(&text, at.start);
    assert_eq!(tables.len(), 1);
    assert_eq!(tables[0].header, vec!["a".to_string(), "b".to_string()]);
    assert_eq!(tables[0].rows, vec![vec!["1".to_string(), "22".to_string()]]);
    assert_eq!(tables[0].alignments, vec![Alignment::Unset, Alignment::Center]);
    assert_eq!(tables[0].col_widths, vec![3, 5]);
    assert_eq!(tables[0].range, Range::new(Position::new(4, 0), Position::new(6, 10)));
    let edits = hx_lsp::markdown::table::format(&text, at);
    assert_eq!(edits.len(), 1);
    assert_eq!(edits[0].range, tables[0].range);
    assert_eq!(edits[0].new_text, "| a   |   b   |\n| --- | :---: |\n| 1   |  22   |");
}

#[test]
fn table_rows_and_separator() {
    assert_eq!(get_alignment_cell_minimum_width(&Alignment::Center), 5);
    assert_eq!(get_alignment_cell_minimum_width(&Alignment::Left), 4);
    assert_eq!(get_alignment_cell_minimum_width(&Alignment::Right), 4);
    assert_eq!(get_alignment_cell_minimum_width(&Alignment::Unset), 3);
    let alignments =
        vec![Alignment::Left, Alignment::Right, Alignment::Center, Alignment::Unset];
    let header: Vec<String> = ["name", "n", "c", "你好"].iter().map(|s| s.to_string()).collect();
    let rows: Vec<Vec<String>> = vec![
        ["a longer name", "12345", "mid", "x"].iter().map(|s| s.to_string()).collect(),
        ["b"].iter().map(|s| s.to_string()).collect(),
    ];
    let widths = calculate_column_widths(&header, &rows, &alignments);
    assert_eq!(widths, vec![13, 5, 5, 4]);
    assert_eq!(
        gen_separator(&alignments, &widths),
        vec![":------------", "----:", ":---:", "----"]
    );
    assert_eq!(
        format_row(&header, &widths, &alignments),
        "| name          |     n |   c   | 你好   |"
    );
    assert_eq!(
        format_row(&rows[0], &widths, &alignments),
        "| a longer name | 12345 |  mid  | x    |"
    );
    assert_eq!(format_row(&rows[1], &widths, &alignments), "| b             |");
    assert_eq!(format_row(&Vec::new(), &widths, &alignments), "||");
    assert_eq!(gen_separator(&alignments, &vec![1, 1]), vec![":---", "---:"]);
    assert_eq!(
        get_table_range((1, 1, 3, 10), Position::new(4, 2)),
        Some(Range::new(Position::new(4, 2), Position::new(6, 12)))
    );
    assert_eq!(get_table_range((0, 1, 3, 10), Position::new(4, 2)), None);
    assert_eq!(get_table_range((1, 1, 3, 10), Position::new(u32::MAX, 2)), None);
}

#[test]
fn tables_come_last_first() {
    let text = Rope::from_str("| a |\n|---|\n| 1 |\n\ntext\n\n| b | c |\n|---|---|\n");
    let tables = parse_tables(&text, Position::new(0, 0));
    assert_eq!(tables.len(), 2);
    assert_eq!(tables[0].header, vec!["b".to_string(), "c".to_string()]);
    assert!(tables[0].rows.is_empty());
    assert_eq!(tables[1].header, vec!["a".to_string()]);
    assert_eq!(tables[1].rows, vec![vec!["1".to_string()]]);
    assert!(parse_tables(&Rope::from_str("no table here"), Position::new(0, 0)).is_empty());
}

#[test]
fn markdown_actions_by_selection() {
    let doc = Rope::from_str("first\nsecond\nthird\n| a |\n|---|\n| 1 |\n");
    assert!(actions("rust", &doc, Range::new(Position::new(0, 0), Position::new(0, 5))).is_empty());

    let inline = actions("markdown", &doc, Range::new(Position::new(0, 1), Position::new(0, 4)));
    let titles: Vec<&str> = inline.iter().map(|a| a.title.as_str()).collect();
    assert_eq!(titles, vec!["Bold", "Italic", "Strikethrough"]);
    assert_eq!(inline[0].edits[0].new_text, "**irs**");
    assert_eq!(inline[1].edits[0].new_text, "_irs_");
    assert_eq!(inline[2].edits[0].new_text, "~~irs~~");
    assert_eq!(inline[2].edits[0].range, Range::new(Position::new(0, 1), Position::new(0, 4)));

    let two = actions("markdown", &doc, Range::new(Position::new(0, 0), Position::new(1, 6)));
    let titles: Vec<&str> = two.iter().map(|a| a.title.as_str()).collect();
    assert_eq!(titles, vec!["Order List", "Unorder List", "Task List"]);
    assert_eq!(two[0].edits, vec![insertion(0, 0, "1. "), insertion(1, 0, "2. ")]);
    assert_eq!(two[2].edits, vec![insertion(0, 0, "- [ ] "), insertion(1, 0, "- [ ] ")]);

    let table = actions("markdown", &doc, Range::new(Position::new(3, 0), Position::new(5, 5)));
    let titles: Vec<&str> = table.iter().map(|a| a.title.as_str()).collect();
    assert_eq!(titles, vec!["Table Format", "Order List", "Unorder List", "Task List"]);
    assert_eq!(table[0].edits[0].new_text, "| a   |\n| --- |\n| 1   |");
    assert_eq!(table[0].edits[0].range, Range::new(Position::new(3, 0), Position::new(5, 5)));
}

#[test]
fn completion_scope_at_cursor() {
    let line = Rope::from_str("foo.bar baz ");
    assert_eq!(completion_scope(&line, 6), CompletionScope::Nothing);
    assert_eq!(completion_scope(&line, 9), CompletionScope::Matching("baz".to_string()));
    assert_eq!(completion_scope(&line, 2), CompletionScope::Matching("foo".to_string()));
    assert_eq!(completion_scope(&line, 0), CompletionScope::Everything);
    assert_eq!(completion_scope(&line, 40), CompletionScope::Everything);
    assert_eq!(completion_scope(&Rope::from_str("a  b"), 2), CompletionScope::Everything);
}

#[test]
fn client_identity_defaults() {
    assert_eq!(
        client_identity(Some(("helix".to_string(), Some("25.1".to_string())))),
        ("helix".to_string(), "25.1".to_string())
    );
    assert_eq!(
        client_identity(Some(("helix".to_string(), None))),
        ("helix".to_string(), "unknown".to_string())
    );
    assert_eq!(client_identity(None), ("web".to_string(), "unknown".to_string()));
}
