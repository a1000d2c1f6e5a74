use hx_lsp::action::accepts;
use hx_lsp::action_inner::{push_case, CaseAction, CaseKind};
use hx_lsp::encoding::{category_is_punctuation, Position, Range, TextEdit};
use hx_lsp::markdown::list::names_hold_list;
use hx_lsp::markdown::table::{lay_out_cell, read_tables, widen, Alignment};
use hx_lsp::variables::word_prefix;
use ropey::Rope;

#[test]
fn categories_that_separate_words() {
    for abbreviation in ["Po", "Ps", "Pe", "Pi", "Pf", "Pc", "Pd", "Sm", "Sc", "Sk"] {
        assert!(category_is_punctuation(abbreviation), "{abbreviation}");
    }
    for abbreviation in ["So", "Lu", "Ll", "Nd", "Zs", "Cc", "P", "", "Pod", "po"] {
        assert!(!category_is_punctuation(abbreviation), "{abbreviation}");
    }
}

#[test]
fn node_names_that_make_a_list() {
    assert!(!names_hold_list(&vec![]));
    assert!(!names_hold_list(&vec!["document", "paragraph", "text"]));
    assert!(names_hold_list(&vec!["document", "list", "item", "paragraph", "text"]));
    assert!(names_hold_list(&vec!["document", "paragraph", "taskitem"]));
    assert!(names_hold_list(&vec!["item"]));
    assert!(!names_hold_list(&vec!["List", "items", "table"]));
}

#[test]
fn acceptance_of_a_filter() {
    assert!(accepts("true"));
    assert!(accepts("1"));
    assert!(!accepts("TRUE"));
    assert!(!accepts("yes"));
    assert!(!accepts(""));
    assert!(!accepts("11"));
}

#[test]
fn case_offer_only_where_the_text_changes() {
    let at = Range::new(Position::new(0, 0), Position::new(0, 3));
    let mut actions: Vec<CaseAction> = Vec::new();
    push_case(&mut actions, "a_b", at, CaseKind::Snake, "a_b".to_string());
    assert!(actions.is_empty());
    push_case(&mut actions, "a_b", at, CaseKind::Pascal, "AB".to_string());
    push_case(&mut actions, "a_b", at, CaseKind::Camel, "aB".to_string());
    assert_eq!(
        actions,
        vec![
            CaseAction {
                title: "CasePascal".to_string(),
                edit: TextEdit { range: at, new_text: "AB".to_string() }
            },
            CaseAction {
                title: "caseCamel".to_string(),
                edit: TextEdit { range: at, new_text: "aB".to_string() }
            },
        ]
    );
    push_case(&mut actions, "x", at, CaseKind::Snake, "y".to_string());
    assert_eq!(actions[2].title, "case_snake");
}

#[test]
fn word_prefix_of_a_name() {
    assert_eq!(word_prefix("main_file.test.rs"), "main_file");
    assert_eq!(word_prefix("Makefile"), "Makefile");
    assert_eq!(word_prefix(".hidden"), "");
    assert_eq!(word_prefix(""), "");
    assert_eq!(word_prefix("你好-世界"), "你好");
}

#[test]
fn cells_in_their_columns() {
    let mut text = String::from("|");
    lay_out_cell(&mut text, "ab", 5, Alignment::Left, 2);
    assert_eq!(text, "| ab    ");
    let mut text = String::new();
    lay_out_cell(&mut text, "ab", 5, Alignment::Unset, 2);
    assert_eq!(text, " ab    ");
    let mut text = String::new();
    lay_out_cell(&mut text, "ab", 5, Alignment::Right, 2);
    assert_eq!(text, "    ab ");
    let mut text = String::new();
    lay_out_cell(&mut text, "ab", 5, Alignment::Center, 2);
    assert_eq!(text, "  ab   ");
    let mut text = String::new();
    lay_out_cell(&mut text, "你好", 5, Alignment::Center, 4);
    assert_eq!(text, " 你好  ");
    let mut text = String::new();
    lay_out_cell(&mut text, "你好", 5, Alignment::Left, 4);
    assert_eq!(text, " 你好    ");
    let mut text = String::new();
    lay_out_cell(&mut text, "too long", 3, Alignment::Center, 8);
    assert_eq!(text, " too long ");
    let mut text = String::new();
    lay_out_cell(&mut text, "too long", 3, Alignment::Right, 8);
    assert_eq!(text, " too long ");
}

#[test]
fn columns_widen_to_cells() {
    let mut widths = vec![3, 5, 4];
    widen(&mut widths, &vec![7, 2]);
    assert_eq!(widths, vec![7, 5, 4]);
    widen(&mut widths, &vec![1, 6, 4, 9]);
    assert_eq!(widths, vec![7, 6, 4]);
    widen(&mut widths, &vec![]);
    assert_eq!(widths, vec![7, 6, 4]);
}

#[test]
fn tables_from_given_nodes() {
    let text = Rope::from_str("| a | b |\n|---|:-:|\n| 1 | 22 |\n");
    let names = vec![
        "document", "table", "table_row", "table_cell", "text", "table_cell", "text",
        "table_row", "table_cell", "text", "table_cell", "text",
    ];
    let nowhere = (0, 0, 0, 0);
    let positions = vec![
        (1, 1, 3, 10),
        (1, 1, 3, 10),
        (1, 1, 1, 9),
        (1, 2, 1, 4),
        nowhere,
        (1, 6, 1, 8),
        nowhere,
        (3, 1, 3, 10),
        (3, 2, 3, 4),
        nowhere,
        (3, 6, 3, 9),
        nowhere,
    ];
    let mut alignments: Vec<Vec<Alignment>> = vec![Vec::new(); 12];
    alignments[1] = vec![Alignment::Unset, Alignment::Center];
    let tables = read_tables(&text, &names, &positions, &alignments, Position::new(4, 1));
    assert_eq!(tables.len(), 1);
    assert_eq!(tables[0].header, vec!["a".to_string(), "b".to_string()]);
    assert_eq!(tables[0].rows, vec![vec!["1".to_string(), "22".to_string()]]);
    assert_eq!(tables[0].alignments, vec![Alignment::Unset, Alignment::Center]);
    assert_eq!(tables[0].col_widths, vec![3, 5]);
    assert_eq!(tables[0].range, Range::new(Position::new(4, 1), Position::new(6, 11)));

    // a table without columns, a table whose place cannot be written, and lists
    // of different lengths give nothing
    let mut none = alignments.clone();
    none[1] = Vec::new();
    assert!(read_tables(&text, &names, &positions, &none, Position::new(0, 0)).is_empty());
    let mut unplaced = positions.clone();
    unplaced[1] = (0, 1, 3, 10);
    assert!(read_tables(&text, &names, &unplaced, &alignments, Position::new(0, 0)).is_empty());
    assert!(read_tables(&text, &names, &positions[1..].to_vec(), &alignments, Position::new(0, 0))
        .is_empty());

    // a cell outside its line has no text
    let mut outside = positions.clone();
    outside[3] = (1, 2, 1, 400);
    outside[5] = (9, 6, 9, 8);
    let tables = read_tables(&text, &names, &outside, &alignments, Position::new(0, 0));
    assert_eq!(tables[0].header, vec![String::new(), String::new()]);
}
