use hx_lsp::keyed::Keyed;
use hx_lsp::loader::Dirs;
use hx_lsp::parser::StrOrSeq;
use hx_lsp::snippet::{Snippet, Snippets};
use hx_lsp::variables::VariableInit;

fn snippet(prefix: &str, body: &str) -> Snippet {
    Snippet::new(
        StrOrSeq::String(prefix.to_string()),
        StrOrSeq::String(body.to_string()),
        Some(format!("about {prefix}")),
    )
}

fn snippets(name: &str, entries: &[(&str, Snippet)]) -> Snippets {
    let mut keyed = Keyed::new();
    for (key, value) in entries {
        keyed.insert(key.to_string(), value.clone());
    }
    Snippets::new(name.to_string(), keyed)
}

#[test]
fn str_or_seq_first_and_text() {
    let one = StrOrSeq::String("log".to_string());
    assert_eq!(one.first(), Some("log".to_string()));
    assert_eq!(one.to_string(), "log");
    let many = StrOrSeq::Array(vec!["console.log('$1');".to_string(), "$2".to_string()]);
    assert_eq!(many.first(), Some("console.log('$1');".to_string()));
    assert_eq!(many.to_string(), "console.log('$1');\n$2");
    let none = StrOrSeq::Array(vec![]);
    assert_eq!(none.first(), None);
    assert_eq!(none.to_string(), "");
    let single = StrOrSeq::Array(vec!["only".to_string()]);
    assert_eq!(single.to_string(), "only");
    assert_eq!(many.clone(), many);
}

#[test]
fn dirs_names() {
    assert_eq!(Dirs::Snippets.to_string(), "snippets");
    assert_eq!(Dirs::Actions.to_string(), "actions");
}

#[test]
fn snippet_items_one_per_prefix() {
    let init = VariableInit { current_word: "w".to_string(), ..Default::default() };
    let single = snippet("log", "print($TM_CURRENT_WORD)");
    assert_eq!(single.description(), "about log");
    let items = single.to_completion_item(&init);
    assert_eq!(items.len(), 1);
    assert_eq!(items[0].label, "log");
    assert_eq!(items[0].detail, "about log");
    assert_eq!(items[0].insert_text, "print(w)");

    let several = Snippet::new(
        StrOrSeq::Array(vec!["a".to_string(), "b".to_string()]),
        StrOrSeq::Array(vec!["line 1".to_string(), "line 2".to_string()]),
        None,
    );
    assert_eq!(several.description(), "");
    let items = several.to_completion_item(&init);
    assert_eq!(items.len(), 2);
    assert_eq!(items[0].label, "a");
    assert_eq!(items[1].label, "b");
    assert_eq!(items[1].insert_text, "line 1\nline 2");
    assert_eq!(items[1].detail, "");
    let items = several.completion_items("given");
    assert_eq!(items[0].insert_text, "given");
}

#[test]
fn snippets_extend_prefers_the_other() {
    let mut base = snippets("rust", &[("a", snippet("pa", "1")), ("b", snippet("pb", "2"))]);
    let other = snippets("global", &[("b", snippet("pb2", "3")), ("c", snippet("pc", "4"))]);
    base.extend(other);
    assert_eq!(base.name(), "rust");
    assert_eq!(base.len(), 3);
    assert_eq!(base.get("a").unwrap().prefix().to_string(), "pa");
    assert_eq!(base.get("b").unwrap().prefix().to_string(), "pb2");
    assert_eq!(base.get("b").unwrap().body().to_string(), "3");
    assert_eq!(base.get("c").unwrap().prefix().to_string(), "pc");
    assert!(base.get("d").is_none());
}

#[test]
fn snippets_from_files_lets_the_earlier_file_decide() {
    let project = snippets("p", &[("a", snippet("project", "1"))]);
    let user = snippets("u", &[("a", snippet("user", "2")), ("b", snippet("user b", "3"))]);
    let merged = Snippets::from_files("markdown".to_string(), vec![Some(project), None, Some(user)]);
    assert_eq!(merged.name(), "markdown");
    assert_eq!(merged.len(), 2);
    assert_eq!(merged.get("a").unwrap().prefix().to_string(), "project");
    assert_eq!(merged.get("b").unwrap().prefix().to_string(), "user b");
    let default = Snippets::default();
    assert_eq!(default.name(), "default");
    assert_eq!(default.len(), 0);
}

#[test]
fn snippets_filter_by_matched_prefixes() {
    let set = snippets(
        "rust",
        &[
            ("first log", snippet("log", "1")),
            ("for loop", snippet("for", "2")),
            ("second log", snippet("log", "3")),
            ("while loop", snippet("while", "4")),
        ],
    );
    let kept = set.filter(&vec!["log".to_string(), "while".to_string(), "absent".to_string()]);
    assert_eq!(kept.name(), "rust");
    assert_eq!(kept.len(), 2);
    assert!(kept.get("first log").is_none());
    assert_eq!(kept.get("second log").unwrap().body().to_string(), "3");
    assert_eq!(kept.get("while loop").unwrap().body().to_string(), "4");
    assert!(kept.get("for loop").is_none());
    assert_eq!(set.filter(&vec![]).len(), 0);
    assert_eq!(set.len(), 4);
    assert_eq!(set.title(1), "for loop");
    assert_eq!(set.snippet(1).body().to_string(), "2");
}

#[test]
fn snippets_to_completion_items_in_order() {
    let set = snippets("rust", &[("a", snippet("pa", "1")), ("b", snippet("pb", "2"))]);
    let items = set.to_completion_items(&VariableInit::default());
    assert_eq!(items.len(), 2);
    assert_eq!(items[0].label, "pa");
    assert_eq!(items[0].insert_text, "1");
    assert_eq!(items[1].label, "pb");
    assert_eq!(items[1].detail, "about pb");
}

#[test]
fn keyed_insert_get_and_order() {
    let mut keyed: Keyed<u32> = Keyed::new();
    assert_eq!(keyed.len(), 0);
    assert!(!keyed.contains_key("a"));
    keyed.insert("a".to_string(), 1);
    keyed.insert("b".to_string(), 2);
    keyed.insert("a".to_string(), 3);
    assert_eq!(keyed.len(), 2);
    assert_eq!(keyed.get("a"), Some(&3));
    assert_eq!(keyed.get("b"), Some(&2));
    assert_eq!(keyed.get("c"), None);
    assert_eq!(keyed.key(0), "a");
    assert_eq!(keyed.value(0), &3);
    assert_eq!(keyed.key(1), "b");
    keyed.recall_entries();
    let mut other: Keyed<u32> = Keyed::new();
    other.insert("b".to_string(), 20);
    other.insert("c".to_string(), 30);
    keyed.extend(other);
    assert_eq!(keyed.len(), 3);
    assert_eq!(keyed.get("a"), Some(&3));
    assert_eq!(keyed.get("b"), Some(&20));
    assert_eq!(keyed.get("c"), Some(&30));
}
