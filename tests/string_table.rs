use yarn_slinger_runtime::string_table::{StringInfo, StringTableManager};

fn info(text: &str, file: &str, node: &str, line: usize) -> StringInfo {
    StringInfo {
        text: text.to_string(),
        node_name: node.to_string(),
        line_number: line,
        file_name: file.to_string(),
        is_implicit_tag: false,
        metadata: vec![],
    }
}

#[test]
fn implicit_ids_count_up_with_table_size() {
    let mut table = StringTableManager::new();
    table.insert(None, info("one", "a.yarn", "Start", 1));
    table.insert(None, info("two", "a.yarn", "Start", 2));
    table.insert(None, info("three", "a.yarn", "Start", 3));
    assert_eq!(table.len(), 3);
    let expected = ["line:a.yarn-Start-0", "line:a.yarn-Start-1", "line:a.yarn-Start-2"];
    for (i, id) in expected.iter().enumerate() {
        let (got, entry) = table.entry(i);
        assert_eq!(got, id);
        assert!(entry.is_implicit_tag);
    }
    assert!(table.contains_implicit_string_tags());
    assert!(table.explicit_line_ids().is_empty());
}

#[test]
fn explicit_id_marks_entry_explicit() {
    let mut table = StringTableManager::new();
    let mut i = info("hello", "a.yarn", "Start", 4);
    i.is_implicit_tag = true;
    table.insert(Some("line:abc".to_string()), i);
    let (id, entry) = table.entry(0);
    assert_eq!(id, "line:abc");
    assert!(!entry.is_implicit_tag);
    assert!(!table.contains_implicit_string_tags());
    assert_eq!(table.explicit_line_ids(), vec!["line:abc".to_string()]);
}

#[test]
fn second_insertion_with_same_id_replaces() {
    let mut table = StringTableManager::new();
    table.insert(Some("line:x".to_string()), info("first", "a.yarn", "Start", 1));
    table.insert(None, info("other", "a.yarn", "Start", 2));
    table.insert(Some("line:x".to_string()), info("second", "a.yarn", "Start", 3));
    assert_eq!(table.len(), 2);
    let (id, entry) = table.entry(0);
    assert_eq!(id, "line:x");
    assert_eq!(entry.text, "second");
    assert_eq!(entry.line_number, 3);
    assert_eq!(table.position(&"line:x".to_string()), Some(0));
    assert_eq!(table.position(&"line:a.yarn-Start-1".to_string()), Some(1));
    assert_eq!(table.position(&"line:nope".to_string()), None);
}

#[test]
fn implicit_id_uses_size_with_many_digits() {
    let mut table = StringTableManager::new();
    for n in 0..12 {
        table.insert(None, info("t", "f.yarn", "N", n));
    }
    let (id, _) = table.entry(11);
    assert_eq!(id, "line:f.yarn-N-11");
}
