use yarn_slinger_runtime::line_collection::{collect_lines, compile_string_table};
use yarn_slinger_runtime::line_tags::add_tags_to_lines;

const SOURCE: &str = "title: Start\ntags: intro\n---\nNarrator: Hello there. #mood:happy\n<<wait 1>>\n-> Go left #line:left #last\n    Reply text\n===\ntitle: Other\n---\nSecond node line\n===\n";

#[test]
fn collects_statement_lines_with_text_node_and_tags() {
    let lines = collect_lines(SOURCE);
    assert_eq!(lines.len(), 4);
    assert_eq!(lines[0].text, "Narrator: Hello there.");
    assert_eq!(lines[0].node, "Start");
    assert_eq!(lines[0].line_number, 4);
    assert_eq!(lines[0].metadata, vec!["mood:happy".to_string()]);
    assert_eq!(lines[0].id, None);
    assert_eq!(lines[1].text, "-> Go left");
    assert_eq!(lines[1].id, Some("line:left".to_string()));
    assert_eq!(lines[1].metadata, vec!["line:left".to_string(), "last".to_string()]);
    assert_eq!(lines[2].text, "Reply text");
    assert_eq!(lines[3].node, "Other");
    assert_eq!(lines[3].line_number, 11);
}

#[test]
fn compiled_table_marks_untagged_lines_implicit() {
    let table = compile_string_table(SOURCE, &"a.yarn".to_string());
    assert_eq!(table.len(), 4);
    let (id, info) = table.entry(0);
    assert_eq!(id, "line:a.yarn-Start-0");
    assert!(info.is_implicit_tag);
    assert_eq!(info.file_name, "a.yarn");
    let (id, info) = table.entry(1);
    assert_eq!(id, "line:left");
    assert!(!info.is_implicit_tag);
    assert!(table.contains_implicit_string_tags());
}

#[test]
fn inject_then_compile_keeps_lines_and_texts() {
    let mut src = String::from("title: Start\n---\n");
    for i in 0..10 {
        src.push_str(&format!("Line number {i}\n"));
    }
    src.push_str("===\n");
    let before = compile_string_table(&src, &"lines.yarn".to_string());
    let tagged = add_tags_to_lines(&src, &before.explicit_line_ids()).unwrap();
    let after = compile_string_table(&tagged, &"lines.yarn".to_string());
    assert_eq!(before.len(), 10);
    assert_eq!(after.len(), 10);
    assert!(!after.contains_implicit_string_tags());
    for i in 0..10 {
        assert_eq!(before.entry(i).1.text, after.entry(i).1.text);
        assert!(before.entry(i).1.is_implicit_tag);
        assert!(!after.entry(i).1.is_implicit_tag);
    }
}
