use yarn_slinger_runtime::line_tags::add_tags_to_lines;

const SOURCE: &str = "title: Start\n---\nHello there.\n// a comment\n<<set $x to 1>>\n\n-> Option one\n    Indented reply #mood:happy\nAlready tagged #line:abc\n===\n";

#[test]
fn adds_tags_to_untagged_body_lines() {
    let out = add_tags_to_lines(SOURCE, &vec![]).unwrap();
    assert_eq!(
        out,
        "title: Start\n---\nHello there. #line:0\n// a comment\n<<set $x to 1>>\n\n-> Option one #line:1\n    Indented reply #mood:happy #line:2\nAlready tagged #line:abc\n===\n"
    );
}

#[test]
fn second_pass_changes_nothing() {
    let out = add_tags_to_lines(SOURCE, &vec![]).unwrap();
    assert_eq!(add_tags_to_lines(&out, &vec![]), None);
    assert_eq!(add_tags_to_lines(&out, &vec!["line:0".to_string()]), None);
}

#[test]
fn avoids_existing_identifiers() {
    let existing = vec!["line:0".to_string(), "line:2".to_string()];
    let out = add_tags_to_lines("title: A\n---\nOne\nTwo\n===", &existing).unwrap();
    assert_eq!(out, "title: A\n---\nOne #line:1\nTwo #line:3\n===");
}

#[test]
fn keeps_carriage_returns() {
    let out = add_tags_to_lines("title: A\r\n---\r\nOne\r\n===\r\n", &vec![]).unwrap();
    assert_eq!(out, "title: A\r\n---\r\nOne #line:0\r\n===\r\n");
}

#[test]
fn nothing_to_do_without_untagged_lines() {
    assert_eq!(add_tags_to_lines("", &vec![]), None);
    assert_eq!(add_tags_to_lines("title: A\n---\n<<stop>>\n===\n", &vec![]), None);
    assert_eq!(add_tags_to_lines("Outside any node\n", &vec![]), None);
}

#[test]
fn is_deterministic() {
    let a = add_tags_to_lines(SOURCE, &vec!["line:1".to_string()]);
    let b = add_tags_to_lines(SOURCE, &vec!["line:1".to_string()]);
    assert_eq!(a, b);
}

#[test]
fn ten_untagged_lines_all_get_distinct_tags() {
    let mut src = String::from("title: Start\n---\n");
    for i in 0..10 {
        src.push_str(&format!("Line number {i}\n"));
    }
    src.push_str("===\n");
    let out = add_tags_to_lines(&src, &vec![]).unwrap();
    let tagged: Vec<&str> = out.lines().filter(|l| l.contains("#line:")).collect();
    assert_eq!(tagged.len(), 10);
    for (i, l) in tagged.iter().enumerate() {
        assert_eq!(*l, format!("Line number {i} #line:{i}"));
    }
    assert_eq!(add_tags_to_lines(&out, &vec![]), None);
}
