use yarn_slinger_runtime::localization::{
    ensure_right_language, plan_strings_files, retain_translations, FileGenerationMode,
    Localization, Localizations, StringsFileAction, StringsFileError,
};
use yarn_slinger_runtime::string_table::{StringInfo, StringTableManager};
use yarn_slinger_runtime::strings_file::{
    compute_lock, create_strings_file_records, read_comments, sort_records,
    strings_file_contents, StringsFileRecord, YarnFile,
};

fn info(text: &str, node: &str, line: usize, metadata: &[&str]) -> StringInfo {
    StringInfo {
        text: text.to_string(),
        node_name: node.to_string(),
        line_number: line,
        file_name: String::new(),
        is_implicit_tag: false,
        metadata: metadata.iter().map(|s| s.to_string()).collect(),
    }
}

fn file(name: &str, lines: &[(&str, &str, usize)]) -> YarnFile {
    let mut table = StringTableManager::new();
    for (id, text, line) in lines {
        let mut i = info(text, "Start", *line, &[]);
        i.file_name = name.to_string();
        table.insert(Some(id.to_string()), i);
    }
    YarnFile { file_name: name.to_string(), source: String::new(), string_table: table }
}

fn localizations(mode: FileGenerationMode) -> Localizations {
    Localizations {
        base_language: Localization::from_language("en-US"),
        translations: vec![Localization::from_language("de-CH")],
        file_generation_mode: mode,
    }
}

#[test]
fn comments_skip_line_ids() {
    let m = vec!["line:abc".to_string(), "mood:happy".to_string(), "loud".to_string()];
    assert_eq!(read_comments(&m), "Line metadata: mood:happy loud");
    assert_eq!(read_comments(&vec!["line:abc".to_string()]), "");
    assert_eq!(read_comments(&vec![]), "");
}

#[test]
fn lock_is_eight_hex_digits_of_sha256() {
    assert_eq!(compute_lock(""), "e3b0c442");
    assert_eq!(compute_lock("abc"), "ba7816bf");
    assert_ne!(compute_lock("Hello"), compute_lock("Hello!"));
}

#[test]
fn records_are_sorted_by_file_then_line() {
    let files = vec![
        file("b.yarn", &[("line:b2", "B two", 7), ("line:b1", "B one", 3)]),
        file("a.yarn", &[("line:a5", "A five", 5), ("line:a1", "A one", 1), ("line:a3", "A three", 3)]),
    ];
    let rows = create_strings_file_records(&"de-CH".to_string(), &files);
    let ids: Vec<&str> = rows.iter().map(|r| r.id.as_str()).collect();
    assert_eq!(ids, vec!["line:a1", "line:a3", "line:a5", "line:b1", "line:b2"]);
    assert!(rows.iter().all(|r| r.language == "de-CH"));
    assert_eq!(rows[0].text, "A one");
    assert_eq!(rows[0].lock, compute_lock("A one"));
    assert_eq!(rows[0].node, "Start");
}

#[test]
fn sort_keeps_equal_keys_in_order() {
    let rec = |id: &str, file: &str, line: usize| StringsFileRecord {
        language: "de-CH".to_string(),
        id: id.to_string(),
        text: String::new(),
        file: file.to_string(),
        node: String::new(),
        line_number: line,
        lock: String::new(),
        comment: String::new(),
    };
    let sorted = sort_records(vec![rec("x", "b", 1), rec("y", "a", 2), rec("z", "a", 2), rec("w", "a", 1)]);
    let ids: Vec<&str> = sorted.iter().map(|r| r.id.as_str()).collect();
    assert_eq!(ids, vec!["w", "y", "z", "x"]);
}

#[test]
fn strings_file_has_header_and_one_row_per_line() {
    let files = vec![file(
        "lines.yarn",
        &[
            ("line:1", "One", 1),
            ("line:2", "Two, with a comma", 2),
            ("line:3", "Three", 3),
            ("line:4", "Four \"quoted\"", 4),
            ("line:5", "Five", 5),
        ],
    )];
    let rows = create_strings_file_records(&"de-CH".to_string(), &files);
    let bytes = strings_file_contents(&rows);
    let text = String::from_utf8(bytes).unwrap();
    let lines: Vec<&str> = text.lines().collect();
    assert_eq!(lines.len(), 6);
    assert_eq!(lines[0], "language,id,text,file,node,lineNumber,lock,comment");
    let lock = compute_lock("One");
    assert_eq!(lines[1], format!("de-CH,line:1,One,lines.yarn,Start,1,{lock},"));
    assert!(lines[2].contains("\"Two, with a comma\""));
    assert!(lines[4].contains("\"Four \"\"quoted\"\"\""));
    let ids: Vec<&str> = lines.iter().skip(1).map(|l| l.split(',').nth(1).unwrap()).collect();
    assert_eq!(ids, vec!["line:1", "line:2", "line:3", "line:4", "line:5"]);
}

#[test]
fn development_generates_missing_translation_only() {
    let loc = localizations(FileGenerationMode::Development);
    let plan = plan_strings_files(&loc, &vec![], &vec![false]).unwrap();
    assert_eq!(plan, vec![("de-CH".to_string(), StringsFileAction::Generate)]);
    assert_eq!(loc.translations[0].strings_file, "de-CH.strings.csv");
    let plan = plan_strings_files(&loc, &vec![], &vec![true]).unwrap();
    assert_eq!(plan, vec![("de-CH".to_string(), StringsFileAction::Load)]);
    let plan = plan_strings_files(&loc, &vec!["de-CH".to_string()], &vec![false]).unwrap();
    assert!(plan.is_empty());
}

#[test]
fn production_refuses_missing_file() {
    let loc = localizations(FileGenerationMode::Production);
    let err = plan_strings_files(&loc, &vec![], &vec![false]).unwrap_err();
    assert_eq!(err, StringsFileError::MissingInProduction { path: "de-CH.strings.csv".to_string() });
    let plan = plan_strings_files(&loc, &vec![], &vec![true]).unwrap();
    assert_eq!(plan, vec![("de-CH".to_string(), StringsFileAction::Load)]);
}

#[test]
fn language_mismatch_is_rejected() {
    let de = "de-CH".to_string();
    let fr = "fr-FR".to_string();
    assert_eq!(
        ensure_right_language(Some(&de), Some(&fr)),
        Err(StringsFileError::LanguageMismatch { expected: de.clone(), found: fr.clone() })
    );
    assert_eq!(ensure_right_language(Some(&de), Some(&de)), Ok(()));
    assert_eq!(ensure_right_language(None, Some(&fr)), Ok(()));
    assert_eq!(ensure_right_language(Some(&de), None), Ok(()));
}

#[test]
fn unsupported_registrations_are_dropped() {
    let loc = localizations(FileGenerationMode::Development);
    let kept = retain_translations(&vec!["fr-FR".to_string(), "de-CH".to_string(), "en-US".to_string()], &loc);
    assert_eq!(kept, vec!["de-CH".to_string()]);
    assert!(loc.supports_language(&"en-US".to_string()));
    assert!(!loc.supports_translation(&"en-US".to_string()));
    assert!(!loc.supports_language(&"fr-FR".to_string()));
}

#[test]
fn implicit_lines_get_no_row() {
    let mut f = file("a.yarn", &[("line:kept", "Kept", 2)]);
    let mut implicit = info("Untagged", "Start", 1, &[]);
    implicit.file_name = "a.yarn".to_string();
    f.string_table.insert(None, implicit);
    assert!(f.string_table.contains_implicit_string_tags());
    let rows = create_strings_file_records(&"de-CH".to_string(), &vec![f]);
    let ids: Vec<&str> = rows.iter().map(|r| r.id.as_str()).collect();
    assert_eq!(ids, vec!["line:kept"]);
}
