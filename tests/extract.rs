use rust_hero::query::{
    classify, starts_with_underscore, ExtractError, ExtractedFile, ExtractedMatch, Extractor,
    Language, Position, RawCapture,
};
use tree_sitter::Parser;

fn extractor(query: &str) -> Extractor {
    let lang = Language::Rust;
    let query = lang.parse_query(query).unwrap();
    Extractor::new(lang, query)
}

fn raw(index: u32, start_byte: usize, end_byte: usize) -> RawCapture {
    RawCapture {
        index,
        kind: "identifier".to_string(),
        start_byte,
        end_byte,
        start: Position::new(0, start_byte),
        end: Position::new(0, end_byte),
    }
}

#[test]
fn function_and_identifier_are_extracted_in_order() {
    let e = extractor("(function_item (identifier) @id) @function");
    let source = b"fn main(){println!(\"hello\");}";
    let file = e.extract_from_text(None, source, &mut Parser::new()).unwrap().unwrap();
    assert_eq!(file.matches.len(), 2);
    assert_eq!(file.matches[0].name, "function");
    assert_eq!(file.matches[0].text, "fn main(){println!(\"hello\");}");
    assert_eq!(file.matches[0].kind, "function_item");
    assert_eq!(file.matches[1].name, "id");
    assert_eq!(file.matches[1].text, "main");
    assert_eq!(file.matches[1].start, Position::new(0, 3));
    assert_eq!(file.matches[1].end, Position::new(0, 7));
    assert_eq!(file.file, None);
    assert_eq!(file.file_type, "rust");
}

#[test]
fn longer_program_is_extracted() {
    let e = extractor("(function_item (identifier) @id) @function");
    let source = b"fn main(){println!(\"hello rust_hero\");}";
    let file = e.extract_from_text(None, source, &mut Parser::new()).unwrap().unwrap();
    assert_eq!(file.matches.len(), 2);
    assert_eq!(file.matches[0].name, "function");
    assert_eq!(file.matches[0].text, "fn main(){println!(\"hello rust_hero\");}");
}

#[test]
fn empty_input_gives_no_result() {
    let e = extractor("(function_item (identifier) @id) @function");
    let r = e.extract_from_text(None, b"", &mut Parser::new()).unwrap();
    assert!(r.is_none());
}

#[test]
fn source_without_matches_gives_no_result() {
    let e = extractor("(function_item (identifier) @id) @function");
    let r = e.extract_from_text(None, b"struct S;", &mut Parser::new()).unwrap();
    assert!(r.is_none());
}

#[test]
fn underscore_captures_are_left_out() {
    let e = extractor("(function_item (identifier) @_helper) @value");
    let source = b"fn a(){} fn b(){}";
    let file = e.extract_from_text(None, source, &mut Parser::new()).unwrap().unwrap();
    assert_eq!(file.matches.len(), 2);
    assert!(file.matches.iter().all(|m| m.name == "value"));
    assert_eq!(file.matches[0].text, "fn a(){}");
    assert_eq!(file.matches[1].text, "fn b(){}");
}

#[test]
fn all_underscore_captures_give_no_result() {
    let e = extractor("(function_item (identifier) @_name) @_item");
    let r = e.extract_from_text(None, b"fn a(){} fn b(){}", &mut Parser::new()).unwrap();
    assert!(r.is_none());
}

#[test]
fn match_names_are_capture_names_not_ignored() {
    let e = extractor("(function_item (identifier) @_id (block) @body) @function");
    let file = e
        .extract_from_text(None, b"fn f(){ 1 }", &mut Parser::new())
        .unwrap()
        .unwrap();
    let names = e.capture_names();
    for m in &file.matches {
        let i = names.iter().position(|n| *n == m.name).unwrap();
        assert!(!names[i].starts_with('_'));
    }
    assert_eq!(file.matches.len(), 2);
}

#[test]
fn extraction_twice_gives_identical_results() {
    let e = extractor("(function_item (identifier) @id) @function");
    let source = b"fn a(){}\nfn b(){}\n";
    let mut parser = Parser::new();
    let first = e.extract_from_text(Some(b"x.rs".to_vec()), source, &mut parser).unwrap();
    let second = e.extract_from_text(Some(b"x.rs".to_vec()), source, &mut parser).unwrap();
    assert_eq!(first, second);
    assert_eq!(first.unwrap().matches.len(), 4);
}

#[test]
fn positions_are_reported_one_based() {
    let e = extractor("(function_item (identifier) @id)");
    let source = b"\n  fn ab(){}";
    let file = e.extract_from_text(None, source, &mut Parser::new()).unwrap().unwrap();
    let m = &file.matches[0];
    assert_eq!(m.start, Position::new(1, 5));
    assert_eq!(m.end, Position::new(1, 7));
    let s = m.start.to_reported();
    assert_eq!((s.row, s.column), (2, 6));
    let t = m.end.to_reported();
    assert_eq!((t.row, t.column), (2, 8));
    assert_eq!(file.to_text(), "NO FILE:2:6:id:ab\n");
}

#[test]
fn text_rendering_shows_path_and_each_match() {
    let e = extractor("(function_item (identifier) @id) @function");
    let source = b"fn main(){}";
    let file = e
        .extract_from_text(Some(b"src/main.rs".to_vec()), source, &mut Parser::new())
        .unwrap()
        .unwrap();
    assert_eq!(
        file.to_text(),
        "src/main.rs:1:1:function:fn main(){}\nsrc/main.rs:1:4:id:main\n"
    );
}

#[test]
fn text_rendering_of_non_utf8_path() {
    let file = ExtractedFile {
        file: Some(vec![0x66, 0xff, 0x2e]),
        file_type: "rust".to_string(),
        matches: vec![ExtractedMatch {
            kind: "identifier".to_string(),
            name: "id".to_string(),
            text: "x:y".to_string(),
            start: Position::new(9, 119),
            end: Position::new(9, 120),
        }],
    };
    assert_eq!(file.to_text(), "NON-UTF8 FILENAME:10:120:id:x:y\n");
}

#[test]
fn text_rendering_of_large_positions() {
    let file = ExtractedFile {
        file: None,
        file_type: "rust".to_string(),
        matches: vec![ExtractedMatch {
            kind: "k".to_string(),
            name: "n".to_string(),
            text: "t".to_string(),
            start: Position::new(usize::MAX, 0),
            end: Position::new(usize::MAX, 1),
        }],
    };
    let expected = format!("NO FILE:{}:1:n:t\n", (usize::MAX as u128) + 1);
    assert_eq!(file.to_text(), expected);
    assert_eq!(Position::new(usize::MAX, 4).to_reported().row, (usize::MAX as u128) + 1);
}

#[test]
fn projection_decodes_multibyte_text() {
    let e = extractor("(identifier) @id");
    let source = "let é = 1;".as_bytes();
    let r = e.extract_from_captures(None, source, &vec![raw(0, 4, 6)]).unwrap().unwrap();
    assert_eq!(r.matches.len(), 1);
    assert_eq!(r.matches[0].text, "é");
    assert_eq!(r.matches[0].name, "id");
}

#[test]
fn projection_rejects_invalid_utf8() {
    let e = extractor("(identifier) @id");
    let source = [b'a', 0xff, b'b'];
    let r = e.extract_from_captures(None, &source, &vec![raw(0, 0, 3)]);
    assert_eq!(r, Err(ExtractError::TextDecode));
}

#[test]
fn projection_rejects_span_outside_source() {
    let e = extractor("(identifier) @id");
    let r = e.extract_from_captures(None, b"abc", &vec![raw(0, 1, 9)]);
    assert_eq!(r, Err(ExtractError::TextDecode));
    let r = e.extract_from_captures(None, b"abc", &vec![raw(0, 2, 1)]);
    assert_eq!(r, Err(ExtractError::TextDecode));
}

#[test]
fn projection_rejects_unknown_capture() {
    let e = extractor("(identifier) @id");
    let r = e.extract_from_captures(None, b"abc", &vec![raw(0, 0, 1), raw(5, 0, 1)]);
    assert_eq!(r, Err(ExtractError::UnknownCapture));
}

#[test]
fn projection_reports_the_first_failing_capture() {
    let e = extractor("(identifier) @id");
    let r = e.extract_from_captures(None, b"abc", &vec![raw(0, 0, 9), raw(7, 0, 1)]);
    assert_eq!(r, Err(ExtractError::TextDecode));
    let r = e.extract_from_captures(None, b"abc", &vec![raw(7, 0, 1), raw(0, 0, 9)]);
    assert_eq!(r, Err(ExtractError::UnknownCapture));
}

#[test]
fn projection_skips_ignored_captures() {
    let e = extractor("((identifier) @_skip (#eq? @_skip \"x\")) (identifier) @id");
    assert_eq!(e.capture_names(), &vec!["_skip".to_string(), "id".to_string()]);
    let r = e
        .extract_from_captures(Some(b"p".to_vec()), b"abc", &vec![raw(0, 0, 9), raw(1, 1, 3)])
        .unwrap()
        .unwrap();
    assert_eq!(r.file, Some(b"p".to_vec()));
    assert_eq!(r.matches.len(), 1);
    assert_eq!(r.matches[0].text, "bc");
    let none = e.extract_from_captures(None, b"abc", &vec![raw(0, 0, 1)]).unwrap();
    assert!(none.is_none());
    let empty = e.extract_from_captures(None, b"abc", &vec![]).unwrap();
    assert!(empty.is_none());
}

#[test]
fn classify_marks_underscore_names() {
    let names = vec!["a".to_string(), "_b".to_string(), String::new(), "_".to_string(), "c_".to_string()];
    let set = classify(&names);
    assert_eq!(set.len(), 2);
    assert!(set.contains(&1));
    assert!(set.contains(&3));
    assert!(starts_with_underscore(&"_x".to_string()));
    assert!(!starts_with_underscore(&"x_".to_string()));
    assert!(!starts_with_underscore(&String::new()));
}

#[test]
fn language_name_and_getter() {
    assert_eq!(Language::Rust.name(), "rust");
    let e = extractor("(identifier) @id");
    assert_eq!(*e.language(), Language::Rust);
}

#[test]
fn malformed_query_is_a_compile_error() {
    let r = Language::Rust.parse_query("(function_item");
    assert!(r.is_err());
    let r = Language::Rust.parse_query("(no_such_node) @x");
    assert!(r.is_err());
}

#[test]
fn unknown_name_at_end_of_query_is_a_compile_error() {
    let err = Language::Rust.parse_query("(no_such_node").unwrap_err();
    assert_eq!(err.message, "no_such_node");
    assert_eq!((err.row, err.column), (0, 1));
}

#[test]
fn capture_names_follow_the_query() {
    let e = extractor("(function_item (identifier) @id) @function (identifier) @id");
    assert_eq!(e.capture_names(), &vec!["id".to_string(), "function".to_string()]);
}

#[test]
fn let_binding_identifier_is_extracted() {
    let e = extractor("(identifier) @id");
    let mut parser = Parser::new();
    let r = e.extract_from_text(None, b"let x = 1;", &mut parser).unwrap().unwrap();
    assert_eq!(r.matches[0].text, "x");
}
