use freo::pattern::Matcher;
use freo::processor::{
    build_block_marker_pattern, build_inline_block_marker_pattern, build_keyword_comment_pattern,
    find_comment_start, remove_matching_comments_from_stream, remove_span, strip_keyword_comment,
    CommentStart, ProcessError, BLOCK_BEGIN_SUFFIX, BLOCK_END_SUFFIX,
};

fn strip(text: &str, pattern: &Matcher, comment_token: &str) -> String {
    String::from_utf8(strip_keyword_comment(text.as_bytes(), pattern, comment_token.as_bytes()))
        .unwrap()
}

fn comment_start(line: &str, comment_token: &str) -> CommentStart {
    find_comment_start(line.as_bytes(), comment_token.as_bytes())
}

fn run_stream(input: &str) -> Result<String, ProcessError> {
    let mut output = Vec::new();
    remove_matching_comments_from_stream("//", "FREO", input, &mut output)?;
    Ok(String::from_utf8(output).unwrap())
}

#[test]
fn build_keyword_comment_pattern_matches_common_variants() {
    let pattern = build_keyword_comment_pattern("//", "FREO").unwrap();

    assert!(pattern.is_match(b"//FREO"));
    assert!(pattern.is_match(b"//   FREO fix later"));
    assert!(pattern.is_match(b"//FREO: something"));
    assert!(!pattern.is_match(b"//FREOL"));
}

#[test]
fn build_keyword_comment_pattern_escapes_special_characters() {
    let pattern = build_keyword_comment_pattern("/*", "FREO+").unwrap();

    assert!(pattern.is_match(b"/* FREO+fix */"));
    assert!(pattern.is_match(b"/*FREO+fix*/"));
    assert!(!pattern.is_match(b"// FREO+fix"));
}

#[test]
fn strip_keyword_comment_truncates_trailing_matching_comment() {
    let pattern = build_keyword_comment_pattern("//", "FREO").unwrap();
    let result = strip("let x = 5; // FREO: remove debug", &pattern, "//");

    assert_eq!(result, "let x = 5;");
}

#[test]
fn strip_keyword_comment_preserves_newline_when_matching_comment_is_trailing() {
    let pattern = build_keyword_comment_pattern("//", "FREO").unwrap();
    let result = strip("let x = 5; // FREO: remove debug\n", &pattern, "//");

    assert_eq!(result, "let x = 5;\n");
}

#[test]
fn strip_keyword_comment_returns_empty_when_only_matching_comment_remains() {
    let pattern = build_keyword_comment_pattern("//", "FREO").unwrap();

    let result = strip("// FREO clean up\n", &pattern, "//");
    assert_eq!(result, "");

    let result = strip("// FREO clean up", &pattern, "//");
    assert_eq!(result, "");
}

#[test]
fn strip_keyword_comment_returns_original_line_if_no_match() {
    let pattern = build_keyword_comment_pattern("//", "FREO").unwrap();
    let original = "let x = 5; // NOTE keep";
    let result = strip(original, &pattern, "//");

    assert_eq!(result, original);
}

#[test]
fn strip_keyword_comment_ignores_keyword_inside_string_literal() {
    let pattern = build_keyword_comment_pattern("//", "FREO").unwrap();
    let original = r#"println!("FREO: keep this string");"#;

    let result = strip(original, &pattern, "//");

    assert_eq!(result, original);

    let original = r#"//println!("FREO: keep this string");"#;

    let result = strip(original, &pattern, "//");

    assert_eq!(result, original);
}

#[test]
fn strip_keyword_comment_ignores_a_comment_token_inside_a_string_literal() {
    let hash_pattern = build_keyword_comment_pattern("#", "FREO").unwrap();
    let original = r##"x = "#FREO in a string""##;

    assert_eq!(strip(original, &hash_pattern, "#"), original);

    let slash_pattern = build_keyword_comment_pattern("//", "FREO").unwrap();
    let original = "let url = \"http://FREO.example/docs\";";

    assert_eq!(strip(original, &slash_pattern, "//"), original);
}

#[test]
fn strip_keyword_comment_still_strips_a_comment_that_follows_a_string_literal() {
    let pattern = build_keyword_comment_pattern("#", "FREO").unwrap();
    let result = strip("print('#FREO') # FREO: drop this\n", &pattern, "#");

    assert_eq!(result, "print('#FREO')\n");
}

#[test]
fn strip_keyword_comment_falls_back_to_the_first_token_when_quotes_do_not_balance() {
    let pattern = build_keyword_comment_pattern("//", "FREO").unwrap();
    let result = strip("fn first<'a>(x: &str) {} // FREO: tidy", &pattern, "//");

    assert_eq!(result, "fn first<'a>(x: &str) {}");
}

#[test]
fn strip_keyword_comment_keeps_a_comment_that_only_mentions_the_keyword() {
    let pattern = build_keyword_comment_pattern("//", "FREO").unwrap();

    for original in [
        // The second token is what used to turn this into a match.
        "// see the // FREO-BEGIN block above",
        "// see the FREO-BEGIN block above",
        "// TODO FREO: this is prose about the tool",
        "let x = 5; // note: FREO strips these",
        "//! the FREO keyword is configurable",
    ] {
        assert_eq!(
            strip(original, &pattern, "//"),
            original,
            "should have been left alone: {original}"
        );
    }
}

#[test]
fn strip_keyword_comment_requires_the_keyword_to_open_the_comment() {
    let pattern = build_keyword_comment_pattern("//", "FREO").unwrap();

    // Opening the comment: removed.
    assert_eq!(strip("// FREO: go", &pattern, "//"), "");
    assert_eq!(strip("//FREO go", &pattern, "//"), "");
    assert_eq!(strip("let x = 5;   // FREO go", &pattern, "//"), "let x = 5;");

    // One word into the comment: kept.
    let original = "// a FREO: go";
    assert_eq!(strip(original, &pattern, "//"), original);
}

#[test]
fn strip_keyword_comment_keeps_a_later_comment_that_opens_with_the_keyword() {
    // The first `//` opens the comment, so everything after it is one
    // comment body, and that body does not start with the keyword.
    let pattern = build_keyword_comment_pattern("//", "FREO").unwrap();
    let original = "let x = 5; // note // FREO: go";

    assert_eq!(strip(original, &pattern, "//"), original);
}

#[test]
fn find_comment_start_classifies_lines() {
    assert_eq!(comment_start("let x = 5; // note", "//"), CommentStart::At(11));
    assert_eq!(comment_start(r#"x = "// note""#, "//"), CommentStart::NoComment);
    assert_eq!(comment_start("let y = 5;", "//"), CommentStart::NoComment);
    assert_eq!(comment_start("it's fine // note", "//"), CommentStart::Unknown);
    assert_eq!(comment_start(r#"x = "a\"// b""#, "//"), CommentStart::NoComment);
    assert_eq!(comment_start("let e = \"é\"; // t", "//"), CommentStart::At(14));
}

#[test]
fn remove_matching_comments_from_stream_filters_matching_lines() {
    let input = "let x = 5; // FREO remove\nlet y = 6; // keep\n// FREO delete me\n";
    let mut output = Vec::new();

    remove_matching_comments_from_stream("//", "FREO", input, &mut output).unwrap();

    assert_eq!(String::from_utf8(output).unwrap(), "let x = 5;\nlet y = 6; // keep\n");
}

#[test]
fn remove_matching_comments_from_stream_leaves_input_unchanged_when_there_are_no_matches() {
    let input_text = "let x = 5;\nlet y = 6; // keep";

    let mut output = Vec::new();

    remove_matching_comments_from_stream("//", "FREO", input_text, &mut output).unwrap();

    assert_eq!(String::from_utf8(output).unwrap(), input_text);
}

#[test]
fn remove_matching_comments_from_stream_does_not_add_trailing_newline_when_input_has_none() {
    let input = "let x = 5; // FREO remove";
    let mut output = Vec::new();

    remove_matching_comments_from_stream("//", "FREO", input, &mut output).unwrap();

    assert_eq!(String::from_utf8(output).unwrap(), "let x = 5;");
}

#[test]
fn build_block_marker_pattern_matches_only_the_full_marker() {
    let pattern = build_block_marker_pattern("//", "FREO", BLOCK_BEGIN_SUFFIX).unwrap();

    assert!(pattern.is_match(b"// FREO-BEGIN"));
    assert!(pattern.is_match(b"//FREO-BEGIN"));
    assert!(pattern.is_match(b"  //  freo-begin  "));
    assert!(!pattern.is_match(b"// FREO-BEGINNING"));
    assert!(!pattern.is_match(b"// FREO-END"));
    assert!(!pattern.is_match(b"// FREO: ordinary"));
}

#[test]
fn build_block_marker_pattern_requires_the_marker_to_own_the_line() {
    let pattern = build_block_marker_pattern("//", "FREO", BLOCK_BEGIN_SUFFIX).unwrap();

    assert!(!pattern.is_match(b"    \"// FREO-BEGIN\\n\","));
    assert!(!pattern.is_match(b"let url = \"http://FREO-BEGIN\";"));
    assert!(!pattern.is_match(b"let a = 1; // FREO-BEGIN"));
}

#[test]
fn a_quoted_marker_does_not_open_a_block() {
    let output = run_stream(&[
        "let fixture = [\n",
        "    \"// FREO-BEGIN\\n\",\n",
        "    \"// FREO-END\\n\",\n",
        "];\n",
    ].concat())
    .unwrap();

    assert_eq!(
        output,
        "let fixture = [\n    \"// FREO-BEGIN\\n\",\n    \"// FREO-END\\n\",\n];\n"
    );
}

#[test]
fn a_block_opened_and_closed_on_one_line_does_not_stay_open() {
    let output = run_stream("// FREO-BEGIN short note // FREO-END\nkeep me\n").unwrap();

    assert_eq!(output, "keep me\n");
}

#[test]
fn a_marker_sharing_a_line_with_code_is_not_a_marker() {
    let output = run_stream("let a = 1; // FREO-BEGIN\nlet b = 2;\n").unwrap();

    assert_eq!(output, "let a = 1;\nlet b = 2;\n");
}

#[test]
fn block_markers_remove_every_line_between_them() {
    let output = run_stream(&[
        "fn main() {\n",
        "// FREO-BEGIN\n",
        "// the vendor API has no webhook yet, so we poll;\n",
        "// revisit once they ship one\n",
        "// FREO-END\n",
        "let x = 5;\n",
        "}\n",
    ].concat())
    .unwrap();

    assert_eq!(output, "fn main() {\nlet x = 5;\n}\n");
}

#[test]
fn block_markers_remove_non_comment_lines_between_them() {
    let output = run_stream("// FREO-BEGIN\nlet debug = 1;\n// FREO-END\nlet x = 5;\n").unwrap();

    assert_eq!(output, "let x = 5;\n");
}

#[test]
fn block_markers_are_case_insensitive() {
    let output = run_stream("// freo-begin\n// note\n// Freo-End\nkeep\n").unwrap();

    assert_eq!(output, "keep\n");
}

#[test]
fn a_trailing_end_marker_does_not_close_a_block() {
    let error = run_stream("// FREO-BEGIN\ndrop me\nlet b = 2; // FREO-END\n").unwrap_err();

    assert!(matches!(error, ProcessError::UnterminatedBlock { line: 1, .. }), "{error:?}");
    assert!(error.to_string().contains("line 1"), "{}", error.to_string());
}

#[test]
fn block_markers_do_not_nest_so_the_first_end_closes() {
    let output = run_stream(&[
        "// FREO-BEGIN\n",
        "// FREO-BEGIN\n",
        "// FREO-END\n",
        "keep me\n",
        "// FREO-END\n",
    ].concat())
    .unwrap();

    assert_eq!(output, "keep me\n");
}

#[test]
fn consecutive_blocks_are_each_removed() {
    let output = run_stream(&[
        "// FREO-BEGIN\n// one\n// FREO-END\n",
        "keep\n",
        "// FREO-BEGIN\n// two\n// FREO-END\n",
    ].concat())
    .unwrap();

    assert_eq!(output, "keep\n");
}

#[test]
fn unterminated_block_marker_is_an_error_so_nothing_is_persisted() {
    let error = run_stream("keep\n// FREO-BEGIN\n// note\n").unwrap_err();

    assert!(matches!(error, ProcessError::UnterminatedBlock { line: 2, .. }), "{error:?}");
    let message = error.to_string();
    assert!(message.contains("line 2"), "{message}");
    assert!(message.contains("FREO-END"), "{message}");
}

#[test]
fn stray_end_marker_is_stripped_as_an_ordinary_keyword_comment() {
    let output = run_stream("let x = 1;\n// FREO-END\nlet y = 2;\n").unwrap();

    assert_eq!(output, "let x = 1;\nlet y = 2;\n");
}

#[test]
fn block_markers_follow_a_custom_keyword() {
    let mut output = Vec::new();
    remove_matching_comments_from_stream(
        ";;",
        "ticket-123",
        ";; Ticket-123-BEGIN\n;; note\n;; ticket-123-end\nkeep\n",
        &mut output,
    )
    .unwrap();

    assert_eq!(String::from_utf8(output).unwrap(), "keep\n");
}

#[test]
fn unterminated_block_message_names_the_whole_line_number() {
    let mut input = String::new();
    for _ in 0..1204 {
        input.push_str("keep\n");
    }
    input.push_str("// FREO-BEGIN\nnote\n");
    let error = run_stream(&input).unwrap_err();
    assert_eq!(
        error.to_string(),
        "unterminated FREO-BEGIN block opened on line 1205 (expected a matching FREO-END on a line of its own); no files were modified"
    );
}

#[test]
fn a_rejected_pattern_is_reported_and_nothing_is_written() {
    let keyword = "a".repeat(2_000_000);
    let mut output = vec![1u8];
    let result = remove_matching_comments_from_stream("//", &keyword, "keep\n", &mut output);
    assert!(matches!(result, Err(ProcessError::InvalidPattern)));
    assert_eq!(output, vec![1u8]);
}

#[test]
fn output_is_appended_after_what_the_buffer_held() {
    let mut output = b"head\n".to_vec();
    remove_matching_comments_from_stream("#", "FREO", "x = 1 # freo: go\ny\n", &mut output).unwrap();
    assert_eq!(String::from_utf8(output).unwrap(), "head\nx = 1\ny\n");
}

#[test]
fn output_only_deletes_bytes_of_the_input() {
    let input = "a // FREO x\n\"q\" // FREO-BEGIN\n// FREO-BEGIN\nz\n// FREO-END\nlast // keep";
    let output = run_stream(input).unwrap();
    let mut rest = input.bytes();
    for byte in output.bytes() {
        assert!(rest.any(|b| b == byte), "{output:?} is not a subsequence of {input:?}");
    }
    assert_eq!(output, "a\n\"q\"\nlast // keep");
}

#[test]
fn stripping_keeps_the_code_and_drops_blank_leftovers() {
    let pattern = build_keyword_comment_pattern("--", "FREO").unwrap();
    assert_eq!(strip("SELECT 1; \t -- FREO drop", &pattern, "--"), "SELECT 1;");
    assert_eq!(strip("\u{3000} -- FREO drop\n", &pattern, "--"), "");
    assert_eq!(strip("SELECT 1; -- FREO drop\r\n", &pattern, "--"), "SELECT 1;\r\n");
}

#[test]
fn remove_span_drops_a_blank_remainder() {
    assert_eq!(remove_span(b"abc def", 3, 7), b"abc".to_vec());
    assert_eq!(remove_span(b" \t// x\n", 2, 6), Vec::<u8>::new());
    assert_eq!(remove_span(b"abc", 0, 0), b"abc".to_vec());
}

#[test]
fn inline_end_marker_matches_anywhere() {
    let pattern = build_inline_block_marker_pattern("//", "FREO", BLOCK_END_SUFFIX).unwrap();
    assert!(pattern.is_match(b"text // freo-end more"));
    assert_eq!(pattern.find_at(b"// FREO-END", 0), Some((0, 11)));
    assert_eq!(pattern.find_at(b"// FREO-END", 1), None);
}

#[test]
fn a_comment_with_multi_byte_characters_is_cut_whole() {
    let pattern = build_keyword_comment_pattern("//", "FREO").unwrap();
    assert_eq!(strip("x // FREO é\n", &pattern, "//"), "x\n");
}
