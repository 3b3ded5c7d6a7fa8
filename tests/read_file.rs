use mcp_client::read_file::{
    is_header_like, limit, max_levels, measure_indent, offset, read, read_block, trim_line_ending,
    include_header, include_siblings, IndentationArgs, ReadFileArgs, ReadFileError, ReadFileHandler,
    ReadMode, MAX_LINE_LENGTH,
};

fn file_lines(content: &[u8]) -> Vec<Vec<u8>> {
    let mut out = Vec::new();
    let mut current = Vec::new();
    for b in content {
        current.push(*b);
        if *b == b'\n' {
            let mut line = std::mem::take(&mut current);
            trim_line_ending(&mut line);
            out.push(line);
        }
    }
    if !current.is_empty() {
        trim_line_ending(&mut current);
        out.push(current);
    }
    out
}

fn text_lines(lines: &[&str]) -> Vec<Vec<u8>> {
    let mut content = String::new();
    for l in lines {
        content.push_str(l);
        content.push('\n');
    }
    file_lines(content.as_bytes())
}

fn ok(r: Result<Vec<String>, ReadFileError>) -> Vec<String> {
    match r {
        Ok(v) => v,
        Err(e) => panic!("unexpected error: {}", e.message()),
    }
}

#[test]
fn reads_requested_range() {
    let lines = text_lines(&["alpha", "beta", "gamma"]);
    let got = ok(read(&lines, 2, 2));
    assert_eq!(got, vec!["L2: beta".to_string(), "L3: gamma".to_string()]);
}

#[test]
fn errors_when_offset_exceeds_length() {
    let lines = text_lines(&["only"]);
    let err = read(&lines, 3, 1).err().expect("offset exceeds length");
    assert!(matches!(err, ReadFileError::OffsetExceedsLength));
    assert_eq!(err.message(), "offset exceeds file length");
}

#[test]
fn reads_non_utf8_lines() {
    let lines = file_lines(b"\xff\xfe\nplain\n");
    let got = ok(read(&lines, 1, 2));
    let expected_first = format!("L1: {}{}", '\u{FFFD}', '\u{FFFD}');
    assert_eq!(got, vec![expected_first, "L2: plain".to_string()]);
}

#[test]
fn trims_crlf_endings() {
    let lines = file_lines(b"one\r\ntwo\r\n");
    let got = ok(read(&lines, 1, 2));
    assert_eq!(got, vec!["L1: one".to_string(), "L2: two".to_string()]);
}

#[test]
fn respects_limit_even_with_more_lines() {
    let lines = text_lines(&["first", "second", "third"]);
    let got = ok(read(&lines, 1, 2));
    assert_eq!(got, vec!["L1: first".to_string(), "L2: second".to_string()]);
}

#[test]
fn truncates_lines_longer_than_max_length() {
    let long_line = "x".repeat(MAX_LINE_LENGTH + 50);
    let lines = text_lines(&[long_line.as_str()]);
    let got = ok(read(&lines, 1, 1));
    let expected = "x".repeat(MAX_LINE_LENGTH);
    assert_eq!(got, vec![format!("L1: {expected}")]);
}

#[test]
fn truncation_keeps_whole_characters() {
    // 499 ASCII bytes then a two-byte character: it does not fit in 500 bytes.
    let line = format!("{}é", "a".repeat(499));
    let lines = text_lines(&[line.as_str()]);
    let got = ok(read(&lines, 1, 1));
    assert_eq!(got, vec![format!("L1: {}", "a".repeat(499))]);
}

#[test]
fn indentation_mode_captures_block() {
    let lines = text_lines(&[
        "fn outer() {",
        "    if cond {",
        "        inner();",
        "    }",
        "    tail();",
        "}",
    ]);
    let mut options = IndentationArgs::default();
    options.anchor_line = Some(3);
    options.include_siblings = false;
    let got = ok(read_block(&lines, 3, 10, options));
    assert_eq!(
        got,
        vec![
            "L2:     if cond {".to_string(),
            "L3:         inner(); <- anchor".to_string(),
            "L4:     }".to_string()
        ]
    );
}

fn nested_module() -> Vec<Vec<u8>> {
    text_lines(&[
        "mod root {",
        "    fn outer() {",
        "        if cond {",
        "            inner();",
        "        }",
        "    }",
        "}",
    ])
}

#[test]
fn indentation_mode_expands_parents() {
    let lines = nested_module();
    let mut options = IndentationArgs::default();
    options.anchor_line = Some(4);
    options.max_levels = 1;
    let got = ok(read_block(&lines, 4, 50, options));
    assert_eq!(
        got,
        vec![
            "L2:     fn outer() {".to_string(),
            "L3:         if cond {".to_string(),
            "L4:             inner(); <- anchor".to_string(),
            "L5:         }".to_string(),
            "L6:     }".to_string(),
        ]
    );

    let mut options = IndentationArgs::default();
    options.anchor_line = Some(4);
    options.max_levels = 2;
    let expanded = ok(read_block(&lines, 4, 50, options));
    assert_eq!(
        expanded,
        vec![
            "L1: mod root {".to_string(),
            "L2:     fn outer() {".to_string(),
            "L3:         if cond {".to_string(),
            "L4:             inner(); <- anchor".to_string(),
            "L5:         }".to_string(),
            "L6:     }".to_string(),
            "L7: }".to_string(),
        ]
    );
}

#[test]
fn indentation_mode_truncates_with_guard() {
    let mut body = vec!["fn sample() {"];
    for _ in 0..20 {
        body.push("    body_line();");
    }
    body.push("}");
    let lines = text_lines(&body);
    let mut options = IndentationArgs::default();
    options.anchor_line = Some(5);
    options.max_lines = Some(5);
    let got = ok(read_block(&lines, 5, 100, options));
    assert_eq!(got.len(), 6);
    assert!(got.iter().any(|line| line.contains("<- anchor")));
    assert!(got.last().unwrap().contains("truncated"));
    assert_eq!(got.last().unwrap(), "... (truncated after 5 lines)");
}

fn two_branches() -> Vec<Vec<u8>> {
    text_lines(&[
        "fn wrapper() {",
        "    if first {",
        "        do_first();",
        "    }",
        "    if second {",
        "        do_second();",
        "    }",
        "}",
    ])
}

#[test]
fn indentation_mode_respects_sibling_flag() {
    let lines = two_branches();
    let mut options = IndentationArgs::default();
    options.anchor_line = Some(3);
    options.include_siblings = false;
    let got = ok(read_block(&lines, 3, 50, options));
    assert_eq!(
        got,
        vec![
            "L2:     if first {".to_string(),
            "L3:         do_first(); <- anchor".to_string(),
            "L4:     }".to_string(),
        ]
    );

    let mut options = IndentationArgs::default();
    options.anchor_line = Some(3);
    options.include_siblings = true;
    let with_siblings = ok(read_block(&lines, 3, 50, options));
    assert_eq!(
        with_siblings,
        vec![
            "L2:     if first {".to_string(),
            "L3:         do_first(); <- anchor".to_string(),
            "L4:     }".to_string(),
            "L5:     if second {".to_string(),
            "L6:         do_second();".to_string(),
            "L7:     }".to_string(),
        ]
    );
}

#[test]
fn indentation_mode_handles_python_sample() {
    let lines = text_lines(&[
        "class Foo:",
        "    def __init__(self, size):",
        "        self.size = size",
        "    def double(self, value):",
        "        if value is None:",
        "            return 0",
        "        result = value * self.size",
        "        return result",
        "class Bar:",
        "    def compute(self):",
        "        helper = Foo(2)",
        "        return helper.double(5)",
    ]);
    let mut options = IndentationArgs::default();
    options.anchor_line = Some(7);
    let got = ok(read_block(&lines, 7, 200, options));
    assert_eq!(
        got,
        vec![
            "L2:     def __init__(self, size):".to_string(),
            "L3:         self.size = size".to_string(),
            "L4:     def double(self, value):".to_string(),
            "L5:         if value is None:".to_string(),
            "L6:             return 0".to_string(),
            "L7:         result = value * self.size <- anchor".to_string(),
            "L8:         return result".to_string(),
        ]
    );
}

#[test]
fn block_read_errors() {
    let lines = text_lines(&["a", "b"]);
    let mut options = IndentationArgs::default();
    options.anchor_line = Some(0);
    assert!(matches!(read_block(&lines, 1, 10, options), Err(ReadFileError::AnchorLineZero)));
    let mut options = IndentationArgs::default();
    options.max_lines = Some(0);
    assert!(matches!(read_block(&lines, 1, 10, options), Err(ReadFileError::MaxLinesZero)));
    let options = IndentationArgs::default();
    assert!(matches!(read_block(&lines, 3, 10, options), Err(ReadFileError::AnchorExceedsLength)));
    let empty: Vec<Vec<u8>> = Vec::new();
    let options = IndentationArgs::default();
    assert!(matches!(read_block(&empty, 1, 10, options), Err(ReadFileError::AnchorExceedsLength)));
}

#[test]
fn header_lines_are_recognised() {
    assert!(is_header_like("/// docs"));
    assert!(is_header_like("#[derive(Debug)]"));
    assert!(is_header_like("#!/bin/sh"));
    assert!(is_header_like("@decorator"));
    assert!(is_header_like("\"\"\"docstring"));
    assert!(!is_header_like("# comment"));
    assert!(!is_header_like("// plain comment"));
    assert!(!is_header_like(""));
}

#[test]
fn indentation_counts_tabs_as_four() {
    let line: Vec<char> = "\t  x".chars().collect();
    assert_eq!(measure_indent(&line), 6);
    let blank: Vec<char> = "   ".chars().collect();
    assert_eq!(measure_indent(&blank), 3);
}

#[test]
fn line_endings_are_dropped() {
    let mut crlf = b"abc\r\n".to_vec();
    trim_line_ending(&mut crlf);
    assert_eq!(crlf, b"abc".to_vec());
    let mut bare_cr = b"abc\r".to_vec();
    trim_line_ending(&mut bare_cr);
    assert_eq!(bare_cr, b"abc\r".to_vec());
}

#[test]
fn defaults_match_the_tool_description() {
    assert_eq!(offset(), 1);
    assert_eq!(limit(), 2000);
    assert_eq!(max_levels(), 0);
    assert!(!include_siblings());
    assert!(include_header());
}

fn args(offset: usize, limit: usize, path: &str) -> ReadFileArgs {
    ReadFileArgs {
        file_path: path.to_string(),
        offset,
        limit,
        mode: ReadMode::default(),
        indentation: None,
    }
}

#[test]
fn handler_checks_arguments_and_joins_lines() {
    let handler = ReadFileHandler;
    let lines = text_lines(&["alpha", "beta"]);
    let err = handler.handle(args(0, 5, "/tmp/f"), &lines).err().unwrap();
    assert_eq!(err.message(), "offset must be a 1-indexed line number");
    let err = handler.handle(args(1, 0, "/tmp/f"), &lines).err().unwrap();
    assert_eq!(err.message(), "limit must be greater than zero");
    let err = handler.handle(args(1, 5, "relative/f"), &lines).err().unwrap();
    assert_eq!(err.message(), "file_path must be an absolute path");
    let out = match handler.handle(args(1, 5, "/tmp/f"), &lines) {
        Ok(s) => s,
        Err(e) => panic!("{}", e.message()),
    };
    assert_eq!(out, "L1: alpha\nL2: beta");
}
