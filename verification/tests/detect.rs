use msvc_cache::{
    detect_showincludes_prefix, detection_arguments, DetectError, PrefixSearch, SearchStep,
};

/// Runs a search to its end, with `existing` as the files on disk.
/// Returns the prefix found and the paths asked for.
fn drive(mut search: PrefixSearch, existing: &[&str]) -> (Option<String>, Vec<String>) {
    let mut asked = Vec::new();
    loop {
        let path = match search.pending() {
            Some(path) => path.clone(),
            None => return (None, asked),
        };
        let present = existing.contains(&path.as_str());
        asked.push(path);
        match search.answer(present) {
            SearchStep::Found(prefix) => return (Some(prefix), asked),
            SearchStep::Continue(rest) => search = rest,
            SearchStep::NotFound => return (None, asked),
        }
    }
}

/// What a scripted compiler leaves behind.
struct MockChild {
    success: bool,
    stdout: Vec<u8>,
    stderr: Vec<u8>,
}

impl MockChild {
    fn new(status: i32, stdout: &str, stderr: &str) -> MockChild {
        MockChild {
            success: status == 0,
            stdout: stdout.as_bytes().to_vec(),
            stderr: stderr.as_bytes().to_vec(),
        }
    }
}

/// A directory of the files that tests say exist.
struct TestFixture {
    files: Vec<String>,
}

impl TestFixture {
    fn new() -> TestFixture {
        TestFixture { files: vec![] }
    }

    fn touch(&mut self, name: &str) -> String {
        let path = format!("/tmp/fixture/{}", name);
        self.files.push(path.clone());
        path
    }
}

/// Plays the caller of the detection: runs the probe compilation, of
/// which only standard output is kept, and looks for files in `f`.
fn detect(child: MockChild, exe: &str, f: &TestFixture) -> Result<String, DetectError> {
    let command = detection_arguments("/tmp/probe/test.c");
    assert!(!exe.is_empty() && command.len() == 5);
    let MockChild { success, stdout, stderr: _discarded } = child;
    let search = detect_showincludes_prefix(success, &stdout)?;
    let existing: Vec<&str> = f.files.iter().map(|p| p.as_str()).collect();
    drive(search, &existing).0.ok_or(DetectError::NotDetected)
}

#[test]
fn test_detect_showincludes_prefix() {
    let mut f = TestFixture::new();
    let srcfile = f.touch("stdio.h");
    let mut s = srcfile.as_str();
    if s.starts_with("\\\\?\\") {
        s = &s[4..];
    }
    let stdout = format!("blah: {}\r\n", s);
    let stderr = String::from("some\r\nstderr\r\n");
    let child = MockChild::new(0, &stdout, &stderr);
    assert_eq!("blah: ", detect(child, "cl.exe", &f).unwrap());
}

#[test]
fn failed_probe_compilation_detects_nothing() {
    let stdout = "blah: /tmp/fixture/stdio.h\r\n".to_string().into_bytes();
    assert_eq!(Err(DetectError::NotDetected), detect_showincludes_prefix(false, &stdout));
}

// This byte is no text where the code page is UTF-8, as it is wherever
// the tests run; under another code page it may well decode.
#[test]
fn output_that_is_no_text_is_an_error() {
    assert_eq!(
        Err(DetectError::InvalidText),
        detect_showincludes_prefix(true, &vec![b'a', 0xff, b'\n'])
    );
}

#[test]
fn empty_output_leaves_nothing_to_try() {
    let search = detect_showincludes_prefix(true, &vec![]).unwrap();
    assert_eq!(None, search.pending());
    assert_eq!(SearchStep::NotFound, search.answer(true));
}

#[test]
fn spaces_are_tried_from_the_right() {
    let line = "Note: including file: C:/Program Files/x/stdio.h";
    let search = PrefixSearch::over(line);
    let (prefix, asked) = drive(search, &["C:/Program Files/x/stdio.h"]);
    assert_eq!(Some("Note: including file: ".to_string()), prefix);
    assert_eq!(asked, &["Files/x/stdio.h", "C:/Program Files/x/stdio.h"]);
}

#[test]
fn all_spaces_of_a_line_are_tried_before_the_next_line() {
    let text = "a b stdio.h\nother line\nc d/stdio.h\r\nstdio.h\n e stdio.h";
    let (prefix, asked) = drive(PrefixSearch::over(text), &[]);
    assert_eq!(None, prefix);
    assert_eq!(
        asked,
        &["stdio.h", "b stdio.h", "d/stdio.h", "stdio.h", "e stdio.h"]
    );
}

#[test]
fn lines_that_do_not_end_with_the_header_are_passed_over() {
    let text = "x: /a/stdio.hh\ny: /a/stdio.h \nz: /a/stdio.h\r\r\nw: /b/stdio.h\n";
    let (prefix, asked) = drive(PrefixSearch::over(text), &["/a/stdio.h", "/b/stdio.h"]);
    assert_eq!(Some("w: ".to_string()), prefix);
    assert_eq!(asked, &["/b/stdio.h"]);
}

#[test]
fn carriage_return_without_line_feed_stays_in_the_line() {
    let (prefix, asked) = drive(PrefixSearch::over("w: /b/stdio.h\r"), &["/b/stdio.h"]);
    assert_eq!(None, prefix);
    assert!(asked.is_empty());
}

#[test]
fn first_existing_path_ends_the_search() {
    let text = "p: /a/stdio.h\nq: /b/stdio.h\n";
    let (prefix, asked) = drive(PrefixSearch::over(text), &["/a/stdio.h", "/b/stdio.h"]);
    assert_eq!(Some("p: ".to_string()), prefix);
    assert_eq!(asked, &["/a/stdio.h"]);
}

#[test]
fn prefix_may_be_a_single_space() {
    let (prefix, _) = drive(PrefixSearch::over(" stdio.h"), &["stdio.h"]);
    assert_eq!(Some(" ".to_string()), prefix);
}

#[test]
fn search_without_a_hit_ends_not_found() {
    let search = PrefixSearch::over("p: /a/stdio.h");
    assert_eq!(Some(&"/a/stdio.h".to_string()), search.pending());
    match search.answer(false) {
        SearchStep::Continue(rest) => {
            assert_eq!(None, rest.pending());
            assert_eq!(SearchStep::NotFound, rest.answer(false));
        }
        o => panic!("unexpected step: {:?}", o),
    }
}

#[test]
fn probe_compilation_arguments() {
    assert_eq!(
        detection_arguments("/tmp/x/test.c"),
        &["-nologo", "-showIncludes", "-c", "-Fonul", "/tmp/x/test.c"]
    );
}

#[test]
fn probe_source_pulls_in_the_header() {
    assert_eq!("test.c", msvc_cache::probe_source_name());
    assert_eq!(b"#include <stdio.h>\n".to_vec(), msvc_cache::probe_source());
}
