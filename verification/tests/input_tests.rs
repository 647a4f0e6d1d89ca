use bpaste::errors::InputError;
use bpaste::input::{
    clipboard_content, detect_input_source, filename_of_path, make_clipboard_content,
    make_stdin_content, read_file_input, stdin_content, File, InputSource,
};

#[test]
fn no_argument_selects_clipboard() {
    assert!(matches!(detect_input_source(&None), InputSource::Clipboard));
}

#[test]
fn dash_selects_stdin() {
    assert!(matches!(detect_input_source(&Some("-".to_string())), InputSource::Stdin));
}

#[test]
fn path_selects_file() {
    match detect_input_source(&Some("foo.txt".to_string())) {
        InputSource::File(p) => assert_eq!(p, "foo.txt"),
        _ => panic!("expected a file source"),
    }
}

#[test]
fn filename_is_last_component() {
    assert_eq!(filename_of_path("dir/sub/foo.txt"), "foo.txt");
    assert_eq!(filename_of_path("foo"), "foo");
    assert_eq!(filename_of_path("a/b/"), "b");
}

#[test]
fn filename_unknown_when_underivable() {
    assert_eq!(filename_of_path("/"), "unknown");
    assert_eq!(filename_of_path(""), "unknown");
    assert_eq!(filename_of_path("."), "unknown");
    assert_eq!(filename_of_path("./."), "unknown");
    assert_eq!(filename_of_path("a/.."), "unknown");
}

#[test]
fn filename_skips_trailing_dot_components() {
    assert_eq!(filename_of_path("foo.txt/."), "foo.txt");
    assert_eq!(filename_of_path("a/b/./"), "b");
}

#[test]
fn missing_file_is_an_error() {
    match read_file_input(&"no/such".to_string(), false, false) {
        Err(InputError::FileNotFound(p)) => assert_eq!(p, "no/such"),
        _ => panic!("expected FileNotFound"),
    }
}

#[test]
fn directory_is_an_error() {
    match read_file_input(&"some/dir".to_string(), true, true) {
        Err(InputError::IsADirectory(p)) => assert_eq!(p, "some/dir"),
        _ => panic!("expected IsADirectory"),
    }
}

#[test]
fn existing_file_keeps_a_path_reference() {
    let fc = read_file_input(&"dir/data.bin".to_string(), true, false).unwrap();
    assert_eq!(fc.filename, "data.bin");
    match fc.content {
        File::Path(p) => assert_eq!(p, "dir/data.bin"),
        File::Bytes(_) => panic!("expected a path reference"),
    }
}

#[test]
fn empty_stdin_is_an_error() {
    assert!(matches!(make_stdin_content(Vec::new(), "20240101-000000"), Err(InputError::EmptyStdin)));
}

#[test]
fn stdin_content_is_stamped() {
    let fc = make_stdin_content(b"hello".to_vec(), "20240101-000000").unwrap();
    assert_eq!(fc.filename, "stdin-20240101-000000");
    match fc.content {
        File::Bytes(b) => assert_eq!(b, b"hello".to_vec()),
        File::Path(_) => panic!("expected in-memory bytes"),
    }
}

#[test]
fn empty_clipboard_is_an_error() {
    assert!(matches!(
        make_clipboard_content(String::new(), "20240101-000000"),
        Err(InputError::EmptyClipboard)
    ));
}

#[test]
fn clipboard_content_is_utf8_bytes() {
    let fc = make_clipboard_content("héllo".to_string(), "20240101-000000").unwrap();
    assert_eq!(fc.filename, "clipboard-20240101-000000");
    match fc.content {
        File::Bytes(b) => assert_eq!(b, "héllo".as_bytes().to_vec()),
        File::Path(_) => panic!("expected in-memory bytes"),
    }
}

#[test]
fn stamped_stdin_filename_has_timestamp_shape() {
    let fc = stdin_content(b"x".to_vec()).unwrap();
    assert!(fc.filename.starts_with("stdin-"));
    let ts = &fc.filename["stdin-".len()..];
    assert_eq!(ts.len(), 15);
    assert_eq!(ts.as_bytes()[8], b'-');
}

#[test]
fn stamped_clipboard_filename_has_timestamp_shape() {
    let fc = clipboard_content("x".to_string()).unwrap();
    assert!(fc.filename.starts_with("clipboard-"));
    let ts = &fc.filename["clipboard-".len()..];
    assert_eq!(ts.len(), 15);
    assert_eq!(ts.as_bytes()[8], b'-');
}
