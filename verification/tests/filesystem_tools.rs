use atombot::agent::tools::allowed_dir::{is_under, PathAccessError};
use atombot::agent::tools::filesystem::edit_file::EditFileTool;
use atombot::agent::tools::filesystem::list_dir::{DirEntryInfo, DirListing, ListDirTool};
use atombot::agent::tools::filesystem::read_file::{detect_image_mime, is_image_mime, FileRead, ReadFileTool};
use atombot::agent::tools::filesystem::write_file::WriteFileTool;
use atombot::agent::tools::{AllowedDirectoriesConfig, IoErrorKind, ToolError};

#[test]
fn read_file_limits() {
    assert_eq!(ReadFileTool::max_chars(), 128000);
    assert_eq!(ReadFileTool::default_limit(), 2000);
}

#[test]
fn read_whole_small_file() {
    let r = ReadFileTool::answer("f.txt", b"a\nb\nc".to_vec(), None, None).unwrap();
    assert_eq!(r, "1| a\n2| b\n3| c\n\n(End of file — 3 lines total)");
}

#[test]
fn read_page_with_hint() {
    let r = ReadFileTool::answer("f.txt", b"a\nb\nc".to_vec(), Some(2), Some(1)).unwrap();
    assert_eq!(r, "2| b\n\n(Showing lines 2-2 of 3. Use offset=3 to continue.)");
    let r = ReadFileTool::answer("f.txt", b"a\nb\n".to_vec(), Some(-4), None).unwrap();
    assert_eq!(r, "1| a\n2| b\n3| \n\n(End of file — 3 lines total)");
}

#[test]
fn read_offset_beyond_end() {
    let r = ReadFileTool::answer("f.txt", b"a\nb\nc".to_vec(), Some(5), None).unwrap();
    assert_eq!(r, "Error: offset 5 is beyond end of file (3 lines)");
}

#[test]
fn read_empty_image_and_binary_files() {
    assert_eq!(ReadFileTool::answer("e.txt", vec![], None, None).unwrap(), "(Empty file: e.txt)");
    let png = vec![0x89, 0x50, 0x4E, 0x47, 0x0D, 0x0A];
    assert_eq!(
        ReadFileTool::answer("p.png", png, None, None).unwrap(),
        "(Image file: p.png, 6 bytes, MIME: image/png)\n\nImage content cannot be displayed as text. The file is available at: p.png"
    );
    assert_eq!(
        ReadFileTool::answer("doc.pdf", vec![0xff, 0xfe, 0x00], None, None).unwrap(),
        "Error: Cannot read binary file doc.pdf (MIME: application/pdf). Only UTF-8 text and images are supported."
    );
    assert_eq!(
        ReadFileTool::answer("blob", vec![0xc3, 0x28], None, None).unwrap(),
        "Error: Cannot read binary file blob (MIME: unknown). Only UTF-8 text and images are supported."
    );
}

#[test]
fn read_overflowing_limit_is_refused() {
    // a negative limit wraps to a huge one; adding it to the start overflows
    assert_eq!(ReadFileTool::answer("f.txt", b"a\nb".to_vec(), Some(2), Some(-1)), None);
    // from the first line it does not overflow and reads to the end
    assert_eq!(
        ReadFileTool::answer("f.txt", b"a\nb".to_vec(), Some(1), Some(-1)).unwrap(),
        "1| a\n2| b\n\n(End of file — 2 lines total)"
    );
}

#[test]
fn read_truncates_by_character_cap() {
    let line = "x".repeat(1000);
    let content = vec![line.as_str(); 200].join("\n");
    let r = ReadFileTool::answer("big.txt", content.into_bytes(), None, None).unwrap();
    // each numbered line of the first 9 is "N| " + 1000 chars; 10..=99 add a digit
    assert!(r.ends_with("\n(Showing lines 1-127 of 200 total. Use offset=128 to continue.)"));
    assert!(r.contains("...\n\n(truncated, showing first 128000 chars)\n"));
}

#[test]
fn image_detection() {
    assert_eq!(detect_image_mime(&[0x89, 0x50, 0x4E, 0x47]), Some("image/png"));
    assert_eq!(detect_image_mime(&[0xFF, 0xD8, 0xFF]), Some("image/jpeg"));
    assert_eq!(detect_image_mime(&[0x47, 0x49, 0x46, 0x38]), Some("image/gif"));
    assert_eq!(detect_image_mime(b"RIFF\x24\x08\x00\x00WEBPVP8 "), Some("image/webp"));
    // a WAV file is a RIFF container too, but not an image
    assert_eq!(detect_image_mime(b"RIFF\x24\x08\x00\x00WAVEfmt "), None);
    assert_eq!(detect_image_mime(&[0x52, 0x49, 0x46, 0x46, 0]), None);
    assert_eq!(detect_image_mime(&[0x42, 0x4D]), Some("image/bmp"));
    assert_eq!(detect_image_mime(&[0x89, 0x50, 0x4E]), None);
    assert_eq!(detect_image_mime(&[]), None);
    assert!(is_image_mime("image/svg+xml"));
    assert!(!is_image_mime("text/plain"));
}

#[test]
fn paths_under_directories() {
    assert!(is_under(Some("/a/b/c"), Some("/a/b")));
    assert!(is_under(Some("/a/b"), Some("/a/b/")));
    assert!(is_under(Some("/a//b/./c"), Some("/a/b")));
    assert!(!is_under(Some("/a/bc"), Some("/a/b")));
    assert!(!is_under(Some("/a"), Some("/a/b")));
    assert!(!is_under(None, Some("/a")));
    assert!(!is_under(Some("/a"), None));
    assert!(!is_under(Some("a/b"), Some("/a")));
    // every path lies under itself, and nesting carries over
    assert!(is_under(Some("/a/b"), Some("/a/b")));
    assert!(is_under(Some("/a/b"), Some("/a")) && is_under(Some("/a/b/c"), Some("/a")));
}

#[test]
fn allowed_directories_decide_access() {
    let config = AllowedDirectoriesConfig::new()
        .with_workspace("/work")
        .with_allowed_dir("/shared")
        .with_extra_allowed_dirs(vec!["/tmp/x".to_string()]);
    assert_eq!(config.candidate_dirs(), vec!["/work".to_string(), "/shared".to_string(), "/tmp/x".to_string()]);
    let canon = vec![
        ("/work".to_string(), Some("/work".to_string())),
        ("/shared".to_string(), None),
        ("/tmp/x".to_string(), Some("/tmp/x".to_string())),
    ];
    assert_eq!(config.canonicalize_under_allowed(Ok("/tmp/x/f".to_string()), &canon), Ok("/tmp/x/f".to_string()));
    assert_eq!(
        config.canonicalize_under_allowed(Ok("/shared/f".to_string()), &canon),
        Err(PathAccessError::PermissionDenied)
    );
    assert_eq!(
        config.canonicalize_under_allowed(Err((IoErrorKind::NotFound, "No such file".to_string())), &canon),
        Err(PathAccessError::Io(IoErrorKind::NotFound, "No such file".to_string()))
    );
    let stranger = vec![("/etc".to_string(), Some("/etc".to_string()))];
    assert_eq!(
        config.canonicalize_under_allowed(Ok("/etc/passwd".to_string()), &stranger),
        Err(PathAccessError::PermissionDenied)
    );
    assert_eq!(
        AllowedDirectoriesConfig::new().canonicalize_under_allowed(Ok("/etc/passwd".to_string()), &stranger),
        Err(PathAccessError::PermissionDenied)
    );
    assert_eq!(PathAccessError::PermissionDenied.message(), "Path is not under any allowed directory");
    assert_eq!(
        PathAccessError::PermissionDenied.to_tool_error(),
        ToolError::Io(IoErrorKind::PermissionDenied, "Path is not under any allowed directory".to_string())
    );
    assert_eq!(
        PathAccessError::Io(IoErrorKind::NotFound, "gone".to_string()).to_tool_error(),
        ToolError::Io(IoErrorKind::NotFound, "gone".to_string())
    );
}

fn entry(name: &str, is_dir: bool) -> DirEntryInfo {
    DirEntryInfo { name: name.to_string(), is_dir }
}

#[test]
fn list_flat_directory() {
    let entries = vec![entry(".git", true), entry("a.txt", false), entry("src", true), entry("node_modules", true)];
    assert_eq!(ListDirTool::render("proj", &entries, false, None), "📄 a.txt\n📁 src");
    assert_eq!(
        ListDirTool::render("proj", &entries, false, Some(1)),
        "📄 a.txt\n\n(truncated, showing first 1 of 2 entries)"
    );
    assert_eq!(ListDirTool::render("proj", &vec![entry(".git", true)], false, None), "Directory proj is empty");
}

#[test]
fn list_recursive_directory() {
    let entries = vec![entry("src", true), entry("src/main.rs", false)];
    assert_eq!(ListDirTool::render("p", &entries, true, None), "src/\nsrc/main.rs");
    assert!(ListDirTool::is_ignored("__pycache__"));
    assert!(!ListDirTool::is_ignored("src"));
}

#[test]
fn list_dir_argument_errors() {
    assert_eq!(ListDirTool::check_args(""), Err(ToolError::InvalidArgs("path is required".to_string())));
    assert_eq!(ListDirTool::not_a_directory("f"), ToolError::Execution("Not a directory: f".to_string()));
}

#[test]
fn edit_replaces_single_occurrence() {
    let r = EditFileTool::edit("f", b"one two three", "two", "2", false).unwrap();
    assert_eq!(r, "one 2 three");
}

#[test]
fn edit_keeps_crlf_endings() {
    let r = EditFileTool::edit("f", b"a\r\nb\r\nc", "b\nc", "B\nC", false).unwrap();
    assert_eq!(r, "a\r\nB\r\nC");
}

#[test]
fn edit_refuses_missing_or_ambiguous_text() {
    assert_eq!(
        EditFileTool::edit("f.txt", b"abc", "zz", "y", false),
        Err(ToolError::Execution("old_text not found in f.txt. Provide more context to make it unique.".to_string()))
    );
    assert_eq!(
        EditFileTool::edit("f.txt", b"aXaXa", "a", "b", false),
        Err(ToolError::Execution(
            "Warning: old_text appears 3 times. Provide more context to make it unique, or set replace_all=true."
                .to_string()
        ))
    );
    assert_eq!(EditFileTool::edit("f.txt", b"aXaXa", "a", "b", true).unwrap(), "bXbXb");
    assert_eq!(EditFileTool::edit("f.txt", b"aaaa", "aa", "b", true).unwrap(), "bb");
}

#[test]
fn edit_and_write_argument_checks() {
    assert_eq!(EditFileTool::check_args("", "x"), Err(ToolError::InvalidArgs("path is required".to_string())));
    assert_eq!(EditFileTool::check_args("p", ""), Err(ToolError::InvalidArgs("old_text is required".to_string())));
    assert_eq!(EditFileTool::check_args("p", "x"), Ok(()));
    assert_eq!(EditFileTool::success_message("/w/f"), "Successfully edited /w/f");
    assert_eq!(WriteFileTool::check_args("", "x"), Err(ToolError::InvalidArgs("path is required".to_string())));
    assert_eq!(WriteFileTool::check_args("p", ""), Err(ToolError::InvalidArgs("content is required".to_string())));
    assert_eq!(WriteFileTool::success_message("héllo", "/w/f"), "Successfully wrote 6 bytes to /w/f");
}

#[test]
fn read_reports_what_was_found() {
    assert_eq!(ReadFileTool::respond("/w/x", FileRead::Missing, None, None), Some("Error: File not found: /w/x".to_string()));
    assert_eq!(ReadFileTool::respond("/w", FileRead::NotAFile, None, None), Some("Error: Not a file: /w".to_string()));
    assert_eq!(
        ReadFileTool::respond("/w/x", FileRead::ReadFailed("denied".to_string()), None, None),
        Some("Error reading file: denied".to_string())
    );
    assert_eq!(
        ReadFileTool::respond("/w/x", FileRead::Bytes(b"a\nb".to_vec()), None, None),
        ReadFileTool::answer("/w/x", b"a\nb".to_vec(), None, None)
    );
}

#[test]
fn list_reports_what_was_found() {
    assert_eq!(
        ListDirTool::respond("f", DirListing::NotADirectory, false, None),
        Err(ToolError::Execution("Not a directory: f".to_string()))
    );
    assert_eq!(
        ListDirTool::respond("d", DirListing::Unreadable(IoErrorKind::PermissionDenied, "denied".to_string()), false, None),
        Err(ToolError::Io(IoErrorKind::PermissionDenied, "denied".to_string()))
    );
    assert_eq!(
        ListDirTool::respond("d", DirListing::Entries(vec![entry("a", false)]), false, None),
        Ok("📄 a".to_string())
    );
}

#[test]
fn edit_tolerates_whitespace_differences() {
    let r = EditFileTool::edit("f", b"let x  =  1;\n", "let x = 1;", "let x = 2;", false);
    assert_eq!(r, Ok("let x = 2;\n".to_string()));
    // tabs and spaces are interchangeable, but a blank must be there
    let r = EditFileTool::edit("f", b"fn\tmain() {}\n", "fn main() {}", "fn start() {}", false);
    assert_eq!(r, Ok("fn start() {}\n".to_string()));
    assert!(EditFileTool::edit("f", b"letx = 1;", "let x = 1;", "y", false).is_err());
    // an exact occurrence takes precedence over loose ones
    let r = EditFileTool::edit("f", b"a  b\na b\n", "a b", "c", false);
    assert_eq!(r, Ok("a  b\nc\n".to_string()));
    // loose matches are counted too
    let r = EditFileTool::edit("f", b"a  b\na\tb\n", "a b", "c", false);
    assert_eq!(
        r,
        Err(ToolError::Execution(
            "Warning: old_text appears 2 times. Provide more context to make it unique, or set replace_all=true.".to_string()
        ))
    );
    let r = EditFileTool::edit("f", b"a  b\na\tb\n", "a b", "c", true);
    assert_eq!(r, Ok("c\nc\n".to_string()));
}
