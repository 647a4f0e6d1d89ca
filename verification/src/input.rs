//! Input selection and normalization: file, stdin or clipboard content
//! becomes a `FileContent` with a derived filename.

use vstd::prelude::*;
use crate::errors::InputError;
use crate::text::{after_last, find_last_char, has_prefix, str_eq};

verus! {

/// Where the content to upload comes from; chosen once from the
/// positional argument, then immutable.
pub enum InputSource {
    File(String),
    Stdin,
    Clipboard,
}

/// The content itself: bytes already in memory, or a path whose bytes
/// the application reads at encoding time.
pub enum File {
    Bytes(Vec<u8>),
    Path(String),
}

/// Content plus the filename sent alongside it.
pub struct FileContent {
    pub content: File,
    pub filename: String,
}

/// Chooses the input source: no argument means clipboard, `-` means
/// stdin, anything else names a file.
pub fn detect_input_source(file: &Option<String>) -> (r: InputSource)
    ensures
        match *file {
            None => r is Clipboard,
            Some(f) => if f@ == "-"@ {
                r is Stdin
            } else {
                r matches InputSource::File(p) && p@ == f@
            },
        },
{
    match file {
        Some(f) => if str_eq(f.as_str(), "-") {
            InputSource::Stdin
        } else {
            InputSource::File(f.clone())
        },
        None => InputSource::Clipboard,
    }
}

/// `p` without its trailing slashes.
pub open spec fn strip_slashes(p: Seq<char>) -> Seq<char>
    decreases p.len(),
{
    if p.len() > 0 && p.last() == '/' {
        strip_slashes(p.drop_last())
    } else {
        p
    }
}

/// `p` without its trailing run of slashes and `.` components: `a/b/.`
/// and `a/b//` both reduce to `a/b`, as std's path normalization reads
/// them.
pub open spec fn strip_dot_slash(p: Seq<char>) -> Seq<char>
    decreases p.len(),
    via strip_dot_slash_dec
{
    let q = strip_slashes(p);
    if q.len() > 0 && q.last() == '.' && (q.len() == 1 || q[q.len() - 2] == '/') {
        strip_dot_slash(q.drop_last())
    } else {
        q
    }
}

#[via_fn]
proof fn strip_dot_slash_dec(p: Seq<char>) {
    lemma_strip_slashes_len(p);
}

proof fn lemma_strip_slashes_len(p: Seq<char>)
    ensures
        strip_slashes(p).len() <= p.len(),
    decreases p.len(),
{
    if p.len() > 0 && p.last() == '/' {
        lemma_strip_slashes_len(p.drop_last());
    }
}

/// The filename a path yields: its last `/`-separated component after
/// trailing slashes and `.` components are dropped, or `unknown` when
/// none can be derived (nothing left, or a `..`).
pub open spec fn filename_spec(p: Seq<char>) -> Seq<char> {
    let q = strip_dot_slash(p);
    let tail = q.skip(find_last_char(q, '/') + 1);
    if tail.len() == 0 || tail == ".."@ {
        "unknown"@
    } else {
        tail
    }
}

proof fn lemma_strip_slashes_take(p: Seq<char>, e: int)
    requires
        0 <= e <= p.len(),
        forall|k: int| e <= k < p.len() ==> p[k] == '/',
        e == 0 || p[e - 1] != '/',
    ensures
        strip_slashes(p) == p.take(e),
    decreases p.len() - e,
{
    if e == p.len() {
        assert(p.take(e) =~= p);
    } else {
        lemma_strip_slashes_take(p.drop_last(), e);
        assert(p.drop_last().take(e) =~= p.take(e));
    }
}

/// Derives the filename from a path.
pub fn filename_of_path(path: &str) -> (r: String)
    ensures
        r@ == filename_spec(path@),
{
    let n = path.unicode_len();
    let mut e: usize = n;
    proof {
        assert(path@.take(n as int) =~= path@);
    }
    loop
        invariant_except_break
            n == path@.len(),
            0 <= e <= n,
            strip_dot_slash(path@) == strip_dot_slash(path@.take(e as int)),
        ensures
            0 <= e <= path@.len(),
            strip_dot_slash(path@) == path@.take(e as int),
        decreases e,
    {
        let ghost e0 = e as int;
        while e > 0 && path.get_char(e - 1) == '/'
            invariant
                n == path@.len(),
                0 <= e <= e0 <= n,
                forall|k: int| e <= k < e0 ==> path@[k] == '/',
            decreases e,
        {
            e = e - 1;
        }
        proof {
            assert(path@.take(e0).take(e as int) =~= path@.take(e as int));
            lemma_strip_slashes_take(path@.take(e0), e as int);
        }
        if e > 0 && path.get_char(e - 1) == '.' && (e == 1 || path.get_char(e - 2) == '/') {
            proof {
                assert(path@.take(e as int).drop_last() =~= path@.take(e - 1));
            }
            e = e - 1;
        } else {
            break;
        }
    }
    let q = path.substring_char(0, e);
    let a = after_last(q, '/');
    let tail = q.substring_char(a, e);
    proof {
        assert(q@.subrange(a as int, e as int) =~= q@.skip(a as int));
    }
    if tail.unicode_len() == 0 || str_eq(tail, "..") {
        "unknown".to_owned()
    } else {
        tail.to_owned()
    }
}

/// Turns a path the application has checked into upload content.
///
/// The caller reports whether the path exists and whether it is a
/// directory; the content stays a path reference, read only at
/// encoding time.
pub fn read_file_input(path: &String, exists: bool, is_dir: bool) -> (r: Result<
    FileContent,
    InputError,
>)
    ensures
        r is Ok <==> exists && !is_dir,
        !exists ==> (r matches Err(InputError::FileNotFound(p)) && p@ == path@),
        exists && is_dir ==> (r matches Err(InputError::IsADirectory(p)) && p@ == path@),
        r matches Ok(fc) ==> (fc.content matches File::Path(p) && p@ == path@
            && fc.filename@ == filename_spec(path@)),
{
    if !exists {
        return Err(InputError::FileNotFound(path.clone()));
    }
    if is_dir {
        return Err(InputError::IsADirectory(path.clone()));
    }
    let filename = filename_of_path(path.as_str());
    Ok(FileContent { content: File::Path(path.clone()), filename })
}

/// Turns the bytes read from stdin into upload content; empty input is
/// refused. The filename is `stdin-` plus the given timestamp.
pub fn make_stdin_content(bytes: Vec<u8>, timestamp: &str) -> (r: Result<
    FileContent,
    InputError,
>)
    ensures
        r is Ok <==> bytes@.len() > 0,
        r matches Err(e) ==> e is EmptyStdin,
        r matches Ok(fc) ==> (fc.content matches File::Bytes(b) && b@ == bytes@
            && fc.filename@ == "stdin-"@ + timestamp@),
{
    if bytes.len() == 0 {
        return Err(InputError::EmptyStdin);
    }
    let filename = "stdin-".to_owned().concat(timestamp);
    Ok(FileContent { content: File::Bytes(bytes), filename })
}

/// Turns the text read from the clipboard into upload content; an empty
/// clipboard is refused. The filename is `clipboard-` plus the given
/// timestamp; the content is the text's UTF-8 bytes.
pub fn make_clipboard_content(text: String, timestamp: &str) -> (r: Result<
    FileContent,
    InputError,
>)
    ensures
        r is Ok <==> text@.len() > 0,
        r matches Err(e) ==> e is EmptyClipboard,
        r matches Ok(fc) ==> (fc.content matches File::Bytes(b)
            && b@ == vstd::utf8::encode_utf8(text@)
            && fc.filename@ == "clipboard-"@ + timestamp@),
{
    if text.as_str().is_empty() {
        return Err(InputError::EmptyClipboard);
    }
    let bytes = text.as_str().as_bytes_vec();
    let filename = "clipboard-".to_owned().concat(timestamp);
    Ok(FileContent { content: File::Bytes(bytes), filename })
}

/// Relies on chrono's `Utc::now` and its `format` with `%Y%m%d-%H%M%S`;
/// nothing is assumed of the clock, so nothing is promised of the text.
/// (`Utc::now` itself fails on a system clock before the Unix epoch, an
/// environmental failure no contract on the arguments can exclude.)
#[verifier::external_body]
fn utc_timestamp() -> (r: String) {
    format!("{}", chrono::Utc::now().format("%Y%m%d-%H%M%S"))
}

/// Stdin content stamped with the current time.
pub fn stdin_content(bytes: Vec<u8>) -> (r: Result<FileContent, InputError>)
    ensures
        r is Ok <==> bytes@.len() > 0,
        r matches Err(e) ==> e is EmptyStdin,
        r matches Ok(fc) ==> (fc.content matches File::Bytes(b) && b@ == bytes@
            && has_prefix(fc.filename@, "stdin-"@)),
{
    let ts = utc_timestamp();
    let r = make_stdin_content(bytes, ts.as_str());
    proof {
        if r is Ok {
            let fc = r->Ok_0;
            assert(fc.filename@.take("stdin-"@.len() as int) =~= "stdin-"@);
        }
    }
    r
}

/// Clipboard content stamped with the current time.
pub fn clipboard_content(text: String) -> (r: Result<FileContent, InputError>)
    ensures
        r is Ok <==> text@.len() > 0,
        r matches Err(e) ==> e is EmptyClipboard,
        r matches Ok(fc) ==> (fc.content matches File::Bytes(b)
            && b@ == vstd::utf8::encode_utf8(text@)
            && has_prefix(fc.filename@, "clipboard-"@)),
{
    let ts = utc_timestamp();
    let r = make_clipboard_content(text, ts.as_str());
    proof {
        if r is Ok {
            let fc = r->Ok_0;
            assert(fc.filename@.take("clipboard-"@.len() as int) =~= "clipboard-"@);
        }
    }
    r
}

} // verus!
