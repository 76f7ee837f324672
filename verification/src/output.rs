//! The output formats: the per-file units of the streaming mode and the
//! listing lines of the size-sorted mode.

use crate::text::{spec_dec, str_starts_with, u64_to_dec};
use vstd::prelude::*;
use vstd::string::*;

verus! {

/// The header unit announcing one file.
pub open spec fn spec_header_line(path: Seq<char>) -> Seq<char> {
    "# File: "@ + path
}

/// The fixed separator printed after a file's contents.
pub open spec fn spec_separator() -> Seq<char> {
    "\n=====================\n"@
}

/// The diagnostic printed in place of contents that could not be read.
pub open spec fn spec_read_error_line(path: Seq<char>) -> Seq<char> {
    "Error reading file: "@ + path
}

/// The units printed for one file in streaming mode: the header alone in
/// files-only mode; otherwise the header, then the contents and the
/// separator, or the read diagnostic when the contents are unavailable.
pub open spec fn spec_single_file_output(
    path: Seq<char>,
    contents: Option<Seq<char>>,
    files_only: bool,
) -> Seq<Seq<char>> {
    if files_only {
        seq![spec_header_line(path)]
    } else {
        match contents {
            Option::Some(c) => seq![spec_header_line(path), c, spec_separator()],
            Option::None => seq![spec_header_line(path), spec_read_error_line(path)],
        }
    }
}

/// Whether `path` lies strictly below the directory `wd`.
pub open spec fn is_under(wd: Seq<char>, path: Seq<char>) -> bool {
    wd.len() < path.len() && path.subrange(0, wd.len() as int) == wd && path[wd.len() as int]
        == '/'
}

/// The listing line of the size-sorted mode: the path relative to the
/// working directory when it lies under it, the path as given otherwise,
/// with the size in bytes.
pub open spec fn spec_size_line(wd: Seq<char>, path: Seq<char>, size: u64) -> Seq<char> {
    if is_under(wd, path) {
        "# File: ./"@ + path.subrange(wd.len() as int + 1, path.len() as int) + " ("@ + spec_dec(
            size as int,
        ) + " bytes)"@
    } else {
        "# File: "@ + path + " ("@ + spec_dec(size as int) + " bytes)"@
    }
}

/// Files-only mode prints one header per file and nothing else: no
/// contents and no separator, whatever the read returned.
pub proof fn lemma_files_only_header_only(path: Seq<char>, contents: Option<Seq<char>>)
    ensures
        spec_single_file_output(path, contents, true) == seq![spec_header_line(path)],
{
}

/// Builds the streaming header for one path.
pub fn header_line(path: &str) -> (r: String)
    ensures
        r@ == spec_header_line(path@),
{
    let mut s = String::from_str("# File: ");
    s.append(path);
    s
}

/// Builds the size-sorted listing line for one path.
pub fn size_line(wd: &str, path: &str, size: u64) -> (r: String)
    ensures
        r@ == spec_size_line(wd@, path@, size),
{
    let wdn = wd.unicode_len();
    let pn = path.unicode_len();
    let num = u64_to_dec(size);
    let mut s: String;
    if wdn < pn && str_starts_with(path, wd) && path.get_char(wdn) == '/' {
        s = String::from_str("# File: ./");
        s.append(path.substring_char(wdn + 1, pn));
    } else {
        s = String::from_str("# File: ");
        s.append(path);
    }
    s.append(" (");
    s.append(num.as_str());
    s.append(" bytes)");
    s
}

} // verus!
