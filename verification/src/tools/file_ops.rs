//! The file tools: read with optional line-range slicing, list with optional
//! extension filtering, and create-without-overwrite. Disk access happens
//! outside the library; file contents and directory entries come in as
//! plain values.

use vstd::prelude::*;
use vstd::string::*;
use crate::strutil::{ends_with, spec_join, spec_lines, split_lines, join_with, str_ends_with};
use crate::tools::Tool;

verus! {

/// Reads one file, optionally sliced to a line range.
pub struct ReadFile;

impl Tool for ReadFile {
    open spec fn tool_name(&self) -> Seq<char> {
        "read_file"@
    }

    open spec fn tool_description(&self) -> Seq<char> {
        "Read complete file content"@
    }

    open spec fn tool_schema(&self) -> Seq<char> {
        "{\"path\":\"string\",\"start_line\":\"number\",\"end_line\":\"number\"}"@
    }

    fn name(&self) -> (r: String) {
        String::from_str("read_file")
    }

    fn description(&self) -> (r: String) {
        String::from_str("Read complete file content")
    }

    fn schema(&self) -> (r: String) {
        String::from_str("{\"path\":\"string\",\"start_line\":\"number\",\"end_line\":\"number\"}")
    }
}

/// Lists files below a directory.
pub struct ListFiles;

impl Tool for ListFiles {
    open spec fn tool_name(&self) -> Seq<char> {
        "list_files"@
    }

    open spec fn tool_description(&self) -> Seq<char> {
        "List files in directory"@
    }

    open spec fn tool_schema(&self) -> Seq<char> {
        "{\"path\":\"string\",\"extension\":\"string\"}"@
    }

    fn name(&self) -> (r: String) {
        String::from_str("list_files")
    }

    fn description(&self) -> (r: String) {
        String::from_str("List files in directory")
    }

    fn schema(&self) -> (r: String) {
        String::from_str("{\"path\":\"string\",\"extension\":\"string\"}")
    }
}

/// Creates a new file; an existing target is never overwritten.
pub struct CreateFile;

impl Tool for CreateFile {
    open spec fn tool_name(&self) -> Seq<char> {
        "create_file"@
    }

    open spec fn tool_description(&self) -> Seq<char> {
        "Create new file with content"@
    }

    open spec fn tool_schema(&self) -> Seq<char> {
        "{\"path\":\"string\",\"content\":\"string\"}"@
    }

    fn name(&self) -> (r: String) {
        String::from_str("create_file")
    }

    fn description(&self) -> (r: String) {
        String::from_str("Create new file with content")
    }

    fn schema(&self) -> (r: String) {
        String::from_str("{\"path\":\"string\",\"content\":\"string\"}")
    }
}

/// What the read tool returns of a file's content: the requested 1-indexed,
/// inclusive line range, joined by newlines — or the whole content when no
/// range is requested or the range falls outside the file.
pub open spec fn spec_slice(
    content: Seq<char>,
    start_line: Option<u64>,
    end_line: Option<u64>,
) -> Seq<char> {
    let lines = spec_lines(content);
    match start_line {
        Option::None => content,
        Option::Some(s) => {
            let si = s as int;
            let ei = match end_line {
                Option::Some(e) => e as int,
                Option::None => lines.len() as int,
            };
            if si <= lines.len() && si <= ei {
                let lo = if si >= 1 {
                    si - 1
                } else {
                    0
                };
                let hi = if ei <= lines.len() {
                    ei
                } else {
                    lines.len() as int
                };
                spec_join(lines.subrange(lo, hi), "\n"@)
            } else {
                content
            }
        },
    }
}

/// The sliced content and the file's total line count.
pub struct ReadSlice {
    pub content: String,
    pub line_count: usize,
}

/// Slices a file's content to the requested 1-indexed, inclusive line range.
pub fn slice_content(content: &str, start_line: Option<u64>, end_line: Option<u64>) -> (r:
    ReadSlice)
    ensures
        r.content@ == spec_slice(content@, start_line, end_line),
        r.line_count == spec_lines(content@).len(),
{
    let lines = split_lines(content);
    let lc = lines.len();
    proof {
        assert(lines@.map_values(|l: String| l@).len() == lc);
    }
    let s = match start_line {
        Option::Some(s) => s,
        Option::None => {
            return ReadSlice { content: content.to_owned(), line_count: lc };
        },
    };
    let e = match end_line {
        Option::Some(e) => e,
        Option::None => lc as u64,
    };
    if !(s <= lc as u64 && s <= e) {
        return ReadSlice { content: content.to_owned(), line_count: lc };
    }
    let lo: usize = if s >= 1 {
        (s - 1) as usize
    } else {
        0
    };
    let hi: usize = if e <= lc as u64 {
        e as usize
    } else {
        lc
    };
    let mut picked: Vec<String> = Vec::new();
    let mut j: usize = lo;
    proof {
        assert(picked@.map_values(|l: String| l@) =~~= lines@.map_values(
            |l: String| l@,
        ).subrange(lo as int, lo as int));
    }
    while j < hi
        invariant
            lo <= j <= hi <= lines@.len(),
            picked@.map_values(|l: String| l@) == lines@.map_values(|l: String| l@).subrange(
                lo as int,
                j as int,
            ),
        decreases hi - j,
    {
        let ghost picked_old = picked@;
        let x = lines[j].clone();
        proof {
            assert(x == lines@[j as int]);
        }
        picked.push(x);
        j += 1;
        proof {
            assert(picked@ == picked_old.push(lines@[j - 1]));
            assert(picked@.map_values(|l: String| l@) =~= picked_old.map_values(
                |l: String| l@,
            ).push(lines@[j - 1]@));
            assert(lines@.map_values(|l: String| l@).subrange(lo as int, j as int)
                =~= lines@.map_values(|l: String| l@).subrange(lo as int, j - 1).push(
                lines@[j - 1]@,
            ));
            assert(picked@.map_values(|l: String| l@) =~= lines@.map_values(
                |l: String| l@,
            ).subrange(lo as int, j as int));
        }
    }
    let joined = join_with(&picked, "\n");
    ReadSlice { content: joined, line_count: lc }
}

/// One directory entry, with its size and modification time in seconds.
#[derive(Debug, Clone, PartialEq, Eq)]
pub struct FileEntry {
    pub path: String,
    pub size: u64,
    pub modified: u64,
}

/// An entry passes the filter when its path ends in a dot followed by the
/// extension.
pub open spec fn keeps_ext(e: FileEntry, ext: Seq<char>) -> bool {
    ends_with(e.path@, seq!['.'] + ext)
}

/// The entries whose path ends in a dot and the extension, in order.
pub open spec fn ext_filtered(es: Seq<FileEntry>, ext: Seq<char>) -> Seq<FileEntry>
    decreases es.len(),
{
    if es.len() == 0 {
        seq![]
    } else {
        ext_filtered(es.drop_last(), ext) + (if keeps_ext(es.last(), ext) {
            seq![es.last()]
        } else {
            seq![]
        })
    }
}

/// The optional extension filter of the list tool: `None` keeps every entry,
/// `Some(ext)` keeps exactly the entries whose path ends in `.ext`, in
/// order.
pub fn filter_entries(entries: Vec<FileEntry>, extension: Option<&str>) -> (r: Vec<FileEntry>)
    ensures
        extension is None ==> r@ == entries@,
        extension is Some ==> r@ == ext_filtered(entries@, extension.unwrap()@),
{
    let ext = match extension {
        Option::Some(x) => x,
        Option::None => {
            return entries;
        },
    };
    let mut needle = String::from_str(".");
    needle.append(ext);
    proof {
        reveal_strlit(".");
        assert(needle@ =~= seq!['.'] + ext@);
    }
    let mut out: Vec<FileEntry> = Vec::new();
    let mut i: usize = 0;
    proof {
        assert(entries@.subrange(0, 0) =~= Seq::<FileEntry>::empty());
        assert(out@ =~= ext_filtered(entries@.subrange(0, 0), ext@));
    }
    let n = entries.len();
    while i < n
        invariant
            n == entries@.len(),
            i <= n,
            needle@ == seq!['.'] + ext@,
            out@ == ext_filtered(entries@.subrange(0, i as int), ext@),
        decreases n - i,
    {
        let keep = str_ends_with(entries[i].path.as_str(), needle.as_str());
        let ghost out_old = out@;
        if keep {
            let item = FileEntry {
                path: entries[i].path.clone(),
                size: entries[i].size,
                modified: entries[i].modified,
            };
            proof {
                assert(item == entries@[i as int]);
            }
            out.push(item);
        }
        i += 1;
        proof {
            assert(entries@.subrange(0, i as int).drop_last() =~= entries@.subrange(0, i - 1));
            assert(entries@.subrange(0, i as int).last() == entries@[i - 1]);
            assert(keep == keeps_ext(entries@[i - 1], ext@));
            if keep {
                assert(out@ == out_old.push(entries@[i - 1]));
                assert(out@ =~= ext_filtered(entries@.subrange(0, i as int), ext@));
            } else {
                assert(out@ =~= ext_filtered(entries@.subrange(0, i as int), ext@));
            }
        }
    }
    proof {
        assert(entries@.subrange(0, n as int) =~= entries@);
    }
    out
}

/// Why a file operation was refused.
#[derive(Debug, Clone, PartialEq, Eq)]
pub enum FileError {
    AlreadyExists,
}

/// The create tool's gate: a target that already exists is refused, never
/// silently overwritten.
pub fn create_file_decision(target_exists: bool) -> (r: Result<(), FileError>)
    ensures
        r is Ok <==> !target_exists,
{
    if target_exists {
        Err(FileError::AlreadyExists)
    } else {
        Ok(())
    }
}

} // verus!
