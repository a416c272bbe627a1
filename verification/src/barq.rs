//! The indexing side of the retrieval backend: the in-memory vector-store
//! client model, the ignore file, and the rules deciding which files of a
//! repository are indexed. Walking the filesystem and talking to the real
//! backend happen outside the library.

use vstd::prelude::*;
use vstd::string::*;
use crate::strutil::{contains_seq, ends_with, spec_lines, split_lines, str_contains, str_ends_with};

verus! {

/// One stored chunk of an indexed file.
#[derive(Debug, Clone, PartialEq, Eq)]
pub struct IndexEntry {
    pub path: String,
    pub line: usize,
    pub lang: String,
    pub content: String,
}

/// The vector-store client, modelled as the record of everything stored
/// through it.
pub struct Client {
    pub url: String,
    pub entries: Vec<IndexEntry>,
}

impl Client {
    /// A fresh client for the given endpoint, with nothing stored.
    pub fn new(url: &str) -> (r: Client)
        ensures
            r.url@ == url@,
            r.entries@.len() == 0,
    {
        Client { url: url.to_owned(), entries: Vec::new() }
    }

    /// Stores one chunk: everything stored before stays, the new chunk is
    /// appended.
    pub fn store(&mut self, path: &str, line: usize, lang: &str, content: &str)
        ensures
            final(self).url == old(self).url,
            final(self).entries@.len() == old(self).entries@.len() + 1,
            final(self).entries@.drop_last() == old(self).entries@,
            final(self).entries@.last().path@ == path@,
            final(self).entries@.last().line == line,
            final(self).entries@.last().lang@ == lang@,
            final(self).entries@.last().content@ == content@,
    {
        self.entries.push(
            IndexEntry {
                path: path.to_owned(),
                line,
                lang: lang.to_owned(),
                content: content.to_owned(),
            },
        );
        proof {
            assert(final(self).entries@.drop_last() =~= old(self).entries@);
        }
    }
}

/// The ignore patterns of a repository: the lines of its ignore file, or
/// nothing when the repository has none.
pub fn parse_barqignore(content: Option<&str>) -> (r: Vec<String>)
    ensures
        content is None ==> r@.len() == 0,
        content is Some ==> r@.map_values(|p: String| p@) == spec_lines(content.unwrap()@),
{
    match content {
        Option::Some(c) => split_lines(c),
        Option::None => Vec::new(),
    }
}

/// A path is skipped when it lies under a build, VCS or dependency
/// directory, or matches any ignore pattern.
pub open spec fn spec_skips(path: Seq<char>, ignore: Seq<String>) -> bool {
    ||| contains_seq(path, "target/"@)
    ||| contains_seq(path, ".git/"@)
    ||| contains_seq(path, "node_modules/"@)
    ||| exists|i: int| 0 <= i < ignore.len() && contains_seq(path, (#[trigger] ignore[i])@)
}

/// Decides whether the indexer skips a path.
pub fn should_skip(path: &str, ignore: &Vec<String>) -> (r: bool)
    ensures
        r == spec_skips(path@, ignore@),
{
    if str_contains(path, "target/") || str_contains(path, ".git/") || str_contains(
        path,
        "node_modules/",
    ) {
        return true;
    }
    let n = ignore.len();
    let mut i: usize = 0;
    while i < n
        invariant
            n == ignore@.len(),
            i <= n,
            forall|j: int| 0 <= j < i ==> !contains_seq(path@, (#[trigger] ignore@[j])@),
        decreases n - i,
    {
        if str_contains(path, ignore[i].as_str()) {
            return true;
        }
        i += 1;
    }
    false
}

/// The language the indexer files a path under: decided by its ending.
pub open spec fn spec_indexable_lang(path: Seq<char>) -> Option<Seq<char>> {
    if ends_with(path, ".rs"@) {
        Some("rs"@)
    } else if ends_with(path, ".go"@) {
        Some("go"@)
    } else if ends_with(path, ".ts"@) {
        Some("ts"@)
    } else if ends_with(path, ".py"@) {
        Some("py"@)
    } else {
        None
    }
}

/// Decides whether a path belongs to an indexed language, and which.
pub fn indexable_lang(path: &str) -> (r: Option<String>)
    ensures
        r is Some <==> spec_indexable_lang(path@) is Some,
        r is Some ==> r.unwrap()@ == spec_indexable_lang(path@).unwrap(),
{
    if str_ends_with(path, ".rs") {
        Some(String::from_str("rs"))
    } else if str_ends_with(path, ".go") {
        Some(String::from_str("go"))
    } else if str_ends_with(path, ".ts") {
        Some(String::from_str("ts"))
    } else if str_ends_with(path, ".py") {
        Some(String::from_str("py"))
    } else {
        None
    }
}

} // verus!
