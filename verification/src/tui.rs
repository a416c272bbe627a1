//! The display decisions of the terminal front end: the spinner frame for
//! a tick, the colour band of a token count, and the classification of
//! patch lines. Drawing itself is rendering only and happens outside the
//! library.

use vstd::prelude::*;
use vstd::string::*;
use crate::strutil::{dec_digits, spec_lines, split_lines, starts_with, str_starts_with, usize_to_string};

verus! {

/// The spinner's frames, in tick order.
pub open spec fn spec_spinner_frames() -> Seq<Seq<char>> {
    seq!["|"@, "/"@, "-"@, "\\"@]
}

/// The colour band of a token count against its limit.
#[derive(Debug, Clone, Copy, PartialEq, Eq)]
pub enum TokenLevel {
    /// Within four fifths of the limit.
    Normal,
    /// Above four fifths of the limit.
    High,
    /// Above the limit.
    Over,
}

/// The kind of one patch line, as coloured in a diff view.
#[derive(Debug, Clone, Copy, PartialEq, Eq)]
pub enum DiffLineKind {
    Added,
    Removed,
    Hunk,
    Context,
}

/// The kind of a patch line: additions, removals, hunk headers, context.
pub open spec fn spec_diff_line_kind(line: Seq<char>) -> DiffLineKind {
    if starts_with(line, "+"@) {
        DiffLineKind::Added
    } else if starts_with(line, "-"@) {
        DiffLineKind::Removed
    } else if starts_with(line, "@@"@) {
        DiffLineKind::Hunk
    } else {
        DiffLineKind::Context
    }
}

/// The classified lines of a patch, in order.
pub open spec fn spec_diff_render(patch: Seq<char>) -> Seq<(Seq<char>, DiffLineKind)> {
    spec_lines(patch).map_values(|line: Seq<char>| (line, spec_diff_line_kind(line)))
}

/// The widgets of the terminal front end.
pub struct TuiComponents;

impl TuiComponents {
    /// The spinner frame shown at a tick.
    pub fn render_spinner(tick: usize) -> (r: String)
        ensures
            r@ == spec_spinner_frames()[tick as int % 4],
    {
        let i = tick % 4;
        if i == 0 {
            String::from_str("|")
        } else if i == 1 {
            String::from_str("/")
        } else if i == 2 {
            String::from_str("-")
        } else {
            String::from_str("\\")
        }
    }

    /// The token-count badge and its colour band: the text names the count
    /// and the limit, the band turns high above four fifths of the limit
    /// and over above the limit itself.
    pub fn render_token_count(count: usize, max: usize) -> (r: (String, TokenLevel))
        ensures
            r.0@ == " [Tokens: "@ + dec_digits(count as nat) + "/"@ + dec_digits(max as nat)
                + "] "@,
            r.1 == (if count > max {
                TokenLevel::Over
            } else if count > max * 8 / 10 {
                TokenLevel::High
            } else {
                TokenLevel::Normal
            }),
    {
        let mut text = String::from_str(" [Tokens: ");
        let c = usize_to_string(count);
        text.append(c.as_str());
        text.append("/");
        let m = usize_to_string(max);
        text.append(m.as_str());
        text.append("] ");
        let level = if count > max {
            TokenLevel::Over
        } else if (count as u128) > (max as u128) * 8 / 10 {
            TokenLevel::High
        } else {
            TokenLevel::Normal
        };
        (text, level)
    }

    /// Classifies each line of a patch for colouring, in order.
    pub fn render_diff(patch: &str) -> (r: Vec<(String, DiffLineKind)>)
        ensures
            r@.map_values(|p: (String, DiffLineKind)| (p.0@, p.1)) == spec_diff_render(patch@),
    {
        proof {
            reveal_strlit("+");
            reveal_strlit("-");
            reveal_strlit("@@");
            assert("+"@.len() == 1);
            assert("-"@.len() == 1);
            assert("@@"@.len() == 2);
        }
        let lines = split_lines(patch);
        let ghost views = lines@.map_values(|l: String| l@);
        let mut out: Vec<(String, DiffLineKind)> = Vec::new();
        let mut i: usize = 0;
        proof {
            assert(out@.map_values(|p: (String, DiffLineKind)| (p.0@, p.1)) =~= views.subrange(
                0,
                0,
            ).map_values(|line: Seq<char>| (line, spec_diff_line_kind(line))));
        }
        let n = lines.len();
        while i < n
            invariant
                n == lines@.len(),
                views == lines@.map_values(|l: String| l@),
                i <= n,
                out@.map_values(|p: (String, DiffLineKind)| (p.0@, p.1)) == views.subrange(
                    0,
                    i as int,
                ).map_values(|line: Seq<char>| (line, spec_diff_line_kind(line))),
            decreases n - i,
        {
            let ghost out_old = out@.map_values(|p: (String, DiffLineKind)| (p.0@, p.1));
            let kind = if str_starts_with(lines[i].as_str(), "+") {
                DiffLineKind::Added
            } else if str_starts_with(lines[i].as_str(), "-") {
                DiffLineKind::Removed
            } else if str_starts_with(lines[i].as_str(), "@@") {
                DiffLineKind::Hunk
            } else {
                DiffLineKind::Context
            };
            let line = lines[i].clone();
            proof {
                assert(line == lines@[i as int]);
                assert(kind == spec_diff_line_kind(views[i as int]));
            }
            out.push((line, kind));
            i += 1;
            proof {
                assert(out@.map_values(|p: (String, DiffLineKind)| (p.0@, p.1)) =~= out_old.push(
                    (views[i - 1], spec_diff_line_kind(views[i - 1])),
                ));
                assert(views.subrange(0, i as int).map_values(
                    |line: Seq<char>| (line, spec_diff_line_kind(line)),
                ) =~= views.subrange(0, i - 1).map_values(
                    |line: Seq<char>| (line, spec_diff_line_kind(line)),
                ).push((views[i - 1], spec_diff_line_kind(views[i - 1]))));
                assert(out@.map_values(|p: (String, DiffLineKind)| (p.0@, p.1)) =~= views.subrange(
                    0,
                    i as int,
                ).map_values(|line: Seq<char>| (line, spec_diff_line_kind(line))));
            }
        }
        proof {
            assert(views.subrange(0, views.len() as int) =~= views);
        }
        out
    }
}

} // verus!
