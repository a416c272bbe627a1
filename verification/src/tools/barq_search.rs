//! The semantic-search tool: its advertisement, the documented argument
//! defaults, and the language filter applied after ranking. The retrieval
//! backend itself is a capability consumed outside the library.

use vstd::prelude::*;
use vstd::string::*;
use crate::strutil::{ends_with, str_ends_with};
use crate::tools::Tool;

verus! {

/// One ranked retrieval hit. The score is kept in thousandths, 1000 standing
/// for a perfect match.
#[derive(Debug, Clone, PartialEq, Eq)]
pub struct BarqResult {
    pub file_path: String,
    pub content: String,
    pub score_milli: u32,
    pub line: usize,
}

/// Semantic search over the indexed codebase.
pub struct BarqSearch;

impl BarqSearch {
    pub fn new() -> (r: BarqSearch) {
        BarqSearch
    }
}

impl Tool for BarqSearch {
    open spec fn tool_name(&self) -> Seq<char> {
        "barq_search"@
    }

    open spec fn tool_description(&self) -> Seq<char> {
        "Semantic search over indexed codebase using BARQDB"@
    }

    open spec fn tool_schema(&self) -> Seq<char> {
        "{\"query\":\"string\",\"top_k\":\"number\",\"filter_lang\":\"string\"}"@
    }

    fn name(&self) -> (r: String) {
        String::from_str("barq_search")
    }

    fn description(&self) -> (r: String) {
        String::from_str("Semantic search over indexed codebase using BARQDB")
    }

    fn schema(&self) -> (r: String) {
        String::from_str("{\"query\":\"string\",\"top_k\":\"number\",\"filter_lang\":\"string\"}")
    }
}

/// The documented default for a missing `top_k` argument.
pub fn default_top_k(top_k: Option<u64>) -> (r: usize)
    requires
        top_k is Some ==> top_k.unwrap() <= usize::MAX,
    ensures
        r as int == (match top_k {
            Option::Some(k) => k as int,
            Option::None => 10int,
        }),
{
    match top_k {
        Option::Some(k) => k as usize,
        Option::None => 10,
    }
}

/// A hit passes the filter when its path ends in the language suffix.
pub open spec fn keeps_lang(r: BarqResult, lang: Seq<char>) -> bool {
    ends_with(r.file_path@, lang)
}

/// The hits whose path ends in the language suffix, in ranked order.
pub open spec fn lang_filtered(rs: Seq<BarqResult>, lang: Seq<char>) -> Seq<BarqResult>
    decreases rs.len(),
{
    if rs.len() == 0 {
        seq![]
    } else {
        lang_filtered(rs.drop_last(), lang) + (if keeps_lang(rs.last(), lang) {
            seq![rs.last()]
        } else {
            seq![]
        })
    }
}

/// The optional language filter, applied after ranking: `None` keeps every
/// hit, `Some(lang)` keeps exactly the hits whose path ends in `lang`, in
/// their ranked order.
pub fn filter_by_lang(results: Vec<BarqResult>, filter_lang: Option<&str>) -> (r: Vec<BarqResult>)
    ensures
        filter_lang is None ==> r@ == results@,
        filter_lang is Some ==> r@ == lang_filtered(results@, filter_lang.unwrap()@),
{
    let lang = match filter_lang {
        Option::Some(l) => l,
        Option::None => {
            return results;
        },
    };
    let mut out: Vec<BarqResult> = Vec::new();
    let mut i: usize = 0;
    proof {
        assert(results@.subrange(0, 0) =~= Seq::<BarqResult>::empty());
        assert(out@ =~= lang_filtered(results@.subrange(0, 0), lang@));
    }
    let n = results.len();
    while i < n
        invariant
            n == results@.len(),
            i <= n,
            out@ == lang_filtered(results@.subrange(0, i as int), lang@),
        decreases n - i,
    {
        let keep = str_ends_with(results[i].file_path.as_str(), lang);
        let ghost out_old = out@;
        if keep {
            let item = BarqResult {
                file_path: results[i].file_path.clone(),
                content: results[i].content.clone(),
                score_milli: results[i].score_milli,
                line: results[i].line,
            };
            proof {
                assert(item == results@[i as int]);
            }
            out.push(item);
        }
        i += 1;
        proof {
            assert(results@.subrange(0, i as int).drop_last() =~= results@.subrange(0, i - 1));
            assert(results@.subrange(0, i as int).last() == results@[i - 1]);
            assert(keep == keeps_lang(results@[i - 1], lang@));
            if keep {
                assert(out@ == out_old.push(results@[i - 1]));
                assert(out@ =~= lang_filtered(results@.subrange(0, i as int), lang@));
            } else {
                assert(out@ =~= lang_filtered(results@.subrange(0, i as int), lang@));
            }
        }
    }
    proof {
        assert(results@.subrange(0, n as int) =~= results@);
    }
    out
}

} // verus!
