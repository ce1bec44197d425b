//! Parsing of the line-oriented virtual-memory statistics report. The header
//! line carries the page size in parentheses before "bytes)"; a later line
//! beginning with a fixed label carries the compressor page count as its last
//! whitespace-delimited token. The compressed-memory contribution is their
//! product; any malformed or missing piece yields no contribution instead of
//! an error.
use crate::text::find_byte_at_or_after;
use crate::text::find_byte_from;
use crate::text::find_line_with_prefix;
use crate::text::find_line_with_prefix_at_or_after;
use crate::text::find_pat_at_or_after;
use crate::text::find_pat_from;
use crate::text::last_token_in;
use crate::text::parse_u64_digits;
use crate::text::spec_last_token;
use crate::text::spec_match_at;
use crate::text::spec_parse_u64;
use vstd::prelude::*;
use vstd::string::StringSliceAdditionalSpecFns;

verus! {

/// Where `find_byte_at_or_after` finds, it finds `b`, within bounds.
proof fn lemma_find_byte_props(s: Seq<u8>, b: u8, i: int)
    ensures
        find_byte_at_or_after(s, b, i) matches Some(j) ==> i <= j < s.len() && s[j] == b,
    decreases s.len() - i + 1,
{
    if 0 <= i < s.len() && s[i] != b {
        lemma_find_byte_props(s, b, i + 1);
    }
}

/// Where `find_pat_at_or_after` finds, the pattern fits there.
proof fn lemma_find_pat_props(s: Seq<u8>, pat: Seq<u8>, i: int)
    ensures
        find_pat_at_or_after(s, pat, i) matches Some(j) ==> i <= j && j + pat.len() <= s.len(),
    decreases s.len() - i + 1,
{
    if 0 <= i <= s.len() && !spec_match_at(s, pat, i) && i < s.len() {
        lemma_find_pat_props(s, pat, i + 1);
    }
}

/// Where `find_line_with_prefix_at_or_after` finds, the label fits there.
proof fn lemma_find_line_props(s: Seq<u8>, pat: Seq<u8>, i: int)
    ensures
        find_line_with_prefix_at_or_after(s, pat, i) matches Some(j) ==> i <= j && j + pat.len()
            <= s.len(),
    decreases s.len() - i + 1,
{
    if 0 <= i <= s.len() && !(crate::text::spec_line_start(s, i) && spec_match_at(s, pat, i))
        && i < s.len() {
        lemma_find_line_props(s, pat, i + 1);
    }
}

/// A count token: decimal digits, allowing one trailing period as the report
/// writes its numbers.
pub open spec fn spec_parse_count(tok: Seq<u8>) -> Option<u64> {
    if tok.len() > 0 && tok.last() == 46 {
        spec_parse_u64(tok.drop_last())
    } else {
        spec_parse_u64(tok)
    }
}

/// Reads `s[lo..hi]` as a count token.
fn parse_count(s: &[u8], lo: usize, hi: usize) -> (r: Option<u64>)
    requires
        lo <= hi <= s@.len(),
    ensures
        r == spec_parse_count(s@.subrange(lo as int, hi as int)),
{
    let ghost tok = s@.subrange(lo as int, hi as int);
    if hi > lo && s[hi - 1] == 46 {
        proof {
            assert(tok.drop_last() =~= s@.subrange(lo as int, hi - 1));
        }
        parse_u64_digits(s, lo, hi - 1)
    } else {
        parse_u64_digits(s, lo, hi)
    }
}

/// The end of the first line: the first newline, or the whole text.
pub open spec fn spec_header_end(s: Seq<u8>) -> int {
    match find_byte_at_or_after(s, 10, 0) {
        Some(i) => i,
        None => s.len() as int,
    }
}

/// The page size read from the header line: the last whitespace-delimited
/// token between the first opening parenthesis and the first " bytes)".
pub open spec fn spec_page_size(line: Seq<u8>) -> Option<u64> {
    match find_byte_at_or_after(line, 40, 0) {
        None => None,
        Some(i) => match find_pat_at_or_after(line, " bytes)".spec_bytes(), 0) {
            None => None,
            Some(j) => if i + 1 <= j {
                match spec_last_token(line, i + 1, j) {
                    None => None,
                    Some(tok) => spec_parse_u64(line.subrange(tok.0, tok.1)),
                }
            } else {
                None
            },
        },
    }
}

/// The compressor page count: on the first line that begins with the label,
/// the last whitespace-delimited token before the line's end.
pub open spec fn spec_pages(s: Seq<u8>) -> Option<u64> {
    match find_line_with_prefix_at_or_after(s, "Pages occupied by compressor:".spec_bytes(), 0) {
        None => None,
        Some(p) => {
            let e = match find_byte_at_or_after(s, 10, p) {
                Some(x) => x,
                None => s.len() as int,
            };
            match spec_last_token(s, p, e) {
                None => None,
                Some(tok) => spec_parse_count(s.subrange(tok.0, tok.1)),
            }
        },
    }
}

/// The compressed-memory byte count of a report: page size times compressor
/// page count, when both parse and the product is representable.
pub open spec fn spec_compressed_memory(s: Seq<u8>) -> Option<u64> {
    match spec_page_size(s.take(spec_header_end(s))) {
        None => None,
        Some(size) => match spec_pages(s) {
            None => None,
            Some(pages) => size.checked_mul(pages),
        },
    }
}

/// The " bytes)" marker that closes the page-size parenthesis.
fn bytes_close_pattern() -> (r: &'static [u8])
    ensures
        r@ == " bytes)".spec_bytes(),
        r@.len() == 7,
{
    let p = " bytes)".as_bytes();
    proof {
        reveal_strlit(" bytes)");
        broadcast use vstd::string::is_ascii_spec_bytes;

        assert(vstd::string::is_ascii(" bytes)"));
    }
    p
}

/// The label that opens the compressor page-count line.
fn compressor_label() -> (r: &'static [u8])
    ensures
        r@ == "Pages occupied by compressor:".spec_bytes(),
        r@.len() == 29,
{
    let p = "Pages occupied by compressor:".as_bytes();
    proof {
        reveal_strlit("Pages occupied by compressor:");
        broadcast use vstd::string::is_ascii_spec_bytes;

        assert(vstd::string::is_ascii("Pages occupied by compressor:"));
    }
    p
}

/// Reads the page size out of the header line.
fn page_size_of_header(line: &[u8]) -> (r: Option<u64>)
    ensures
        r == spec_page_size(line@),
{
    let open = match find_byte_from(line, 0, 40) {
        None => {
            return None;
        },
        Some(i) => i,
    };
    proof {
        lemma_find_byte_props(line@, 40, 0);
    }
    let pat = bytes_close_pattern();
    let close = match find_pat_from(line, 0, pat) {
        None => {
            return None;
        },
        Some(j) => j,
    };
    proof {
        lemma_find_pat_props(line@, pat@, 0);
    }
    let n = line.len();
    proof {
        assert(open < n);
    }
    if open + 1 > close {
        return None;
    }
    match last_token_in(line, open + 1, close) {
        None => None,
        Some(tok) => parse_u64_digits(line, tok.0, tok.1),
    }
}

/// The compressed-memory byte count that a report yields, if any.
///
/// A malformed report — no parenthesised page size in the header, no label
/// line, or an unreadable number — yields `None`, never an error.
pub fn compressed_memory_bytes(report: &[u8]) -> (r: Option<u64>)
    ensures
        r == spec_compressed_memory(report@),
{
    let hend = match find_byte_from(report, 0, 10) {
        Some(i) => i,
        None => report.len(),
    };
    proof {
        lemma_find_byte_props(report@, 10, 0);
        assert(report@.subrange(0, hend as int) =~= report@.take(spec_header_end(report@)));
    }
    let line = &report[0..hend];
    let size = match page_size_of_header(line) {
        None => {
            return None;
        },
        Some(s) => s,
    };
    let label = compressor_label();
    let p = match find_line_with_prefix(report, label) {
        None => {
            return None;
        },
        Some(p) => p,
    };
    proof {
        lemma_find_line_props(report@, label@, 0);
    }
    let e = match find_byte_from(report, p, 10) {
        Some(x) => x,
        None => report.len(),
    };
    proof {
        lemma_find_byte_props(report@, 10, p as int);
    }
    let pages = match last_token_in(report, p, e) {
        None => {
            return None;
        },
        Some(tok) => match parse_count(report, tok.0, tok.1) {
            None => {
                return None;
            },
            Some(pg) => pg,
        },
    };
    size.checked_mul(pages)
}

} // verus!
