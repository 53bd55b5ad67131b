//! Full-text search: building the escaped, prefix-matching match expression
//! from a free-text query, and assembling paginated results. The match
//! expression is the injection-safety boundary: every token has embedded
//! quotes doubled and is wrapped as a quoted prefix term.

use vstd::prelude::*;
use crate::entries::EntryDto;
use crate::entries::SearchResult;
use crate::entries::has_more_spec;
use crate::errors::AppError;
use crate::text::is_space_char;
use crate::text::is_space;
use crate::text::trim_spec;
use crate::text::trim_str;

verus! {

/// The length of the leading run of non-whitespace characters.
pub open spec fn first_token_len(s: Seq<char>) -> nat
    decreases s.len(),
{
    if s.len() == 0 || is_space_char(s[0]) {
        0
    } else {
        1 + first_token_len(s.drop_first())
    }
}

/// The whitespace-separated tokens of a query, in order.
pub open spec fn split_ws(s: Seq<char>) -> Seq<Seq<char>>
    decreases s.len(),
{
    if s.len() == 0 {
        Seq::empty()
    } else if is_space_char(s[0]) {
        split_ws(s.drop_first())
    } else {
        let k0 = (1 + first_token_len(s.drop_first())) as int;
        let k = if k0 <= s.len() {
            k0
        } else {
            s.len() as int
        };
        seq![s.subrange(0, k)] + split_ws(s.subrange(k, s.len() as int))
    }
}

/// The token with every embedded double quote doubled.
pub open spec fn escape_quotes(t: Seq<char>) -> Seq<char>
    decreases t.len(),
{
    if t.len() == 0 {
        t
    } else {
        escape_quotes(t.drop_last()) + (if t.last() == '"' {
            seq!['"', '"']
        } else {
            seq![t.last()]
        })
    }
}

/// The escaped token wrapped as a quoted prefix term.
pub open spec fn wrap_token(t: Seq<char>) -> Seq<char> {
    seq!['"'] + escape_quotes(t) + seq!['"', '*']
}

/// The wrapped tokens joined with single spaces.
pub open spec fn join_tokens(ts: Seq<Seq<char>>) -> Seq<char>
    decreases ts.len(),
{
    if ts.len() == 0 {
        Seq::empty()
    } else if ts.len() == 1 {
        wrap_token(ts[0])
    } else {
        join_tokens(ts.drop_last()) + seq![' '] + wrap_token(ts.last())
    }
}

/// The full match expression for a query: each whitespace-separated token
/// escaped, wrapped as a quoted prefix term, and joined with spaces.
pub open spec fn fts_query_spec(q: Seq<char>) -> Seq<char> {
    join_tokens(split_ws(q))
}

proof fn lemma_first_token_len_at(s: Seq<char>, k: int)
    requires
        0 <= k <= s.len(),
        forall|j: int| 0 <= j < k ==> !is_space_char(s[j]),
        k == s.len() || is_space_char(s[k]),
    ensures
        first_token_len(s) == k,
    decreases k,
{
    if k == 0 {
    } else {
        let t = s.drop_first();
        assert(forall|j: int| 0 <= j < k - 1 ==> !is_space_char(t[j]));
        lemma_first_token_len_at(t, k - 1);
    }
}

/// A plan for one search request: either the result already stands, or the
/// index must be consulted with a match expression and row window.
pub enum SearchPlan {
    /// The query was empty after trimming: the empty result, with no index
    /// scan.
    Done(SearchResult),
    /// Count and fetch rows matching `match_expr` for the vault, newest
    /// first, `limit` rows from `offset`.
    RunIndex { match_expr: String, offset: u64 },
}

/// Service for entry search operations.
pub struct EntrySearchService;

impl EntrySearchService {
    /// Builds the match expression with prefix matching: tokens are split
    /// on whitespace, embedded double quotes are doubled, and each token is
    /// wrapped as a quoted prefix term.
    #[verifier::loop_isolation(false)]
    pub fn build_fts_query(query: &str) -> (r: String)
        ensures
            r@ == fts_query_spec(query@),
    {
        proof {
            reveal_strlit(" ");
            reveal_strlit("\"");
            reveal_strlit("\"*");
        }
        let n = query.unicode_len();
        let mut toks: Vec<String> = Vec::new();
        let mut i: usize = 0;
        proof {
            assert(query@.subrange(0, n as int) =~= query@);
        }
        while i < n
            invariant
                0 <= i <= n,
                toks.deep_view() + split_ws(query@.subrange(i as int, n as int)) == split_ws(
                    query@,
                ),
            decreases n - i,
        {
            let ghost rest = query@.subrange(i as int, n as int);
            if is_space(query.get_char(i)) {
                proof {
                    assert(rest.drop_first() =~= query@.subrange(i + 1, n as int));
                }
                i = i + 1;
            } else {
                let start = i;
                i = i + 1;
                while i < n && !is_space(query.get_char(i))
                    invariant
                        start < i <= n,
                        forall|j: int| start <= j < i ==> !is_space_char(query@[j]),
                    decreases n - i,
                {
                    i = i + 1;
                }
                proof {
                    assert(forall|j: int|
                        0 <= j < i - start ==> !is_space_char(rest[j]));
                    if i < n {
                        assert(is_space_char(rest[i - start]));
                    }
                    lemma_first_token_len_at(rest, i - start);
                    assert(rest.subrange(0, i - start) =~= query@.subrange(
                        start as int,
                        i as int,
                    ));
                    assert(rest.subrange(i - start, rest.len() as int) =~= query@.subrange(
                        i as int,
                        n as int,
                    ));
                }
                let piece = query.substring_char(start, i);
                let tok = String::from_str(piece);
                let ghost before = toks.deep_view();
                toks.push(tok);
                proof {
                    assert(toks.deep_view() =~= before.push(query@.subrange(
                        start as int,
                        i as int,
                    )));
                    assert(before.push(query@.subrange(start as int, i as int)) + split_ws(
                        query@.subrange(i as int, n as int),
                    ) =~= before + (seq![
                        query@.subrange(start as int, i as int),
                    ] + split_ws(query@.subrange(i as int, n as int))));
                }
            }
        }
        proof {
            assert(query@.subrange(n as int, n as int).len() == 0);
            assert(toks.deep_view() + split_ws(query@.subrange(n as int, n as int))
                =~= toks.deep_view());
        }
        let ghost ts = toks.deep_view();
        let m = toks.len();
        let mut out = String::new();
        let mut k: usize = 0;
        while k < m
            invariant
                0 <= k <= m,
                out@ == join_tokens(ts.subrange(0, k as int)),
            decreases m - k,
        {
            let ghost pre = ts.subrange(0, k as int);
            let ghost cur = ts.subrange(0, k + 1);
            proof {
                assert(cur.drop_last() =~= pre);
                assert(cur.last() == ts[k as int]);
            }
            if k > 0 {
                out.append(" ");
            }
            out.append("\"");
            let t = &toks[k];
            let tn = t.unicode_len();
            let mut j: usize = 0;
            let ghost mid = out@;
            while j < tn
                invariant
                    0 <= j <= tn,
                    out@ == mid + escape_quotes(t@.subrange(0, j as int)),
                decreases tn - j,
            {
                let ghost ep = t@.subrange(0, j as int);
                let ghost ec = t@.subrange(0, j + 1);
                proof {
                    assert(ec.drop_last() =~= ep);
                    assert(ec.last() == t@[j as int]);
                }
                if t.get_char(j) == '"' {
                    out.append("\"");
                    out.append("\"");
                } else {
                    let piece = t.substring_char(j, j + 1);
                    proof {
                        assert(t@.subrange(j as int, j + 1) =~= seq![t@[j as int]]);
                    }
                    out.append(piece);
                }
                proof {
                    assert(out@ =~= mid + escape_quotes(ec));
                }
                j = j + 1;
            }
            proof {
                assert(t@.subrange(0, tn as int) =~= t@);
            }
            out.append("\"*");
            proof {
                assert(out@ =~= join_tokens(cur));
            }
            k = k + 1;
        }
        proof {
            assert(ts.subrange(0, m as int) =~= ts);
        }
        out
    }

    /// Decides one search request: the vault must exist; an empty trimmed
    /// query short-circuits to the empty result without touching the index;
    /// otherwise the index is to be consulted with the built match
    /// expression and the window starting at `page * limit`.
    pub fn plan_search(
        vault_exists: bool,
        vault_id: i32,
        query: &str,
        page: u64,
        limit: u64,
    ) -> (r: Result<SearchPlan, AppError>)
        requires
            page * limit <= u64::MAX,
        ensures
            !vault_exists ==> (r matches Err(AppError::VaultNotFound(v)) && v == vault_id),
            vault_exists ==> (r matches Ok(plan) && {
                let trimmed = trim_spec(query@);
                if trimmed.len() == 0 {
                    plan matches SearchPlan::Done(res) && res.entries@.len() == 0 && res.total == 0
                        && res.query@.len() == 0 && res.page == page && res.limit == limit
                        && !res.has_more
                } else {
                    plan matches SearchPlan::RunIndex { match_expr, offset } && match_expr@
                        == fts_query_spec(trimmed) && offset == page * limit
                }
            }),
    {
        if !vault_exists {
            return Err(AppError::VaultNotFound(vault_id));
        }
        let trimmed = trim_str(query);
        if trimmed.unicode_len() == 0 {
            return Ok(
                SearchPlan::Done(
                    SearchResult {
                        entries: Vec::new(),
                        total: 0,
                        query: String::new(),
                        page,
                        limit,
                        has_more: false,
                    },
                ),
            );
        }
        let match_expr = Self::build_fts_query(trimmed.as_str());
        Ok(SearchPlan::RunIndex { match_expr, offset: page * limit })
    }

    /// Assembles the search result from what the index returned: the rows
    /// of the requested window and the total match count decide `has_more`.
    pub fn search_finish(
        query: String,
        page: u64,
        limit: u64,
        total: i64,
        entries: Vec<EntryDto>,
    ) -> (r: SearchResult)
        ensures
            r.entries@ == entries@,
            r.total == total,
            r.query@ == query@,
            r.page == page,
            r.limit == limit,
            r.has_more == has_more_spec(page as int, limit as int, total as int),
    {
        let has_more: bool = if total <= 0 {
            proof {
                assert((page + 1) * limit >= 0) by (nonlinear_arith);
            }
            false
        } else {
            proof {
                vstd::arithmetic::mul::lemma_mul_upper_bound(
                    page as int + 1,
                    0x1_0000_0000_0000_0000,
                    limit as int,
                    0xffff_ffff_ffff_ffff,
                );
            }
            let lhs: u128 = (page as u128 + 1) * (limit as u128);
            lhs < total as u128
        };
        SearchResult { entries, total, query, page, limit, has_more }
    }
}

} // verus!
