//! The query filter and runner: decides, for each log line, whether it
//! satisfies a set of filter parameters, and scans a file's lines in order,
//! honouring a result limit.
//!
//! All bound comparisons are plain lexicographic string comparisons on the
//! raw line text; they coincide with chronological order only because the
//! timestamp prefix is fixed-width and zero-padded. Tag filters are substring
//! searches for `#tag`, so a filter `work` also matches `#workshop`; that is
//! a documented limitation of the format, kept as is.

use vstd::prelude::*;
use vstd::string::StringExecFns;

use crate::clock::{date_chars, date_days_back};
use crate::text::{contains_seq, contains_str, lex_lt, lex_lt_exec};

verus! {

/// Errors of the query component.
#[derive(Debug, Clone, Copy, PartialEq, Eq, Structural)]
pub enum QueryError {
    /// The synthetic lower bound of a recency filter could not be computed:
    /// the day count is out of range, or the clock could not render the
    /// date. Fatal, as every timestamp construction failure is.
    RecentBoundUnavailable,
}

impl QueryError {
    /// A human-readable description of the error.
    pub fn message(&self) -> (r: String)
        ensures
            r@ == "computing the recency bound failed"@,
    {
        String::from_str("computing the recency bound failed")
    }
}

/// Filter parameters for one query run. All filters are optional and
/// independent; they combine conjunctively.
#[derive(Debug, Clone)]
pub struct Query {
    /// Inclusive lexicographic lower bound on the line text.
    pub begin: Option<String>,
    /// Exclusive lexicographic upper bound on the line text.
    pub end: Option<String>,
    /// Tags that must all occur in the line as `#tag` substrings.
    pub tag: Option<Vec<String>>,
    /// Only lines from the last N days: turned into a synthetic lower bound.
    pub recent: Option<u64>,
    /// Maximum number of lines a query run emits.
    pub limit: Option<u64>,
}

/// The largest day count whose count of seconds still fits a signed 64-bit
/// integer; a recency filter beyond it yields no bound.
pub const MAX_RECENT_DAYS: u64 = 106_751_991_167_300;

/// The substring a tag filter looks for: `#` followed by the tag text.
pub open spec fn tag_pattern(t: Seq<char>) -> Seq<char> {
    seq!['#'] + t
}

/// A lower bound passes when the line is at or above it; no bound always
/// passes.
pub open spec fn begin_ok(line: Seq<char>, begin: Option<Seq<char>>) -> bool {
    match begin {
        None => true,
        Some(b) => !lex_lt(line, b),
    }
}

/// An upper bound passes when the line is strictly below it.
pub open spec fn end_ok(line: Seq<char>, end: Option<Seq<char>>) -> bool {
    match end {
        None => true,
        Some(e) => lex_lt(line, e),
    }
}

/// A tag filter passes when every required tag occurs in the line.
pub open spec fn tags_ok(line: Seq<char>, tags: Option<Seq<Seq<char>>>) -> bool {
    match tags {
        None => true,
        Some(ts) => forall|k: int|
            0 <= k < ts.len() ==> contains_seq(line, tag_pattern(ts[k])),
    }
}

/// A line matches when every set filter accepts it: the filters are
/// conjunctive. The recency bound is an extra inclusive lower bound.
pub open spec fn line_matches(
    line: Seq<char>,
    begin: Option<Seq<char>>,
    end: Option<Seq<char>>,
    tags: Option<Seq<Seq<char>>>,
    recent: Option<Seq<char>>,
) -> bool {
    begin_ok(line, begin) && end_ok(line, end) && tags_ok(line, tags) && begin_ok(line, recent)
}

/// The view of an optional borrowed bound string.
pub open spec fn opt_bound_view(o: Option<&str>) -> Option<Seq<char>> {
    match o {
        None => None,
        Some(s) => Some(s@),
    }
}

/// Checks that `line` contains the substring `#tag`.
pub fn has_tag(line: &str, tag: &str) -> (r: bool)
    ensures
        r == contains_seq(line@, tag_pattern(tag@)),
{
    let mut pat = String::from_str("#");
    pat.append(tag);
    proof {
        reveal_strlit("#");
        assert(pat@ =~= tag_pattern(tag@));
    }
    contains_str(line, pat.as_str())
}

impl Query {
    /// The inclusive lower bound, as a character sequence.
    pub open spec fn begin_view(&self) -> Option<Seq<char>> {
        match self.begin {
            None => None,
            Some(b) => Some(b@),
        }
    }

    /// The exclusive upper bound, as a character sequence.
    pub open spec fn end_view(&self) -> Option<Seq<char>> {
        match self.end {
            None => None,
            Some(e) => Some(e@),
        }
    }

    /// The required tags, as character sequences.
    pub open spec fn tags_view(&self) -> Option<Seq<Seq<char>>> {
        match self.tag {
            None => None,
            Some(ts) => Some(ts.deep_view()),
        }
    }

    /// The match predicate of this query against one line, given the
    /// recency bound computed for the run.
    pub open spec fn spec_matches(&self, line: Seq<char>, recent: Option<Seq<char>>) -> bool {
        line_matches(line, self.begin_view(), self.end_view(), self.tags_view(), recent)
    }

    /// Returns the line unchanged when it passes every set filter, and
    /// `None` otherwise. `recent_bound` is the synthetic lower bound
    /// computed once per query run from the `recent` parameter.
    pub fn query_map<'a>(&self, log: &'a str, recent_bound: Option<&str>) -> (r: Option<&'a str>)
        ensures
            r matches Some(l) ==> l@ == log@,
            (r is Some) == self.spec_matches(log@, opt_bound_view(recent_bound)),
    {
        match &self.begin {
            Some(b) => {
                if lex_lt_exec(log, b.as_str()) {
                    return None;
                }
            },
            None => {},
        }
        match &self.end {
            Some(e) => {
                if !lex_lt_exec(log, e.as_str()) {
                    return None;
                }
            },
            None => {},
        }
        match &self.tag {
            Some(tags) => {
                let mut k: usize = 0;
                while k < tags.len()
                    invariant
                        k <= tags.len(),
                        self.tags_view() == Some(tags.deep_view()),
                        forall|j: int|
                            0 <= j < k ==> contains_seq(
                                log@,
                                tag_pattern(tags.deep_view()[j]),
                            ),
                    decreases tags.len() - k,
                {
                    if !has_tag(log, tags[k].as_str()) {
                        proof {
                            assert(tags.deep_view()[k as int] == tags@[k as int]@);
                            assert(!contains_seq(log@, tag_pattern(tags.deep_view()[k as int])));
                            if tags_ok(log@, self.tags_view()) {
                                let ts = self.tags_view()->Some_0;
                                assert(ts == tags.deep_view());
                                assert(contains_seq(log@, tag_pattern(ts[k as int])));
                            }
                        }
                        return None;
                    }
                    k = k + 1;
                }
            },
            None => {},
        }
        match recent_bound {
            Some(rb) => {
                if lex_lt_exec(log, rb) {
                    return None;
                }
            },
            None => {},
        }
        Some(log)
    }
}

/// The lines among `lines`, in order, that pass every filter.
pub open spec fn matching_lines(
    lines: Seq<Seq<char>>,
    begin: Option<Seq<char>>,
    end: Option<Seq<char>>,
    tags: Option<Seq<Seq<char>>>,
    recent: Option<Seq<char>>,
) -> Seq<Seq<char>>
    decreases lines.len(),
{
    if lines.len() == 0 {
        Seq::empty()
    } else {
        let rest = matching_lines(lines.drop_last(), begin, end, tags, recent);
        if line_matches(lines.last(), begin, end, tags, recent) {
            rest.push(lines.last())
        } else {
            rest
        }
    }
}

/// The results a run emits: all of them without a limit, and the first
/// `k` with `limit = k`.
pub open spec fn limited(results: Seq<Seq<char>>, limit: Option<u64>) -> Seq<Seq<char>> {
    match limit {
        None => results,
        Some(k) => if results.len() <= k {
            results
        } else {
            results.take(k as int)
        },
    }
}

/// Scanning a prefix of the file yields a prefix of the full scan's results.
pub proof fn lemma_matching_lines_prefix(
    lines: Seq<Seq<char>>,
    i: int,
    begin: Option<Seq<char>>,
    end: Option<Seq<char>>,
    tags: Option<Seq<Seq<char>>>,
    recent: Option<Seq<char>>,
)
    requires
        0 <= i <= lines.len(),
    ensures
        matching_lines(lines.take(i), begin, end, tags, recent).is_prefix_of(
            matching_lines(lines, begin, end, tags, recent),
        ),
    decreases lines.len(),
{
    if i == lines.len() {
        assert(lines.take(i) =~= lines);
    } else {
        lemma_matching_lines_prefix(lines.drop_last(), i, begin, end, tags, recent);
        assert(lines.drop_last().take(i) =~= lines.take(i));
        let pre = matching_lines(lines.take(i), begin, end, tags, recent);
        let mid = matching_lines(lines.drop_last(), begin, end, tags, recent);
        let full = matching_lines(lines, begin, end, tags, recent);
        if line_matches(lines.last(), begin, end, tags, recent) {
            assert(full == mid.push(lines.last()));
            assert(pre =~= mid.subrange(0, pre.len() as int));
            assert(pre =~= full.subrange(0, pre.len() as int));
        }
    }
}

impl Query {
    /// The synthetic lower bound of a recency filter: the UTC date
    /// `recent` days back, in the same zero-padded format as the timestamp
    /// prefix. `Ok(None)` exactly when no recency filter is set; an error
    /// when a bound is asked for but cannot be computed — a day count out
    /// of range, or a clock failure — since a filter must never be dropped
    /// silently.
    pub fn recent_date(&self) -> (r: Result<Option<String>, QueryError>)
        ensures
            (r matches Ok(b) && b is None) <==> self.recent is None,
            r matches Ok(Some(s)) ==> self.recent matches Some(d) && d <= MAX_RECENT_DAYS
                && s@.len() >= 10 && date_chars(s@),
            self.recent matches Some(d) && d > MAX_RECENT_DAYS ==> r is Err,
            r is Err ==> self.recent is Some,
    {
        match self.recent {
            None => Ok(None),
            Some(days) => {
                if days <= MAX_RECENT_DAYS {
                    let secs = days * 86400;
                    match date_days_back(secs as i64) {
                        Some(bound) => Ok(Some(bound)),
                        None => Err(QueryError::RecentBoundUnavailable),
                    }
                } else {
                    Err(QueryError::RecentBoundUnavailable)
                }
            },
        }
    }

    /// Scans `lines` in order and returns the matching ones, stopping once
    /// the configured limit is reached. `recent_bound` is the bound that
    /// `recent_date` computed for this run.
    pub fn run(&self, lines: &Vec<String>, recent_bound: Option<&str>) -> (r: Vec<String>)
        ensures
            r.deep_view() == limited(
                matching_lines(
                    lines.deep_view(),
                    self.begin_view(),
                    self.end_view(),
                    self.tags_view(),
                    opt_bound_view(recent_bound),
                ),
                self.limit,
            ),
    {
        let ghost lv = lines.deep_view();
        let ghost b = self.begin_view();
        let ghost e = self.end_view();
        let ghost t = self.tags_view();
        let ghost rb = opt_bound_view(recent_bound);
        let ghost full = matching_lines(lv, b, e, t, rb);
        let mut out: Vec<String> = Vec::new();
        let mut i: usize = 0;
        proof {
            assert(lv.take(0) =~= Seq::<Seq<char>>::empty());
        }
        while i < lines.len()
            invariant
                i <= lines.len(),
                lv == lines.deep_view(),
                b == self.begin_view(),
                e == self.end_view(),
                t == self.tags_view(),
                rb == opt_bound_view(recent_bound),
                full == matching_lines(lv, b, e, t, rb),
                out.deep_view() == matching_lines(lv.take(i as int), b, e, t, rb),
                match self.limit {
                    Some(k) => out.len() <= k,
                    None => true,
                },
            decreases lines.len() - i,
        {
            match self.limit {
                Some(k) => {
                    if out.len() as u64 >= k {
                        proof {
                            lemma_matching_lines_prefix(lv, i as int, b, e, t, rb);
                            assert(out.deep_view().len() == k);
                            assert(out.deep_view() =~= full.subrange(0, k as int));
                            if full.len() <= k {
                                assert(out.deep_view() =~= full);
                            } else {
                                assert(out.deep_view() =~= full.take(k as int));
                            }
                        }
                        return out;
                    }
                },
                None => {},
            }
            let line = &lines[i];
            let ghost prev = out.deep_view();
            proof {
                assert(lv[i as int] == lines@[i as int]@);
            }
            let matched = self.query_map(line.as_str(), recent_bound).is_some();
            if matched {
                let ghost prev_vec = out@;
                out.push(line.clone());
                proof {
                    assert(out@ == prev_vec.push(*line));
                    assert(out.deep_view() =~= prev.push(lv[i as int]));
                }
            }
            proof {
                let taken = lv.take(i + 1);
                assert(taken.drop_last() =~= lv.take(i as int));
                assert(taken.last() == lv[i as int]);
                assert(line@ == lv[i as int]);
                assert(matched == line_matches(lv[i as int], b, e, t, rb));
                if matched {
                    assert(matching_lines(taken, b, e, t, rb) == matching_lines(
                        lv.take(i as int),
                        b,
                        e,
                        t,
                        rb,
                    ).push(lv[i as int]));
                } else {
                    assert(matching_lines(taken, b, e, t, rb) == matching_lines(
                        lv.take(i as int),
                        b,
                        e,
                        t,
                        rb,
                    ));
                }
            }
            i = i + 1;
        }
        proof {
            assert(lv.take(i as int) =~= lv);
        }
        out
    }
}

/// A query whose only filter is an inclusive lower bound `b` keeps exactly
/// the lines at or above `b` in lexicographic order.
pub proof fn lemma_begin_filter(line: Seq<char>, b: Seq<char>)
    ensures
        line_matches(line, Some(b), None, None, None) <==> (lex_lt(b, line) || line == b),
{
    crate::text::lemma_lex_trichotomy(line, b);
}

/// A query whose only filter is an exclusive upper bound `e` keeps exactly
/// the lines strictly below `e` in lexicographic order.
pub proof fn lemma_end_filter(line: Seq<char>, e: Seq<char>)
    ensures
        line_matches(line, None, Some(e), None, None) <==> lex_lt(line, e),
{
}

/// A query whose only filters are tags keeps exactly the lines that contain
/// the substring `#t` for every required tag `t`.
pub proof fn lemma_tag_filter(line: Seq<char>, ts: Seq<Seq<char>>)
    ensures
        line_matches(line, None, None, Some(ts), None) <==> (forall|k: int|
            0 <= k < ts.len() ==> contains_seq(line, tag_pattern(ts[k]))),
{
    if tags_ok(line, Some(ts)) {
        assert forall|k: int| 0 <= k < ts.len() implies contains_seq(
            line,
            tag_pattern(ts[k]),
        ) by {
            let witness = Some(ts)->Some_0;
            assert(contains_seq(line, tag_pattern(witness[k])));
        }
    }
    if forall|k: int| 0 <= k < ts.len() ==> contains_seq(line, tag_pattern(ts[k])) {
        assert(tags_ok(line, Some(ts))) by {
            let witness = Some(ts)->Some_0;
            assert(witness == ts);
            assert forall|k: int| 0 <= k < witness.len() implies contains_seq(
                line,
                tag_pattern(witness[k]),
            ) by {
                assert(contains_seq(line, tag_pattern(ts[k])));
            }
        }
    }
}

/// Filters combine conjunctively: a line passes the combined query exactly
/// when it passes each single-filter query.
pub proof fn lemma_filters_conjunctive(
    line: Seq<char>,
    b: Option<Seq<char>>,
    e: Option<Seq<char>>,
    ts: Option<Seq<Seq<char>>>,
)
    ensures
        line_matches(line, b, e, ts, None) <==> (line_matches(line, b, None, None, None)
            && line_matches(line, None, e, None, None) && line_matches(
            line,
            None,
            None,
            ts,
            None,
        )),
{
}

/// A run with `limit = k` emits at most `k` lines, and they are a prefix of
/// the lines an unlimited run would emit, in the same order.
pub proof fn lemma_limit_prefix(
    lines: Seq<Seq<char>>,
    begin: Option<Seq<char>>,
    end: Option<Seq<char>>,
    tags: Option<Seq<Seq<char>>>,
    recent: Option<Seq<char>>,
    k: u64,
)
    ensures
        limited(matching_lines(lines, begin, end, tags, recent), Some(k)).len() <= k,
        limited(matching_lines(lines, begin, end, tags, recent), Some(k)).is_prefix_of(
            limited(matching_lines(lines, begin, end, tags, recent), None),
        ),
{
    let full = matching_lines(lines, begin, end, tags, recent);
    if full.len() <= k {
        assert(full =~= full.subrange(0, full.len() as int));
    } else {
        assert(full.take(k as int) =~= full.subrange(0, k as int));
    }
}

} // verus!
