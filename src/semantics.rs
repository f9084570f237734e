use vstd::prelude::*;
use crate::options::MatchSemantics;

verus! {

/// One reported match: pattern `pattern_index` occurs in the text over the
/// byte range `start..end`.
#[derive(Clone, Copy, Debug, PartialEq, Eq, Structural)]
pub struct AhoCorasickMatch {
    pub end: usize,
    pub pattern_index: usize,
    pub start: usize,
}

/// ASCII upper-case letters mapped to lower case; every other byte unchanged.
pub open spec fn fold_byte(b: u8) -> u8 {
    if 65 <= b && b <= 90 {
        (b + 32) as u8
    } else {
        b
    }
}

/// Whether two bytes are equal, up to ASCII case when `fold` is set.
pub open spec fn byte_matches(fold: bool, a: u8, b: u8) -> bool {
    if fold {
        fold_byte(a) == fold_byte(b)
    } else {
        a == b
    }
}

/// Whether pattern `pid` occurs in `text` starting at byte `start`.
pub open spec fn occurs_at(pats: Seq<Seq<u8>>, fold: bool, text: Seq<u8>, pid: int, start: int) -> bool {
    &&& 0 <= pid < pats.len()
    &&& 0 <= start
    &&& start + pats[pid].len() <= text.len()
    &&& forall|k: int| 0 <= k < pats[pid].len() ==> byte_matches(fold, #[trigger] text[start + k], pats[pid][k])
}

/// Whether a match starting at `start` is allowed for a search that begins
/// at `from`: exactly there when anchored, anywhere after it otherwise.
pub open spec fn in_span(anchored: bool, from: int, start: int) -> bool {
    if anchored {
        start == from
    } else {
        from <= start
    }
}

/// An occurrence that a search beginning at `from` may report.
pub open spec fn candidate(
    pats: Seq<Seq<u8>>,
    fold: bool,
    text: Seq<u8>,
    from: int,
    anchored: bool,
    pid: int,
    start: int,
) -> bool {
    occurs_at(pats, fold, text, pid, start) && in_span(anchored, from, start)
}

/// Whether any occurrence may be reported by a search beginning at `from`.
pub open spec fn has_candidate(pats: Seq<Seq<u8>>, fold: bool, text: Seq<u8>, from: int, anchored: bool) -> bool {
    exists|pid: int, start: int| candidate(pats, fold, text, from, anchored, pid, start)
}

/// Whether `m` records an occurrence with consistent offsets.
pub open spec fn is_occurrence(pats: Seq<Seq<u8>>, fold: bool, text: Seq<u8>, m: AhoCorasickMatch) -> bool {
    &&& occurs_at(pats, fold, text, m.pattern_index as int, m.start as int)
    &&& m.end == m.start + pats[m.pattern_index as int].len()
}

/// Whether `m` is the match that the given semantics picks among all the
/// candidates of a search beginning at `from`:
/// - leftmost-first: the leftmost start, then the pattern given first;
/// - leftmost-longest: the leftmost start, then the longest pattern, then
///   the pattern given first;
/// - standard: a match that ends no later than any other candidate.
pub open spec fn preferred(
    pats: Seq<Seq<u8>>,
    fold: bool,
    kind: MatchSemantics,
    text: Seq<u8>,
    from: int,
    anchored: bool,
    m: AhoCorasickMatch,
) -> bool {
    &&& is_occurrence(pats, fold, text, m)
    &&& in_span(anchored, from, m.start as int)
    &&& forall|pid: int, start: int|
        #[trigger] candidate(pats, fold, text, from, anchored, pid, start) ==> match kind {
            MatchSemantics::LeftmostFirst => m.start < start || (m.start == start
                && m.pattern_index <= pid),
            MatchSemantics::LeftmostLongest => m.start < start || (m.start == start && (pats[pid].len()
                < pats[m.pattern_index as int].len() || (pats[pid].len() == pats[
                m.pattern_index as int].len() && m.pattern_index <= pid))),
            MatchSemantics::Standard => m.end <= start + pats[pid].len(),
        }
}

/// What a single search beginning at `from` returns: nothing exactly when no
/// candidate exists, else the preferred candidate.
pub open spec fn first_match(
    pats: Seq<Seq<u8>>,
    fold: bool,
    kind: MatchSemantics,
    text: Seq<u8>,
    from: int,
    anchored: bool,
    r: Option<AhoCorasickMatch>,
) -> bool {
    match r {
        None => !has_candidate(pats, fold, text, from, anchored),
        Some(m) => preferred(pats, fold, kind, text, from, anchored, m),
    }
}

/// Whether the search beginning at `p` reports an empty match at `p` itself.
pub open spec fn empty_first_at(
    pats: Seq<Seq<u8>>,
    fold: bool,
    kind: MatchSemantics,
    text: Seq<u8>,
    p: int,
    anchored: bool,
) -> bool {
    exists|m: AhoCorasickMatch|
        #[trigger] preferred(pats, fold, kind, text, p, anchored, m) && m.start == p && m.end == p
}

/// Where the `i`-th search of a non-overlapping scan begins: at the end of
/// the previous match, or at offset zero for the first.
pub open spec fn resume_at(r: Seq<AhoCorasickMatch>, i: int) -> int {
    if i == 0 {
        0
    } else {
        r[i - 1].end as int
    }
}

/// Whether `r` is the non-overlapping scan of `text`: each search begins at
/// the end of the previous match, and an empty match at the very offset where
/// the previous match ended is passed over by searching again one byte on.
/// The scan stops at the first search that finds nothing.
pub open spec fn is_scan(
    pats: Seq<Seq<u8>>,
    fold: bool,
    kind: MatchSemantics,
    text: Seq<u8>,
    anchored: bool,
    r: Seq<AhoCorasickMatch>,
) -> bool {
    &&& forall|i: int|
        0 <= i < r.len() ==> {
            let p = resume_at(r, i);
            ||| (preferred(pats, fold, kind, text, p, anchored, #[trigger] r[i]) && !(i > 0
                && r[i].start == p && r[i].end == p))
            ||| (i > 0 && empty_first_at(pats, fold, kind, text, p, anchored) && preferred(
                pats,
                fold,
                kind,
                text,
                p + 1,
                anchored,
                r[i],
            ))
        }
    &&& {
        let p = resume_at(r, r.len() as int);
        ||| !has_candidate(pats, fold, text, p, anchored)
        ||| (r.len() > 0 && empty_first_at(pats, fold, kind, text, p, anchored)
            && !has_candidate(pats, fold, text, p + 1, anchored))
    }
}

/// Whether every record of `r` is an occurrence, every occurrence of every
/// pattern in `text` is among them, and their end offsets never decrease.
/// An occurrence may be listed more than once.
pub open spec fn is_overlapping_report(pats: Seq<Seq<u8>>, fold: bool, text: Seq<u8>, r: Seq<AhoCorasickMatch>) -> bool {
    &&& forall|i: int| 0 <= i < r.len() ==> is_occurrence(pats, fold, text, #[trigger] r[i])
    &&& forall|pid: int, start: int|
        #[trigger] occurs_at(pats, fold, text, pid, start) ==> r.contains(
            AhoCorasickMatch {
                end: (start + pats[pid].len()) as usize,
                pattern_index: pid as usize,
                start: start as usize,
            },
        )
    &&& ends_ordered(r)
}

/// Whether the end offsets of `r` never decrease.
pub open spec fn ends_ordered(r: Seq<AhoCorasickMatch>) -> bool {
    forall|i: int, j: int| 0 <= i < j < r.len() ==> r[i].end <= r[j].end
}

/// Whether `r` lists every occurrence of every pattern in `text` exactly
/// once, in order of their end offsets.
pub open spec fn is_overlapping_scan(pats: Seq<Seq<u8>>, fold: bool, text: Seq<u8>, r: Seq<AhoCorasickMatch>) -> bool {
    &&& r.no_duplicates()
    &&& is_overlapping_report(pats, fold, text, r)
}

/// `s` with every record after its first appearance left out.
pub open spec fn without_repeats(s: Seq<AhoCorasickMatch>) -> Seq<AhoCorasickMatch>
    decreases s.len(),
{
    if s.len() == 0 {
        Seq::empty()
    } else {
        let d = without_repeats(s.drop_last());
        if d.contains(s.last()) {
            d
        } else {
            d.push(s.last())
        }
    }
}

/// Leaving out repeats keeps exactly the records of `s`, each once, in an
/// order that keeps end offsets ordered, with the first record first.
pub proof fn lemma_without_repeats(s: Seq<AhoCorasickMatch>)
    ensures
        without_repeats(s).no_duplicates(),
        forall|x: AhoCorasickMatch| #[trigger] without_repeats(s).contains(x) <==> s.contains(x),
        ends_ordered(s) ==> ends_ordered(without_repeats(s)),
        s.len() == 0 <==> without_repeats(s).len() == 0,
        s.len() > 0 ==> without_repeats(s)[0] == s[0],
    decreases s.len(),
{
    if s.len() > 0 {
        let t = s.drop_last();
        let d = without_repeats(t);
        lemma_without_repeats(t);
        assert forall|x: AhoCorasickMatch| s.contains(x) <==> (t.contains(x) || x == s.last()) by {
            if s.contains(x) {
                let k = choose|k: int| 0 <= k < s.len() && s[k] == x;
                if k < s.len() - 1 {
                    assert(t[k] == x);
                }
            }
            if t.contains(x) {
                let k = choose|k: int| 0 <= k < t.len() && t[k] == x;
                assert(s[k] == x);
            }
            if x == s.last() {
                assert(s[s.len() - 1] == x);
            }
        }
        if !d.contains(s.last()) {
            let e = d.push(s.last());
            assert forall|x: AhoCorasickMatch| e.contains(x) <==> (d.contains(x) || x == s.last()) by {
                if e.contains(x) {
                    let k = choose|k: int| 0 <= k < e.len() && e[k] == x;
                    if k < d.len() {
                        assert(d[k] == x);
                    }
                }
                if d.contains(x) {
                    let k = choose|k: int| 0 <= k < d.len() && d[k] == x;
                    assert(e[k] == x);
                }
                if x == s.last() {
                    assert(e[e.len() - 1] == x);
                }
            }
            assert forall|i: int, j: int| 0 <= i < j < e.len() implies e[i] != e[j] by {
                if j == e.len() - 1 {
                    assert(d[i] == e[i]);
                }
            }
            if ends_ordered(s) {
                assert(ends_ordered(t));
                assert forall|i: int, j: int| 0 <= i < j < e.len() implies e[i].end <= e[j].end by {
                    if j == e.len() - 1 {
                        assert(d.contains(e[i]));
                        let k = choose|k: int| 0 <= k < t.len() && t[k] == e[i];
                        assert(s[k] == t[k]);
                    }
                }
            }
            if t.len() > 0 {
                assert(e[0] == d[0]);
                assert(t[0] == s[0]);
            }
        } else {
            if t.len() == 0 {
                assert(!d.contains(s.last()));
            }
            assert(t[0] == s[0]);
            if ends_ordered(s) {
                assert(ends_ordered(t));
            }
        }
    }
}

/// Leaving the repeats out of an overlapping report gives the exact scan,
/// with the same first record.
pub proof fn lemma_report_without_repeats(pats: Seq<Seq<u8>>, fold: bool, text: Seq<u8>, r: Seq<AhoCorasickMatch>)
    requires
        is_overlapping_report(pats, fold, text, r),
    ensures
        is_overlapping_scan(pats, fold, text, without_repeats(r)),
        r.len() == 0 <==> without_repeats(r).len() == 0,
        r.len() > 0 ==> without_repeats(r)[0] == r[0],
{
    lemma_without_repeats(r);
    let d = without_repeats(r);
    assert forall|i: int| 0 <= i < d.len() implies is_occurrence(pats, fold, text, #[trigger] d[i]) by {
        assert(d.contains(d[i]));
        let k = choose|k: int| 0 <= k < r.len() && r[k] == d[i];
    }
}

/// Under the leftmost semantics, a search that begins no later than the
/// start of the match another search picked, and no earlier than that other
/// search, picks a match with the same offsets.
proof fn lemma_leftmost_stable(
    pats: Seq<Seq<u8>>,
    fold: bool,
    kind: MatchSemantics,
    text: Seq<u8>,
    anchored: bool,
    q: int,
    p: int,
    m1: AhoCorasickMatch,
    m2: AhoCorasickMatch,
)
    requires
        kind != MatchSemantics::Standard,
        q <= p <= m1.start,
        preferred(pats, fold, kind, text, q, anchored, m1),
        preferred(pats, fold, kind, text, p, anchored, m2),
    ensures
        m2.start == m1.start,
        m2.end == m1.end,
{
    assert(candidate(pats, fold, text, p, anchored, m1.pattern_index as int, m1.start as int));
    assert(candidate(pats, fold, text, q, anchored, m2.pattern_index as int, m2.start as int));
}

/// A non-overlapping scan is empty exactly when no occurrence may be
/// reported by a search from the start of the text.
pub proof fn lemma_scan_nonempty(
    pats: Seq<Seq<u8>>,
    fold: bool,
    kind: MatchSemantics,
    text: Seq<u8>,
    anchored: bool,
    r: Seq<AhoCorasickMatch>,
)
    requires
        is_scan(pats, fold, kind, text, anchored, r),
    ensures
        r.len() > 0 <==> has_candidate(pats, fold, text, 0, anchored),
{
    if r.len() > 0 {
        assert(resume_at(r, 0) == 0);
        assert(candidate(pats, fold, text, 0, anchored, r[0].pattern_index as int, r[0].start as int));
    }
}

/// An overlapping scan is empty exactly when no pattern occurs in the text.
pub proof fn lemma_overlapping_scan_nonempty(
    pats: Seq<Seq<u8>>,
    fold: bool,
    text: Seq<u8>,
    r: Seq<AhoCorasickMatch>,
)
    requires
        is_overlapping_scan(pats, fold, text, r),
    ensures
        r.len() > 0 <==> has_candidate(pats, fold, text, 0, false),
{
    if r.len() > 0 {
        assert(is_occurrence(pats, fold, text, r[0]));
        assert(candidate(pats, fold, text, 0, false, r[0].pattern_index as int, r[0].start as int));
    }
    if has_candidate(pats, fold, text, 0, false) {
        let (pid, start) = choose|pid: int, start: int| candidate(pats, fold, text, 0, false, pid, start);
        assert(occurs_at(pats, fold, text, pid, start));
    }
}

/// Under the leftmost semantics, the matches of a non-overlapping scan never
/// overlap and their start offsets strictly increase.
pub proof fn lemma_scan_ordered(
    pats: Seq<Seq<u8>>,
    fold: bool,
    kind: MatchSemantics,
    text: Seq<u8>,
    anchored: bool,
    r: Seq<AhoCorasickMatch>,
)
    requires
        kind != MatchSemantics::Standard,
        is_scan(pats, fold, kind, text, anchored, r),
    ensures
        forall|i: int|
            0 < i < r.len() ==> r[i - 1].end <= (#[trigger] r[i]).start && r[i - 1].start < r[i].start,
{
    assert forall|i: int| 0 < i < r.len() implies r[i - 1].end <= (#[trigger] r[i]).start && r[i
        - 1].start < r[i].start by {
        let p = r[i - 1].end as int;
        assert(resume_at(r, i) == p);
        let q0 = resume_at(r, i - 1);
        let q = if preferred(pats, fold, kind, text, q0, anchored, r[i - 1]) {
            q0
        } else {
            q0 + 1
        };
        assert(preferred(pats, fold, kind, text, q, anchored, r[i - 1]));
        if r[i - 1].start == r[i - 1].end && preferred(pats, fold, kind, text, p, anchored, r[i]) {
            lemma_leftmost_stable(pats, fold, kind, text, anchored, q, p, r[i - 1], r[i]);
        }
    }
}

/// With no patterns, nothing is ever reported.
pub proof fn lemma_no_patterns(fold: bool, text: Seq<u8>, from: int, anchored: bool)
    ensures
        !has_candidate(Seq::<Seq<u8>>::empty(), fold, text, from, anchored),
{
}

/// An empty pattern occurs at every offset of the text, its end included, so
/// an overlapping scan reports it at each of them.
pub proof fn lemma_empty_pattern_everywhere(
    pats: Seq<Seq<u8>>,
    fold: bool,
    text: Seq<u8>,
    r: Seq<AhoCorasickMatch>,
    e: usize,
)
    requires
        is_overlapping_scan(pats, fold, text, r),
        e < pats.len(),
        pats[e as int].len() == 0,
    ensures
        forall|k: usize|
            k <= text.len() ==> #[trigger] r.contains((AhoCorasickMatch { end: k, pattern_index: e, start: k })),
{
    assert forall|k: usize| k <= text.len() implies #[trigger] r.contains((AhoCorasickMatch { end: k, pattern_index: e, start: k })) by {
        assert(occurs_at(pats, fold, text, e as int, k as int));
    }
}

/// Under the leftmost semantics, a single search from the start of the text
/// reports the first match of the non-overlapping scan.
pub proof fn lemma_find_heads_scan(
    pats: Seq<Seq<u8>>,
    fold: bool,
    kind: MatchSemantics,
    text: Seq<u8>,
    anchored: bool,
    m: AhoCorasickMatch,
    r: Seq<AhoCorasickMatch>,
)
    requires
        kind != MatchSemantics::Standard,
        first_match(pats, fold, kind, text, 0, anchored, Some(m)),
        is_scan(pats, fold, kind, text, anchored, r),
    ensures
        r.len() > 0,
        r[0] == m,
{
    assert(candidate(pats, fold, text, 0, anchored, m.pattern_index as int, m.start as int));
    lemma_scan_nonempty(pats, fold, kind, text, anchored, r);
    assert(resume_at(r, 0) == 0);
    lemma_leftmost_stable(pats, fold, kind, text, anchored, 0, 0, m, r[0]);
    assert(candidate(pats, fold, text, 0, anchored, r[0].pattern_index as int, r[0].start as int));
}

proof fn lemma_anchored_empty_step(
    pats: Seq<Seq<u8>>,
    fold: bool,
    text: Seq<u8>,
    r: Seq<AhoCorasickMatch>,
    e: int,
    i: int,
)
    requires
        is_scan(pats, fold, MatchSemantics::Standard, text, true, r),
        0 <= e < pats.len(),
        pats[e].len() == 0,
        0 <= i < r.len(),
    ensures
        r[i].start == i,
        r[i].end == i,
    decreases i,
{
    let p = resume_at(r, i);
    if i > 0 {
        lemma_anchored_empty_step(pats, fold, text, r, e, i - 1);
        assert(p == i - 1);
    }
    assert(is_occurrence(pats, fold, text, r[i]));
    if preferred(pats, fold, MatchSemantics::Standard, text, p, true, r[i]) {
        assert(candidate(pats, fold, text, p, true, e, p));
    }
    if i > 0 && preferred(pats, fold, MatchSemantics::Standard, text, p + 1, true, r[i]) {
        assert(candidate(pats, fold, text, p + 1, true, e, p + 1));
    }
}

/// Under standard semantics an anchored scan of a pattern set holding an
/// empty pattern reports one empty match at every offset of the text, its
/// end included.
pub proof fn lemma_anchored_empty_pattern_everywhere(
    pats: Seq<Seq<u8>>,
    fold: bool,
    text: Seq<u8>,
    r: Seq<AhoCorasickMatch>,
    e: int,
)
    requires
        is_scan(pats, fold, MatchSemantics::Standard, text, true, r),
        0 <= e < pats.len(),
        pats[e].len() == 0,
    ensures
        r.len() == text.len() + 1,
        forall|i: int| 0 <= i < r.len() ==> (#[trigger] r[i]).start == i && r[i].end == i,
{
    assert forall|i: int| 0 <= i < r.len() implies (#[trigger] r[i]).start == i && r[i].end == i by {
        lemma_anchored_empty_step(pats, fold, text, r, e, i);
    }
    let n = r.len() as int;
    let p = resume_at(r, n);
    if n == 0 {
        assert(candidate(pats, fold, text, 0, true, e, 0));
    } else {
        assert(r[n - 1].end == n - 1);
        assert(is_occurrence(pats, fold, text, r[n - 1]));
        assert(candidate(pats, fold, text, p, true, e, p));
        if n <= text.len() {
            assert(candidate(pats, fold, text, p + 1, true, e, p + 1));
        }
    }
}

} // verus!
