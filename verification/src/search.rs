//! Incremental search over a buffer: find all non-overlapping occurrences
//! of a query, keep a navigable cursor over them, and rewrite them.
//!
//! The scan is specified by `scan_from`: the leftmost-first tiling of the
//! (case-folded) document with the (case-folded) query, each next scan
//! resuming at the end of the previous match so matches never overlap.
//! `lemma_scan_from_props` is the law behind that: every reported offset
//! is a real occurrence, reported offsets are pairwise non-overlapping and
//! ascending, and every real occurrence overlaps a reported one.

use vstd::prelude::*;
use crate::buffer::{delete_op, insert_op, Buffer, BufferView};
use crate::cursor::{Cursor, Position};
use crate::strutil::{chars_of, fold_lower, lower_of};
use crate::text::{col_of, line_of};

verus! {

/// One located occurrence of the query, cached in both offset and
/// (line, column) form.
#[derive(Debug, Clone)]
pub struct SearchMatch {
    pub start_line: usize,
    pub start_column: usize,
    pub end_line: usize,
    pub end_column: usize,
    pub start_offset: usize,
    pub end_offset: usize,
}

/// `q` occurs in `t` at offset `i`.
pub open spec fn is_match_at(t: Seq<char>, q: Seq<char>, i: int) -> bool {
    0 <= i && i + q.len() <= t.len() && t.subrange(i, i + q.len()) == q
}

/// Offsets of the leftmost-first non-overlapping occurrences of `q` in
/// `t`, scanning from `i`: each match is reported once and the scan
/// resumes at its end, so overlapping occurrences are not reported.
pub open spec fn scan_from(t: Seq<char>, q: Seq<char>, i: int) -> Seq<int>
    decreases t.len() - i,
{
    if q.len() == 0 || i < 0 || i + q.len() > t.len() {
        Seq::empty()
    } else if is_match_at(t, q, i) {
        seq![i] + scan_from(t, q, i + q.len())
    } else {
        scan_from(t, q, i + 1)
    }
}

/// Soundness, non-overlap, and completeness of the scan: every reported
/// offset is a real occurrence at or after the scan start; consecutive
/// reported offsets are a full query apart, so matches never overlap; and
/// every real occurrence at or after the scan start overlaps some
/// reported one (determinism: the scan is a function of `t` and `q`).
pub proof fn lemma_scan_from_props(t: Seq<char>, q: Seq<char>, i: int)
    requires
        0 <= i,
    ensures
        forall|k: int|
            0 <= k < scan_from(t, q, i).len() ==> is_match_at(t, q, #[trigger] scan_from(t, q, i)[k])
                && scan_from(t, q, i)[k] >= i,
        forall|k: int|
            0 <= k < scan_from(t, q, i).len() - 1 ==> #[trigger] scan_from(t, q, i)[k] + q.len()
                <= scan_from(t, q, i)[k + 1],
        forall|j: int|
            i <= j && q.len() > 0 && #[trigger] is_match_at(t, q, j) ==> exists|k: int|
                0 <= k < scan_from(t, q, i).len() && #[trigger] scan_from(t, q, i)[k] <= j
                    < scan_from(t, q, i)[k] + q.len(),
    decreases t.len() - i,
{
    let offs = scan_from(t, q, i);
    if q.len() == 0 || i + q.len() > t.len() {
        // Nothing is reported and no occurrence fits.
    } else if is_match_at(t, q, i) {
        let rest = scan_from(t, q, i + q.len());
        lemma_scan_from_props(t, q, i + q.len());
        assert(offs[0] == i);
        assert forall|k: int| 1 <= k < offs.len() implies is_match_at(t, q, #[trigger] offs[k])
            && offs[k] >= i by {
            assert(offs[k] == rest[k - 1]);
        }
        assert forall|k: int| 0 <= k < offs.len() - 1 implies #[trigger] offs[k] + q.len() <= offs[k
            + 1] by {
            if k == 0 {
                assert(offs[1] == rest[0]);
            } else {
                assert(offs[k] == rest[k - 1] && offs[k + 1] == rest[k]);
            }
        }
        assert forall|j: int| i <= j && q.len() > 0 && #[trigger] is_match_at(t, q, j) implies exists|
            k: int,
        | 0 <= k < offs.len() && #[trigger] offs[k] <= j < offs[k] + q.len() by {
            if j < i + q.len() {
                assert(offs[0] <= j < offs[0] + q.len());
            } else {
                let k0 = choose|k0: int|
                    0 <= k0 < rest.len() && #[trigger] rest[k0] <= j < rest[k0] + q.len();
                assert(offs[k0 + 1] == rest[k0]);
                assert(offs[k0 + 1] <= j < offs[k0 + 1] + q.len());
            }
        }
    } else {
        lemma_scan_from_props(t, q, i + 1);
        assert forall|j: int| i <= j && q.len() > 0 && #[trigger] is_match_at(t, q, j) implies exists|
            k: int,
        | 0 <= k < offs.len() && #[trigger] offs[k] <= j < offs[k] + q.len() by {
            assert(j != i);
        }
    }
}

/// Reported offsets are a full query apart even when not adjacent.
pub proof fn lemma_scan_from_gap(t: Seq<char>, q: Seq<char>, i: int, a: int, b: int)
    requires
        0 <= i,
        0 <= a < b < scan_from(t, q, i).len(),
    ensures
        scan_from(t, q, i)[a] + q.len() <= scan_from(t, q, i)[b],
    decreases b - a,
{
    lemma_scan_from_props(t, q, i);
    if b == a + 1 {
    } else {
        lemma_scan_from_gap(t, q, i, a + 1, b);
    }
}

/// Shape of a match list built over offsets that are ascending and a
/// full query apart: every record spans exactly one query length inside
/// the document, carries one of the offsets, and the records never
/// overlap.
proof fn lemma_match_list_sorted(t: Seq<char>, offs: Seq<int>, qlen: int)
    requires
        qlen >= 0,
        t.len() <= usize::MAX,
        forall|a: int, b: int| 0 <= a < b < offs.len() ==> offs[a] + qlen <= offs[b],
        forall|k: int| 0 <= k < offs.len() ==> #[trigger] offs[k] >= 0,
    ensures
        forall|a: int|
            0 <= a < match_list(t, offs, qlen).len() ==> exists|j: int|
                0 <= j < offs.len() && (#[trigger] match_list(t, offs, qlen)[a]).start_offset
                    == offs[j] && match_list(t, offs, qlen)[a].end_offset == offs[j] + qlen
                    && offs[j] + qlen <= t.len(),
        forall|a: int, b: int|
            0 <= a < b < match_list(t, offs, qlen).len() ==> (#[trigger] match_list(
                t,
                offs,
                qlen,
            )[a]).end_offset <= (#[trigger] match_list(t, offs, qlen)[b]).start_offset,
    decreases offs.len(),
{
    if offs.len() > 0 {
        let ms = match_list(t, offs, qlen);
        let prior = match_list(t, offs.drop_last(), qlen);
        lemma_match_list_sorted(t, offs.drop_last(), qlen);
        if offs.last() + qlen <= t.len() {
            let m = match_rec(t, offs.last(), qlen);
            assert(ms == prior.push(m));
            assert forall|a: int| 0 <= a < ms.len() implies exists|j: int|
                0 <= j < offs.len() && (#[trigger] ms[a]).start_offset == offs[j] && ms[a].end_offset
                    == offs[j] + qlen && offs[j] + qlen <= t.len() by {
                if a < prior.len() {
                    let j = choose|j: int|
                        0 <= j < offs.drop_last().len() && (#[trigger] prior[a]).start_offset
                            == offs.drop_last()[j] && prior[a].end_offset == offs.drop_last()[j]
                            + qlen && offs.drop_last()[j] + qlen <= t.len();
                    assert(offs.drop_last()[j] == offs[j]);
                    assert(ms[a] == prior[a]);
                } else {
                    assert(ms[a] == m);
                    assert(ms[a].start_offset == offs[offs.len() - 1]);
                }
            }
            assert forall|a: int, b: int| 0 <= a < b < ms.len() implies (
            #[trigger] ms[a]).end_offset <= (#[trigger] ms[b]).start_offset by {
                if b < prior.len() {
                    assert(ms[a] == prior[a] && ms[b] == prior[b]);
                } else {
                    assert(ms[b] == m);
                    let j = choose|j: int|
                        0 <= j < offs.drop_last().len() && (#[trigger] prior[a]).start_offset
                            == offs.drop_last()[j] && prior[a].end_offset == offs.drop_last()[j]
                            + qlen && offs.drop_last()[j] + qlen <= t.len();
                    assert(offs[j] + qlen <= offs[offs.len() - 1]);
                }
            }
        } else {
            assert(ms == prior);
            assert forall|a: int| 0 <= a < ms.len() implies exists|j: int|
                0 <= j < offs.len() && (#[trigger] ms[a]).start_offset == offs[j] && ms[a].end_offset
                    == offs[j] + qlen && offs[j] + qlen <= t.len() by {
                let j = choose|j: int|
                    0 <= j < offs.drop_last().len() && (#[trigger] prior[a]).start_offset
                        == offs.drop_last()[j] && prior[a].end_offset == offs.drop_last()[j] + qlen
                        && offs.drop_last()[j] + qlen <= t.len();
                assert(offs.drop_last()[j] == offs[j]);
            }
        }
    }
}

/// The search's cached records are sound and non-overlapping: every
/// record's offset is a real occurrence of the (folded) query in the
/// (folded) document, each record spans exactly one query length inside
/// the document, and every record ends at or before the next one starts.
pub proof fn lemma_matches_non_overlapping(t: Seq<char>, q: Seq<char>, cs: bool)
    requires
        t.len() <= usize::MAX,
    ensures
        forall|a: int, b: int|
            0 <= a < b < matches_for(t, q, cs).len() ==> (#[trigger] matches_for(
                t,
                q,
                cs,
            )[a]).end_offset <= (#[trigger] matches_for(t, q, cs)[b]).start_offset,
        forall|a: int|
            0 <= a < matches_for(t, q, cs).len() ==> (#[trigger] matches_for(t, q, cs)[a]).start_offset
                + folded(cs, q).len() == matches_for(t, q, cs)[a].end_offset && matches_for(
                t,
                q,
                cs,
            )[a].end_offset <= t.len(),
        forall|a: int|
            0 <= a < matches_for(t, q, cs).len() ==> is_match_at(
                folded(cs, t),
                folded(cs, q),
                (#[trigger] matches_for(t, q, cs)[a]).start_offset as int,
            ),
{
    if q.len() > 0 {
        let ft = folded(cs, t);
        let fq = folded(cs, q);
        let offs = scan_from(ft, fq, 0);
        let qlen = fq.len() as int;
        let ms = matches_for(t, q, cs);
        lemma_scan_from_props(ft, fq, 0);
        assert forall|a: int, b: int| 0 <= a < b < offs.len() implies offs[a] + fq.len()
            <= offs[b] by {
            lemma_scan_from_gap(ft, fq, 0, a, b);
        }
        lemma_match_list_sorted(t, offs, qlen);
        assert forall|a: int| 0 <= a < ms.len() implies is_match_at(
            ft,
            fq,
            (#[trigger] ms[a]).start_offset as int,
        ) by {
            let j = choose|j: int|
                0 <= j < offs.len() && (#[trigger] ms[a]).start_offset == offs[j] && ms[a].end_offset
                    == offs[j] + qlen && offs[j] + qlen <= t.len();
            assert(is_match_at(ft, fq, offs[j]));
        }
    }
}

/// `t` matches `q` at offset `i`, decided by comparing characters.
fn char_match_at(text: &Vec<char>, query: &Vec<char>, i: usize) -> (r: bool)
    requires
        i + query@.len() <= text@.len(),
    ensures
        r == is_match_at(text@, query@, i as int),
{
    let qn = query.len();
    let tn = text.len();
    let mut k: usize = 0;
    while k < qn
        invariant
            qn == query@.len(),
            tn == text@.len(),
            i + qn <= tn,
            k <= qn,
            forall|j: int| 0 <= j < k ==> text@[i + j] == query@[j],
        decreases qn - k,
    {
        if text[i + k] != query[k] {
            proof {
                assert(text@.subrange(i as int, i + query@.len())[k as int] == text@[i + k]);
            }
            return false;
        }
        k = k + 1;
    }
    proof {
        assert(text@.subrange(i as int, i + query@.len()) =~= query@);
    }
    true
}

/// Ghost view of a vector of offsets.
pub open spec fn int_view(s: Seq<usize>) -> Seq<int> {
    s.map_values(|x: usize| x as int)
}

/// All offsets of non-overlapping occurrences of `query` in `text`,
/// leftmost first.
fn scan_matches(text: &Vec<char>, query: &Vec<char>) -> (res: Vec<usize>)
    ensures
        int_view(res@) == scan_from(text@, query@, 0),
{
    let mut res: Vec<usize> = Vec::new();
    let n = text.len();
    let qn = query.len();
    if qn == 0 || qn > n {
        proof {
            assert(int_view(res@) =~= scan_from(text@, query@, 0));
        }
        return res;
    }
    let mut i: usize = 0;
    while i <= n - qn
        invariant
            n == text@.len(),
            qn == query@.len(),
            1 <= qn <= n,
            i <= n,
            scan_from(text@, query@, 0) == int_view(res@) + scan_from(text@, query@, i as int),
        decreases n - i,
    {
        if char_match_at(text, query, i) {
            res.push(i);
            proof {
                assert(int_view(res@) =~= int_view(res@.drop_last()).push(i as int));
                assert(int_view(res@.drop_last()).push(i as int) + scan_from(
                    text@,
                    query@,
                    i + qn,
                ) =~= int_view(res@.drop_last()) + (seq![i as int] + scan_from(
                    text@,
                    query@,
                    i + qn,
                )));
                assert(res@.drop_last() =~= res@.subrange(0, res@.len() - 1));
            }
            i = i + qn;
        } else {
            i = i + 1;
        }
    }
    proof {
        assert(scan_from(text@, query@, i as int) =~= Seq::<int>::empty());
        assert(int_view(res@) + Seq::<int>::empty() =~= int_view(res@));
    }
    res
}

/// The match record for an occurrence of length `qlen` at `off` in `t`.
pub open spec fn match_rec(t: Seq<char>, off: int, qlen: int) -> SearchMatch {
    SearchMatch {
        start_line: line_of(t, off) as usize,
        start_column: col_of(t, off) as usize,
        end_line: line_of(t, off + qlen) as usize,
        end_column: col_of(t, off + qlen) as usize,
        start_offset: off as usize,
        end_offset: (off + qlen) as usize,
    }
}

/// Match records for the offsets in `offs` that fit inside `t` (an offset
/// can fall outside only when case folding changed the text's length).
pub open spec fn match_list(t: Seq<char>, offs: Seq<int>, qlen: int) -> Seq<SearchMatch>
    decreases offs.len(),
{
    if offs.len() == 0 {
        Seq::empty()
    } else {
        let rest = match_list(t, offs.drop_last(), qlen);
        if offs.last() + qlen <= t.len() {
            rest.push(match_rec(t, offs.last(), qlen))
        } else {
            rest
        }
    }
}

/// The text that is actually scanned: the document itself when the search
/// is case-sensitive, its lowercase form otherwise.
pub open spec fn folded(case_sensitive: bool, s: Seq<char>) -> Seq<char> {
    if case_sensitive {
        s
    } else {
        lower_of(s)
    }
}

/// The matches a search with query `q` (case-sensitive iff `cs`) finds in
/// document `t`: the non-overlapping scan of the folded text for the
/// folded query, each offset paired with its (line, column) coordinates.
pub open spec fn matches_for(t: Seq<char>, q: Seq<char>, cs: bool) -> Seq<SearchMatch> {
    if q.len() == 0 {
        Seq::empty()
    } else {
        let fq = folded(cs, q);
        match_list(t, scan_from(folded(cs, t), fq, 0), fq.len() as int)
    }
}

/// The search state's cached results are exactly those for document `t`:
/// the full match list, with the active match reset to the first one.
pub open spec fn search_ok(st: SearchState, t: Seq<char>) -> bool {
    st.matches@ == matches_for(t, st.query@, st.case_sensitive) && st.current_match_index == (
    if matches_for(t, st.query@, st.case_sensitive).len() > 0 {
        Some(0usize)
    } else {
        None::<usize>
    })
}

/// The query, replacement, and mode flags of `a` and `b` agree.
pub open spec fn same_config(a: SearchState, b: SearchState) -> bool {
    a.query@ == b.query@ && a.replace_text@ == b.replace_text@ && a.is_active == b.is_active
        && a.is_replace_mode == b.is_replace_mode && a.case_sensitive == b.case_sensitive
        && a.use_regex == b.use_regex
}

/// Buffer state after rewriting the matches in `ms` with `rep`, applied in
/// reverse document order (highest offset first) so that the offsets of
/// matches not yet rewritten stay valid.
pub open spec fn replace_fold(v: BufferView, ms: Seq<SearchMatch>, rep: Seq<char>) -> BufferView
    decreases ms.len(),
{
    if ms.len() == 0 {
        v
    } else {
        apply_replace(replace_fold(v, ms.drop_first(), rep), ms[0], rep)
    }
}

/// Delete one match's range and insert the replacement at its start.
pub open spec fn apply_replace(v: BufferView, m: SearchMatch, rep: Seq<char>) -> BufferView {
    insert_op(delete_op(v, m.start_offset as int, m.end_offset as int), m.start_offset as int, rep)
}

/// Search state: the query and replacement strings, mode flags, and the
/// cached match list with the index of the active match.
pub struct SearchState {
    pub query: String,
    pub replace_text: String,
    pub is_active: bool,
    pub is_replace_mode: bool,
    pub matches: Vec<SearchMatch>,
    pub current_match_index: Option<usize>,
    pub case_sensitive: bool,
    pub use_regex: bool,
}

impl SearchState {
    /// A fresh, inactive, case-insensitive search with no matches.
    pub fn new() -> (r: Self)
        ensures
            r.query@ == Seq::<char>::empty(),
            r.replace_text@ == Seq::<char>::empty(),
            !r.is_active,
            !r.is_replace_mode,
            r.matches@ == Seq::<SearchMatch>::empty(),
            (r.current_match_index is None),
            !r.case_sensitive,
            !r.use_regex,
    {
        let r = SearchState {
            query: String::new(),
            replace_text: String::new(),
            is_active: false,
            is_replace_mode: false,
            matches: Vec::new(),
            current_match_index: None,
            case_sensitive: false,
            use_regex: false,
        };
        proof {
            assert(r.matches@ =~= Seq::<SearchMatch>::empty());
        }
        r
    }

    /// Open the search UI: active, with query, replacement, and matches
    /// cleared.
    pub fn activate(&mut self)
        ensures
            final(self).is_active,
            final(self).query@ == Seq::<char>::empty(),
            final(self).replace_text@ == Seq::<char>::empty(),
            final(self).matches@ == Seq::<SearchMatch>::empty(),
            (final(self).current_match_index is None),
            final(self).is_replace_mode == old(self).is_replace_mode,
            final(self).case_sensitive == old(self).case_sensitive,
            final(self).use_regex == old(self).use_regex,
    {
        self.is_active = true;
        self.query = String::new();
        self.replace_text = String::new();
        self.matches = Vec::new();
        self.current_match_index = None;
        proof {
            assert(self.matches@ =~= Seq::<SearchMatch>::empty());
        }
    }

    /// Close the search UI: inactive, with query, replacement, and matches
    /// cleared.
    pub fn deactivate(&mut self)
        ensures
            !final(self).is_active,
            final(self).query@ == Seq::<char>::empty(),
            final(self).replace_text@ == Seq::<char>::empty(),
            final(self).matches@ == Seq::<SearchMatch>::empty(),
            (final(self).current_match_index is None),
            final(self).is_replace_mode == old(self).is_replace_mode,
            final(self).case_sensitive == old(self).case_sensitive,
            final(self).use_regex == old(self).use_regex,
    {
        self.is_active = false;
        self.query = String::new();
        self.replace_text = String::new();
        self.matches = Vec::new();
        self.current_match_index = None;
        proof {
            assert(self.matches@ =~= Seq::<SearchMatch>::empty());
        }
    }

    /// Flip between find mode and find-and-replace mode.
    pub fn toggle_replace_mode(&mut self)
        ensures
            final(self).is_replace_mode == !old(self).is_replace_mode,
            final(self).query@ == old(self).query@,
            final(self).replace_text@ == old(self).replace_text@,
            final(self).is_active == old(self).is_active,
            final(self).matches@ == old(self).matches@,
            final(self).current_match_index == old(self).current_match_index,
            final(self).case_sensitive == old(self).case_sensitive,
            final(self).use_regex == old(self).use_regex,
    {
        self.is_replace_mode = !self.is_replace_mode;
    }

    /// Replace the query and recompute all matches against `buffer`.
    pub fn update_query(&mut self, query: String, buffer: &Buffer)
        ensures
            final(self).query@ == query@,
            final(self).replace_text@ == old(self).replace_text@,
            final(self).is_active == old(self).is_active,
            final(self).is_replace_mode == old(self).is_replace_mode,
            final(self).case_sensitive == old(self).case_sensitive,
            final(self).use_regex == old(self).use_regex,
            search_ok(*final(self), buffer@.text),
    {
        self.query = query;
        self.find_all_matches(buffer);
    }

    /// Scan `buffer` for all non-overlapping occurrences of the query,
    /// leftmost first, and reset the active match to the first one (or to
    /// none).  An empty query yields no matches.
    #[verifier::rlimit(60)]
    pub fn find_all_matches(&mut self, buffer: &Buffer)
        ensures
            same_config(*final(self), *old(self)),
            search_ok(*final(self), buffer@.text),
    {
        self.matches = Vec::new();
        self.current_match_index = None;
        proof {
            assert(self.matches@ =~= Seq::<SearchMatch>::empty());
        }
        if self.query.as_str().is_empty() {
            return;
        }
        let text = buffer.text();
        let ft: Vec<char> = if self.case_sensitive {
            chars_of(text.as_str())
        } else {
            let f = fold_lower(text.as_str());
            chars_of(f.as_str())
        };
        let fq: Vec<char> = if self.case_sensitive {
            chars_of(self.query.as_str())
        } else {
            let f = fold_lower(self.query.as_str());
            chars_of(f.as_str())
        };
        let offs = scan_matches(&ft, &fq);
        let qn = fq.len();
        let n = buffer.len();
        proof {
            lemma_scan_from_props(ft@, fq@, 0);
        }
        let ghost t = buffer@.text;
        let ghost soffs = scan_from(ft@, fq@, 0);
        let mut k: usize = 0;
        while k < offs.len()
            invariant
                n == t.len(),
                qn == fq@.len(),
                int_view(offs@) == soffs,
                forall|j: int|
                    0 <= j < soffs.len() ==> is_match_at(ft@, fq@, #[trigger] soffs[j]),
                self.matches@ == match_list(t, soffs.take(k as int), qn as int),
                k <= offs@.len(),
                (self.current_match_index is None),
                same_config(*self, *old(self)),
                self.query@ == old(self).query@,
                buffer@.text == t,
            decreases offs@.len() - k,
        {
            let off = offs[k];
            proof {
                assert(soffs[k as int] == off);
                assert(is_match_at(ft@, fq@, off as int));
                assert(soffs.take(k + 1).drop_last() =~= soffs.take(k as int));
            }
            if qn <= n && off <= n - qn {
                let (sl, sc) = buffer.offset_to_position(off);
                let (el, ec) = buffer.offset_to_position(off + qn);
                let m = SearchMatch {
                    start_line: sl,
                    start_column: sc,
                    end_line: el,
                    end_column: ec,
                    start_offset: off,
                    end_offset: off + qn,
                };
                self.matches.push(m);
                proof {
                    assert(m == match_rec(t, off as int, qn as int));
                    assert(self.matches@ =~= match_list(t, soffs.take(k + 1), qn as int));
                }
            } else {
                proof {
                    assert(soffs.take(k + 1).last() + qn > t.len());
                    assert(self.matches@ =~= match_list(t, soffs.take(k + 1), qn as int));
                }
            }
            k = k + 1;
        }
        proof {
            assert(soffs.take(offs@.len() as int) =~= soffs);
            assert(folded(self.case_sensitive, t) == ft@);
            assert(folded(self.case_sensitive, self.query@) == fq@);
        }
        if self.matches.len() > 0 {
            self.current_match_index = Some(0);
        }
    }

    /// Advance the active match circularly; a no-op with no matches.
    pub fn find_next(&mut self)
        ensures
            final(self).matches@ == old(self).matches@,
            same_config(*final(self), *old(self)),
            old(self).matches@.len() == 0 ==> final(self).current_match_index == old(
                self,
            ).current_match_index,
            old(self).matches@.len() > 0 ==> final(self).current_match_index == Some(
                match old(self).current_match_index {
                    Option::Some(idx) => if idx + 1 < old(self).matches@.len() {
                        (idx + 1) as usize
                    } else {
                        0usize
                    },
                    Option::None => 0usize,
                },
            ),
    {
        if self.matches.len() == 0 {
            return;
        }
        let next = match self.current_match_index {
            Some(idx) => if idx < self.matches.len() - 1 {
                idx + 1
            } else {
                0
            },
            None => 0,
        };
        self.current_match_index = Some(next);
    }

    /// Step the active match back circularly; a no-op with no matches.
    pub fn find_previous(&mut self)
        ensures
            final(self).matches@ == old(self).matches@,
            same_config(*final(self), *old(self)),
            old(self).matches@.len() == 0 ==> final(self).current_match_index == old(
                self,
            ).current_match_index,
            old(self).matches@.len() > 0 ==> final(self).current_match_index == Some(
                match old(self).current_match_index {
                    Option::Some(idx) => if idx == 0 {
                        (old(self).matches@.len() - 1) as usize
                    } else {
                        (idx - 1) as usize
                    },
                    Option::None => 0usize,
                },
            ),
    {
        if self.matches.len() == 0 {
            return;
        }
        let prev = match self.current_match_index {
            Some(idx) => if idx == 0 {
                self.matches.len() - 1
            } else {
                idx - 1
            },
            None => 0,
        };
        self.current_match_index = Some(prev);
    }

    /// The active match, if its index points into the match list.
    pub fn current_match(&self) -> (r: Option<&SearchMatch>)
        ensures
            match self.current_match_index {
                Option::Some(idx) => if idx < self.matches@.len() {
                    r matches Some(m) && *m == self.matches@[idx as int]
                } else {
                    r is None
                },
                Option::None => (r is None),
            },
    {
        if let Some(idx) = self.current_match_index {
            if idx < self.matches.len() {
                Some(&self.matches[idx])
            } else {
                None
            }
        } else {
            None
        }
    }

    /// Rewrite the active match with the replacement text: delete its
    /// range, insert the replacement at its start, park the edit cursor
    /// at the start of the insertion, and recompute all matches.  Returns
    /// `false` (changing nothing) when there is no active match.
    pub fn replace_current(&mut self, buffer: &mut Buffer, cursor: &mut Cursor) -> (r: bool)
        requires
            old(buffer)@.wf(),
        ensures
            ({
                let unchanged = *final(self) == *old(self) && *final(buffer) == *old(buffer)
                    && *final(cursor) == *old(cursor);
                let rep = old(self).replace_text@;
                match old(self).current_match_index {
                    Option::Some(idx) => if idx < old(self).matches@.len() {
                        let m = old(self).matches@[idx as int];
                        &&& r
                        &&& final(buffer)@ == apply_replace(old(buffer)@, m, rep)
                        &&& final(buffer)@.wf()
                        &&& final(cursor).position.line == m.start_line
                        &&& final(cursor).position.column == m.start_column
                        &&& final(cursor).selection is None
                        &&& same_config(*final(self), *old(self))
                        &&& search_ok(*final(self), final(buffer)@.text)
                    } else {
                        !r && unchanged
                    },
                    Option::None => !r && unchanged,
                }
            }),
    {
        let (start_offset, end_offset, start_line, start_column) = match self.current_match_index {
            Some(idx) => {
                if idx < self.matches.len() {
                    let m = &self.matches[idx];
                    (m.start_offset, m.end_offset, m.start_line, m.start_column)
                } else {
                    return false;
                }
            },
            None => {
                return false;
            },
        };
        buffer.delete_range(start_offset..end_offset);
        buffer.insert_text(start_offset, self.replace_text.as_str());
        cursor.position = Position { line: start_line, column: start_column };
        cursor.clear_selection();
        self.find_all_matches(buffer);
        true
    }

    /// Rewrite every cached match with the replacement text, in reverse
    /// document order so the offsets of matches not yet rewritten stay
    /// valid; returns how many were rewritten, then recomputes matches.
    pub fn replace_all(&mut self, buffer: &mut Buffer) -> (r: usize)
        requires
            old(buffer)@.wf(),
        ensures
            r == old(self).matches@.len(),
            final(buffer)@ == replace_fold(old(buffer)@, old(self).matches@, old(
                self,
            ).replace_text@),
            final(buffer)@.wf(),
            same_config(*final(self), *old(self)),
            search_ok(*final(self), final(buffer)@.text),
    {
        let ghost v0 = buffer@;
        let ghost ms0 = self.matches@;
        let mut replacements: usize = 0;
        let n0 = self.matches.len();
        let mut i: usize = n0;
        proof {
            assert(ms0.skip(i as int) =~= Seq::<SearchMatch>::empty());
        }
        while i > 0
            invariant
                n0 == ms0.len(),
                i <= ms0.len(),
                self.matches@ == ms0,
                *self == *old(self),
                replacements == ms0.len() - i,
                buffer@ == replace_fold(v0, ms0.skip(i as int), self.replace_text@),
                buffer@.wf(),
            decreases i,
        {
            i = i - 1;
            let start = self.matches[i].start_offset;
            let end = self.matches[i].end_offset;
            buffer.delete_range(start..end);
            buffer.insert_text(start, self.replace_text.as_str());
            replacements = replacements + 1;
            proof {
                assert(ms0.skip(i as int).drop_first() =~= ms0.skip(i + 1));
                assert(ms0.skip(i as int)[0] == ms0[i as int]);
            }
        }
        proof {
            assert(ms0.skip(0) =~= ms0);
        }
        self.find_all_matches(buffer);
        replacements
    }

    /// Number of cached matches.
    pub fn match_count(&self) -> (n: usize)
        ensures
            n == self.matches@.len(),
    {
        self.matches.len()
    }
}

impl Default for SearchState {
    /// Same as `SearchState::new`.
    fn default() -> (r: Self)
        ensures
            r.query@ == Seq::<char>::empty(),
            r.replace_text@ == Seq::<char>::empty(),
            !r.is_active,
            !r.is_replace_mode,
            r.matches@ == Seq::<SearchMatch>::empty(),
            (r.current_match_index is None),
            !r.case_sensitive,
            !r.use_regex,
    {
        SearchState::new()
    }
}

} // verus!
