//! Choosing the window of a newest-first commit walk that the cutoffs admit.
use crate::oid::ObjectId;
use vstd::prelude::*;

verus! {

/// One commit as the walk over the history yields it, newest first.
pub struct WalkEntry {
    pub id: ObjectId,
    /// Commit time in seconds since the Unix epoch, where the walk knows it.
    pub seconds: Option<i64>,
}

/// The bounds of a history window. Each bound is optional; all given bounds apply together.
pub struct Cutoffs {
    /// The oldest commit to keep (inclusive).
    pub start_id: Option<ObjectId>,
    /// Nothing newer than this commit is kept; the walk keeps from it on.
    pub end_id: Option<ObjectId>,
    /// Branches older than this instant are pruned by the traversal itself.
    pub start_seconds: Option<i64>,
    /// Commits newer than this instant are skipped.
    pub end_seconds: Option<i64>,
}

/// How the ancestry is traversed: newest first, and pruned by time when a lower time bound is given.
#[derive(Clone, Copy, Debug, PartialEq, Eq)]
pub enum TraversalMode {
    NewestFirst,
    NewestFirstCutoff { seconds: i64 },
}

pub open spec fn opt_id(o: Option<ObjectId>) -> Option<Seq<u8>> {
    match o {
        Some(x) => Some(x.view()),
        None => None,
    }
}

/// The first index from `i` on where the walk reaches `end`; with no `end`, `i` itself.
pub open spec fn skip_until_id(w: Seq<WalkEntry>, end: Option<Seq<u8>>, i: int) -> int
    decreases w.len() - i,
{
    if i < 0 || i >= w.len() || end is None || w[i].id.view() == end.unwrap() {
        i
    } else {
        skip_until_id(w, end, i + 1)
    }
}

/// Whether the entry is newer than the upper time bound.
pub open spec fn too_new(e: WalkEntry, end: Option<i64>) -> bool {
    e.seconds is Some && end is Some && e.seconds.unwrap() > end.unwrap()
}

/// The first index from `i` on whose entry is not newer than `end`.
pub open spec fn skip_too_new(w: Seq<WalkEntry>, end: Option<i64>, i: int) -> int
    decreases w.len() - i,
{
    if i < 0 || i >= w.len() || !too_new(w[i], end) {
        i
    } else {
        skip_too_new(w, end, i + 1)
    }
}

/// One past the first index from `i` on where the walk reaches `start`; the walk's length if it never does.
pub open spec fn take_through_id(w: Seq<WalkEntry>, start: Option<Seq<u8>>, i: int) -> int
    decreases w.len() - i,
{
    if i < 0 || i >= w.len() {
        w.len() as int
    } else if start is Some && w[i].id.view() == start.unwrap() {
        i + 1
    } else {
        take_through_id(w, start, i + 1)
    }
}

/// Where the walk reaches `end_id` (the start of the walk where none is given).
pub open spec fn id_lo(w: Seq<WalkEntry>, c: Cutoffs) -> int {
    skip_until_id(w, opt_id(c.end_id), 0)
}

/// Where the kept window of the walk ends (exclusive): just past the first `start_id` from
/// where the walk reaches `end_id`, or the end of the walk. The time bound plays no part.
pub open spec fn window_hi(w: Seq<WalkEntry>, c: Cutoffs) -> int {
    take_through_id(w, opt_id(c.start_id), id_lo(w, c))
}

/// Where the kept window of the walk begins: past the commits newer than `end_seconds` from
/// where the walk reaches `end_id`, but never past the window's end.
pub open spec fn window_lo(w: Seq<WalkEntry>, c: Cutoffs) -> int {
    let s = skip_too_new(w, c.end_seconds, id_lo(w, c));
    if s < window_hi(w, c) {
        s
    } else {
        window_hi(w, c)
    }
}

pub open spec fn ids_wf(w: Seq<WalkEntry>) -> bool {
    forall|i: int| 0 <= i < w.len() ==> (#[trigger] w[i]).id.wf()
}

/// The traversal mode for a lower time bound: pruned by time exactly when one is given.
pub fn traversal_mode(start_seconds: Option<i64>) -> (r: TraversalMode)
    ensures
        start_seconds matches Some(s) ==> r == (TraversalMode::NewestFirstCutoff { seconds: s }),
        start_seconds is None ==> r == TraversalMode::NewestFirst,
{
    match start_seconds {
        Some(seconds) => TraversalMode::NewestFirstCutoff { seconds },
        None => TraversalMode::NewestFirst,
    }
}

fn matches_id(e: &WalkEntry, id: &Option<ObjectId>) -> (r: bool)
    ensures
        r <==> (id is Some && e.id.view() == id.unwrap().view()),
{
    match id {
        Some(x) => e.id.same(x),
        None => false,
    }
}

fn newer_than(e: &WalkEntry, end: Option<i64>) -> (r: bool)
    ensures
        r == too_new(*e, end),
{
    match (e.seconds, end) {
        (Some(t), Some(b)) => t > b,
        _ => false,
    }
}

/// The window `[lo, hi)` of a newest-first walk that the cutoffs keep.
///
/// The walk is first skipped until it reaches `end_id` (when given; if it never does, nothing
/// is kept); from there it is kept up to and including `start_id`, or to its end. Within that
/// run, the commits newer than `end_seconds` at its front are dropped.
pub fn window(walk: &Vec<WalkEntry>, cut: &Cutoffs) -> (r: (usize, usize))
    ensures
        r.0 as int == window_lo(walk@, *cut),
        r.1 as int == window_hi(walk@, *cut),
        r.0 <= r.1 <= walk@.len(),
{
    let n = walk.len();
    let mut start: usize = 0;
    if cut.end_id.is_some() {
        while start < n && !matches_id(&walk[start], &cut.end_id)
            invariant
                start <= n == walk@.len(),
                cut.end_id is Some,
                skip_until_id(walk@, opt_id(cut.end_id), start as int) == id_lo(walk@, *cut),
            decreases n - start,
        {
            start = start + 1;
        }
    }
    let mut hi: usize = start;
    while hi < n && !matches_id(&walk[hi], &cut.start_id)
        invariant
            start <= hi <= n == walk@.len(),
            start as int == id_lo(walk@, *cut),
            take_through_id(walk@, opt_id(cut.start_id), hi as int) == window_hi(walk@, *cut),
        decreases n - hi,
    {
        hi = hi + 1;
    }
    if hi < n {
        hi = hi + 1;
    }
    let mut lo: usize = start;
    while lo < hi && newer_than(&walk[lo], cut.end_seconds)
        invariant
            start <= lo <= hi <= n == walk@.len(),
            hi as int == window_hi(walk@, *cut),
            skip_too_new(walk@, cut.end_seconds, lo as int) == skip_too_new(
                walk@,
                cut.end_seconds,
                id_lo(walk@, *cut),
            ),
        decreases hi - lo,
    {
        lo = lo + 1;
    }
    proof {
        lemma_skip_too_new(walk@, cut.end_seconds, lo as int);
    }
    (lo, hi)
}

proof fn lemma_skip_until_id(w: Seq<WalkEntry>, end: Option<Seq<u8>>, i: int)
    requires
        0 <= i <= w.len(),
    ensures
        i <= skip_until_id(w, end, i) <= w.len(),
        end is None ==> skip_until_id(w, end, i) == i,
        end is Some ==> forall|j: int|
            i <= j < skip_until_id(w, end, i) ==> w[j].id.view() != end.unwrap(),
        end is Some && skip_until_id(w, end, i) < w.len() ==> w[skip_until_id(w, end, i)].id.view()
            == end.unwrap(),
    decreases w.len() - i,
{
    if i < w.len() && end is Some && w[i].id.view() != end.unwrap() {
        lemma_skip_until_id(w, end, i + 1);
    }
}

proof fn lemma_skip_too_new(w: Seq<WalkEntry>, end: Option<i64>, i: int)
    requires
        0 <= i <= w.len(),
    ensures
        i <= skip_too_new(w, end, i) <= w.len(),
        end is None ==> skip_too_new(w, end, i) == i,
        forall|j: int| i <= j < skip_too_new(w, end, i) ==> too_new(#[trigger] w[j], end),
        skip_too_new(w, end, i) < w.len() ==> !too_new(w[skip_too_new(w, end, i)], end),
    decreases w.len() - i,
{
    if i < w.len() && too_new(w[i], end) {
        lemma_skip_too_new(w, end, i + 1);
    }
}

proof fn lemma_take_through_id(w: Seq<WalkEntry>, start: Option<Seq<u8>>, i: int)
    requires
        0 <= i <= w.len(),
    ensures
        i <= take_through_id(w, start, i) <= w.len(),
        start is None ==> take_through_id(w, start, i) == w.len(),
        i < w.len() ==> i < take_through_id(w, start, i),
        start is Some ==> forall|j: int|
            i <= j < take_through_id(w, start, i) - 1 ==> w[j].id.view() != start.unwrap(),
        start is Some && i < take_through_id(w, start, i) < w.len() ==> w[take_through_id(
            w,
            start,
            i,
        ) - 1].id.view() == start.unwrap(),
    decreases w.len() - i,
{
    if i < w.len() && !(start is Some && w[i].id.view() == start.unwrap()) {
        lemma_take_through_id(w, start, i + 1);
    }
}

/// The index of the oldest commit of a walk (its last entry), if the walk is not empty.
pub fn oldest_index(walk: &Vec<WalkEntry>) -> (r: Option<usize>)
    ensures
        walk@.len() == 0 ==> r is None,
        walk@.len() > 0 ==> r == Some((walk@.len() - 1) as usize),
{
    if walk.len() == 0 {
        None
    } else {
        Some(walk.len() - 1)
    }
}

/// With no cutoffs the window is the whole walk, so the last commit kept is the oldest one.
pub proof fn lemma_no_cutoffs_keep_all(w: Seq<WalkEntry>, c: Cutoffs)
    requires
        c.start_id is None,
        c.end_id is None,
        c.end_seconds is None,
    ensures
        window_lo(w, c) == 0,
        window_hi(w, c) == w.len(),
{
    lemma_skip_until_id(w, opt_id(c.end_id), 0);
    lemma_skip_too_new(w, c.end_seconds, 0);
    lemma_take_through_id(w, opt_id(c.start_id), 0);
}

/// The window is a contiguous run of the walk. Before where the walk reaches `end_id` no
/// commit is `end_id`; the commits dropped for being too new sit directly before the window;
/// and the window closes at the first `start_id` from there, or at the end of the walk.
pub proof fn lemma_window_shape(w: Seq<WalkEntry>, c: Cutoffs)
    ensures
        0 <= id_lo(w, c) <= window_lo(w, c) <= window_hi(w, c) <= w.len(),
        c.end_id matches Some(e) ==> forall|j: int|
            0 <= j < id_lo(w, c) ==> w[j].id.view() != e.view(),
        c.end_id matches Some(e) ==> id_lo(w, c) == w.len() || w[id_lo(w, c)].id.view()
            == e.view(),
        c.end_seconds is None ==> window_lo(w, c) == id_lo(w, c),
        forall|j: int| id_lo(w, c) <= j < window_lo(w, c) ==> too_new(#[trigger] w[j], c.end_seconds),
        c.start_id matches Some(s) ==> forall|j: int|
            window_lo(w, c) <= j < window_hi(w, c) - 1 ==> w[j].id.view() != s.view(),
        c.start_id is Some && id_lo(w, c) < window_hi(w, c) < w.len() ==> w[window_hi(w, c)
            - 1].id.view() == c.start_id.unwrap().view(),
        c.start_id is None ==> window_hi(w, c) == w.len(),
{
    let a = id_lo(w, c);
    lemma_skip_until_id(w, opt_id(c.end_id), 0);
    lemma_skip_too_new(w, c.end_seconds, a);
    lemma_take_through_id(w, opt_id(c.start_id), a);
}

/// An upper time bound only removes commits: the window with it lies inside the window
/// without it, which it shares its end with, so no commit is added and none reordered.
pub proof fn lemma_time_bound_only_removes(w: Seq<WalkEntry>, c: Cutoffs)
    ensures
        ({
            let c0 = Cutoffs { end_seconds: None, ..c };
            &&& window_lo(w, c0) <= window_lo(w, c)
            &&& window_lo(w, c) <= window_hi(w, c)
            &&& window_hi(w, c) == window_hi(w, c0)
        }),
{
    let c0 = Cutoffs { end_seconds: None, ..c };
    let a = id_lo(w, c);
    lemma_skip_until_id(w, opt_id(c.end_id), 0);
    lemma_skip_too_new(w, c.end_seconds, a);
    lemma_skip_too_new(w, c0.end_seconds, a);
    lemma_take_through_id(w, opt_id(c.start_id), a);
}

/// Whether this part of a walk already fixes the window: it ends with the `start_id` that
/// closes the window, after the walk reached `end_id`.
pub open spec fn closed(w: Seq<WalkEntry>, c: Cutoffs) -> bool {
    &&& c.start_id is Some
    &&& w.len() > 0
    &&& id_lo(w, c) < w.len()
    &&& window_hi(w, c) == w.len()
    &&& w.last().id.view() == c.start_id.unwrap().view()
}

/// Whether this part of a walk already fixes the window, so the walk can stop here.
pub fn window_closed(walk: &Vec<WalkEntry>, cut: &Cutoffs) -> (r: bool)
    ensures
        r == closed(walk@, *cut),
{
    let n = walk.len();
    if n == 0 || cut.start_id.is_none() {
        return false;
    }
    let (_, hi) = window(walk, cut);
    if hi != n {
        return false;
    }
    if !matches_id(&walk[n - 1], &cut.start_id) {
        return false;
    }
    let mut start: usize = 0;
    if cut.end_id.is_some() {
        while start < n && !matches_id(&walk[start], &cut.end_id)
            invariant
                start <= n == walk@.len(),
                cut.end_id is Some,
                skip_until_id(walk@, opt_id(cut.end_id), start as int) == id_lo(walk@, *cut),
            decreases n - start,
        {
            start = start + 1;
        }
    }
    start < n
}

proof fn lemma_skip_until_id_extend(p: Seq<WalkEntry>, r: Seq<WalkEntry>, e: Option<Seq<u8>>, i: int)
    requires
        0 <= i <= skip_until_id(p, e, i) < p.len(),
    ensures
        skip_until_id(p + r, e, i) == skip_until_id(p, e, i),
    decreases p.len() - i,
{
    assert((p + r)[i] == p[i]);
    if !(e is None || p[i].id.view() == e.unwrap()) {
        lemma_skip_until_id(p, e, i + 1);
        lemma_skip_until_id_extend(p, r, e, i + 1);
    }
}

proof fn lemma_take_through_id_extend(p: Seq<WalkEntry>, r: Seq<WalkEntry>, s: Option<Seq<u8>>, i: int)
    requires
        0 <= i < p.len(),
        s is Some,
        p.last().id.view() == s.unwrap(),
    ensures
        take_through_id(p + r, s, i) == take_through_id(p, s, i),
    decreases p.len() - i,
{
    assert((p + r)[i] == p[i]);
    if !(p[i].id.view() == s.unwrap()) && i + 1 < p.len() {
        lemma_take_through_id_extend(p, r, s, i + 1);
    }
}

proof fn lemma_skip_too_new_extend(p: Seq<WalkEntry>, r: Seq<WalkEntry>, e: Option<i64>, i: int)
    requires
        0 <= i <= p.len(),
    ensures
        skip_too_new(p, e, i) < p.len() ==> skip_too_new(p + r, e, i) == skip_too_new(p, e, i),
        skip_too_new(p, e, i) == p.len() ==> skip_too_new(p + r, e, i) >= p.len(),
    decreases p.len() - i,
{
    lemma_skip_too_new(p + r, e, i);
    if i < p.len() {
        assert((p + r)[i] == p[i]);
        if too_new(p[i], e) {
            lemma_skip_too_new_extend(p, r, e, i + 1);
        }
    }
}

/// Once a part of the walk fixes the window, walking further changes nothing: the window of
/// any longer walk that begins with it is the same.
pub proof fn lemma_closed_window_is_final(p: Seq<WalkEntry>, r: Seq<WalkEntry>, c: Cutoffs)
    requires
        closed(p, c),
    ensures
        window_lo(p + r, c) == window_lo(p, c),
        window_hi(p + r, c) == window_hi(p, c),
{
    let e = opt_id(c.end_id);
    lemma_skip_until_id(p, e, 0);
    lemma_skip_until_id_extend(p, r, e, 0);
    let a = id_lo(p, c);
    lemma_take_through_id_extend(p, r, opt_id(c.start_id), a);
    lemma_skip_too_new(p, c.end_seconds, a);
    lemma_skip_too_new_extend(p, r, c.end_seconds, a);
}

} // verus!
