//! The search for the spectrum nearest to a scan start time.
//!
//! Scan start times do not decrease along a well-formed document, so the
//! spectrum nearest to a time is found by bisection over the ordinals of the
//! offset index. The search itself never looks at a time: for every spectrum
//! it probes it is told how far the spectrum lies from the target, as an
//! integer that orders distances, and on which side.

use crate::mzml::spectrum::Spectrum;
use vstd::prelude::*;

verus! {

/// One probe of a search: the ordinal probed and its distance to the target.
pub type Probe = (usize, u64);

/// What to do with the spectrum that was probed.
#[derive(Clone, Copy, Debug, PartialEq, Eq, Structural)]
pub enum Verdict {
    /// It lies within the tolerance: it is the answer, the search is over.
    Return,
    /// It is the nearest so far: keep it and go on.
    Keep,
    /// It is no nearer than the nearest so far: go on.
    Pass,
}

/// The state of a search as a plain value.
pub struct SearchView {
    /// The window still to search: ordinals from `lo` to below `hi`.
    pub lo: usize,
    pub hi: usize,
    /// The nearest probe so far.
    pub best: Option<Probe>,
    /// The distance a probe must stay below to become the nearest.
    pub bound: u64,
    /// The distance below which a probe is the answer at once.
    pub tolerance: u64,
    /// The probe that ended the search within the tolerance.
    pub found: Option<Probe>,
    /// All probes so far, in order.
    pub probes: Seq<Probe>,
}

/// The ordinal probed next: the middle of the window.
pub open spec fn middle(s: SearchView) -> usize {
    (s.lo + (s.hi - s.lo) / 2) as usize
}

/// Whether the search is over: a probe was found within the tolerance, or
/// the window is empty.
pub open spec fn is_over(s: SearchView) -> bool {
    s.found is Some || s.lo >= s.hi
}

/// The answer of a search: the probe within the tolerance that ended it, or
/// else the nearest probe it saw.
pub open spec fn answer_of(s: SearchView) -> Option<Probe> {
    if s.found is Some {
        s.found
    } else {
        s.best
    }
}

/// The search over `count` spectra before its first probe.
pub open spec fn search_start(count: usize, tolerance: u64, bound: u64) -> SearchView {
    SearchView {
        lo: 0,
        hi: count,
        best: None,
        bound,
        tolerance,
        found: None,
        probes: Seq::empty(),
    }
}

/// The search after the spectrum in the middle of the window was found at
/// distance `error` from the target, `later` telling whether it lies after
/// the target.
///
/// A probe nearer than every one before becomes the nearest; among equals the
/// earliest stays. A probe within the tolerance ends the search. Otherwise
/// the window is cut at the probe: the part after it is dropped where the
/// probe lies after the target, else the part up to it.
pub open spec fn search_step(s: SearchView, error: u64, later: bool) -> SearchView {
    let probe = (middle(s), error);
    let improved = error < s.bound;
    SearchView {
        lo: if error < s.tolerance || later {
            s.lo
        } else {
            (middle(s) + 1) as usize
        },
        hi: if error >= s.tolerance && later {
            middle(s)
        } else {
            s.hi
        },
        best: if improved {
            Some(probe)
        } else {
            s.best
        },
        bound: if improved {
            error
        } else {
            s.bound
        },
        found: if error < s.tolerance {
            Some(probe)
        } else {
            None
        },
        probes: s.probes.push(probe),
        ..s
    }
}

/// What is done with the probed spectrum.
pub open spec fn verdict_of(s: SearchView, error: u64) -> Verdict {
    if error < s.tolerance {
        Verdict::Return
    } else if error < s.bound {
        Verdict::Keep
    } else {
        Verdict::Pass
    }
}

/// What holds of every search that began with an empty record: the window
/// is in order; the bound is no larger than any distance probed; the nearest
/// probe, where there is one, was probed at the distance of the bound; and
/// as long as nothing was found, no probe lay within the tolerance.
pub open spec fn search_inv(s: SearchView) -> bool {
    &&& s.lo <= s.hi
    &&& forall|i: int| 0 <= i < s.probes.len() ==> s.bound <= (#[trigger] s.probes[i]).1
    &&& s.best matches Some(best) ==> s.probes.contains(best) && best.1 == s.bound
    &&& match s.found {
        Some(found) => s.probes.contains(found) && forall|i: int|
            0 <= i < s.probes.len() ==> found.1 <= (#[trigger] s.probes[i]).1,
        None => forall|i: int|
            0 <= i < s.probes.len() ==> s.tolerance <= (#[trigger] s.probes[i]).1,
    }
}

/// The answer of a search is a probe of that search, and no probe of the
/// search lay nearer to the target.
pub open spec fn answer_is_nearest(s: SearchView) -> bool {
    answer_of(s) matches Some(answer) ==> s.probes.contains(answer) && forall|i: int|
        0 <= i < s.probes.len() ==> answer.1 <= (#[trigger] s.probes[i]).1
}

/// A search keeps its invariant from probe to probe, and each probe makes
/// the window smaller or ends the search.
pub proof fn lemma_search_step(s: SearchView, error: u64, later: bool)
    requires
        search_inv(s),
        !is_over(s),
    ensures
        search_inv(search_step(s, error, later)),
        s.lo <= middle(s) < s.hi,
        is_over(search_step(s, error, later)) || search_step(s, error, later).hi - search_step(
            s,
            error,
            later,
        ).lo < s.hi - s.lo,
{
    let t = search_step(s, error, later);
    let probe = (middle(s), error);
    assert(t.probes[s.probes.len() as int] == probe);
    assert forall|i: int| 0 <= i < t.probes.len() implies t.bound <= (#[trigger] t.probes[i]).1 by {
        if i < s.probes.len() {
            assert(t.probes[i] == s.probes[i]);
        }
    }
    if t.best is Some {
        let best = t.best->0;
        if error < s.bound {
            assert(t.probes.contains(probe));
        } else {
            let k = choose|k: int| 0 <= k < s.probes.len() && s.probes[k] == best;
            assert(t.probes[k] == best);
        }
    }
    match t.found {
        Some(found) => {
            assert(t.probes.contains(found));
            assert forall|i: int| 0 <= i < t.probes.len() implies found.1 <= (
            #[trigger] t.probes[i]).1 by {
                if i < s.probes.len() {
                    assert(t.probes[i] == s.probes[i]);
                    assert(s.tolerance <= s.probes[i].1);
                }
            }
        },
        None => {
            assert forall|i: int| 0 <= i < t.probes.len() implies t.tolerance <= (
            #[trigger] t.probes[i]).1 by {
                if i < s.probes.len() {
                    assert(t.probes[i] == s.probes[i]);
                }
            }
        },
    }
}

/// The spectrum a search answers with is the nearest of those it probed:
/// whatever the search has seen, its answer is one of its probes, and no
/// probe lay nearer to the target.
pub proof fn lemma_answer_is_nearest(s: SearchView)
    requires
        search_inv(s),
    ensures
        answer_is_nearest(s),
{
}

/// One probe of a search by time: the spectrum that was fetched, the
/// distance to the target that was measured for it, and whether it was found
/// to lie after the target.
pub type Measured = (Spectrum, u64, bool);

/// Whether `spectrum` is the nearest of the spectra in `trace`: it is one of
/// them, and none of them was measured nearer to the target.
pub open spec fn nearest_in(trace: Seq<Measured>, spectrum: Spectrum) -> bool {
    exists|k: int|
        0 <= k < trace.len() && (#[trigger] trace[k]).0 == spectrum && forall|i: int|
            0 <= i < trace.len() ==> trace[k].1 <= (#[trigger] trace[i]).1
}

/// The search over `count` spectra after the probes of `trace`.
pub open spec fn search_after(count: usize, tolerance: u64, bound: u64, trace: Seq<Measured>)
    -> SearchView
    decreases trace.len(),
{
    if trace.len() == 0 {
        search_start(count, tolerance, bound)
    } else {
        search_step(
            search_after(count, tolerance, bound, trace.drop_last()),
            trace.last().1,
            trace.last().2,
        )
    }
}

/// One more probe is one more step of the search.
pub proof fn lemma_search_after_push(
    count: usize,
    tolerance: u64,
    bound: u64,
    trace: Seq<Measured>,
    probe: Measured,
)
    ensures
        search_after(count, tolerance, bound, trace.push(probe)) == search_step(
            search_after(count, tolerance, bound, trace),
            probe.1,
            probe.2,
        ),
{
    assert(trace.push(probe).drop_last() =~= trace);
}

/// A search records one probe for each spectrum of its trace, at the
/// distance measured for it.
pub proof fn lemma_search_after_probes(count: usize, tolerance: u64, bound: u64, trace: Seq<Measured>)
    ensures
        search_after(count, tolerance, bound, trace).probes.len() == trace.len(),
        forall|i: int|
            0 <= i < trace.len() ==> (#[trigger] search_after(
                count,
                tolerance,
                bound,
                trace,
            ).probes[i]).1 == trace[i].1,
    decreases trace.len(),
{
    if trace.len() > 0 {
        lemma_search_after_probes(count, tolerance, bound, trace.drop_last());
        let before = search_after(count, tolerance, bound, trace.drop_last());
        let after = search_after(count, tolerance, bound, trace);
        assert forall|i: int| 0 <= i < trace.len() implies (#[trigger] after.probes[i]).1
            == trace[i].1 by {
            if i < trace.len() - 1 {
                assert(after.probes[i] == before.probes[i]);
                assert(trace.drop_last()[i] == trace[i]);
            }
        }
    }
}

/// The spectrum of a probe that no probe undercuts is the nearest of the
/// trace.
pub proof fn lemma_nearest(
    count: usize,
    tolerance: u64,
    bound: u64,
    trace: Seq<Measured>,
    j: int,
)
    requires
        0 <= j < trace.len(),
        forall|i: int|
            0 <= i < trace.len() ==> search_after(count, tolerance, bound, trace).probes[j].1 <= (
            #[trigger] search_after(count, tolerance, bound, trace).probes[i]).1,
    ensures
        nearest_in(trace, trace[j].0),
{
    lemma_search_after_probes(count, tolerance, bound, trace);
    let s = search_after(count, tolerance, bound, trace);
    assert forall|i: int| 0 <= i < trace.len() implies trace[j].1 <= (#[trigger] trace[i]).1 by {
        assert(s.probes[i].1 == trace[i].1);
        assert(s.probes[j].1 == trace[j].1);
    }
}

/// Whether what was measured at `ordinal` agrees with an order of the
/// spectra in which the target stands at ordinal `target`: the spectrum at
/// the target lies within the tolerance, and every other spectrum that lies
/// outside the tolerance lies after the target exactly when its ordinal is
/// larger.
pub open spec fn agrees_with_order(
    ordinal: usize,
    error: u64,
    later: bool,
    target: usize,
    tolerance: u64,
) -> bool {
    if ordinal == target {
        error < tolerance
    } else {
        error >= tolerance ==> (later <==> ordinal > target)
    }
}

/// Whether a search has not lost its target: it has found a spectrum within
/// the tolerance, or the target lies in the window still to search.
pub open spec fn holds_target(s: SearchView, target: usize) -> bool {
    match s.found {
        Some(found) => found.1 < s.tolerance,
        None => s.lo <= target < s.hi,
    }
}

/// A probe that agrees with the order does not lose the target.
pub proof fn lemma_step_keeps_target(
    s: SearchView,
    error: u64,
    later: bool,
    target: usize,
)
    requires
        holds_target(s, target),
        !is_over(s),
        agrees_with_order(middle(s), error, later, target, s.tolerance),
    ensures
        holds_target(search_step(s, error, later), target),
        search_step(s, error, later).tolerance == s.tolerance,
        search_step(s, error, later).hi <= s.hi,
{
}

/// Whether probe `i` of `trace` was made while the search was not over and
/// agrees with an order in which the target stands at ordinal `target`.
pub open spec fn probe_agrees(
    count: usize,
    tolerance: u64,
    bound: u64,
    trace: Seq<Measured>,
    i: int,
    target: usize,
) -> bool {
    let before = search_after(count, tolerance, bound, trace.take(i));
    &&& !is_over(before)
    &&& agrees_with_order(middle(before), trace[i].1, trace[i].2, target, tolerance)
}

/// Whether every probe of `trace` agrees with an order in which the target
/// stands at ordinal `target`.
pub open spec fn trace_agrees(
    count: usize,
    tolerance: u64,
    bound: u64,
    trace: Seq<Measured>,
    target: usize,
) -> bool {
    forall|i: int|
        0 <= i < trace.len() ==> #[trigger] probe_agrees(count, tolerance, bound, trace, i, target)
}

/// A bisection over spectra in order finds its target: while every probe
/// agrees with an order in which some spectrum lies within the tolerance,
/// that spectrum stays in the window until one within the tolerance is
/// found. A search that is over has then found one.
pub proof fn lemma_trace_keeps_target(
    count: usize,
    tolerance: u64,
    bound: u64,
    trace: Seq<Measured>,
    target: usize,
)
    requires
        target < count,
        trace_agrees(count, tolerance, bound, trace, target),
    ensures
        holds_target(search_after(count, tolerance, bound, trace), target),
        search_after(count, tolerance, bound, trace).tolerance == tolerance,
        search_after(count, tolerance, bound, trace).hi <= count,
        is_over(search_after(count, tolerance, bound, trace)) ==> search_after(
            count,
            tolerance,
            bound,
            trace,
        ).found is Some,
    decreases trace.len(),
{
    if trace.len() > 0 {
        let shorter = trace.drop_last();
        let last = trace.len() - 1;
        assert forall|i: int| 0 <= i < shorter.len() implies #[trigger] probe_agrees(
            count,
            tolerance,
            bound,
            shorter,
            i,
            target,
        ) by {
            assert(probe_agrees(count, tolerance, bound, trace, i, target));
            assert(shorter.take(i) =~= trace.take(i));
            assert(shorter[i] == trace[i]);
        }
        lemma_trace_keeps_target(count, tolerance, bound, shorter, target);
        assert(probe_agrees(count, tolerance, bound, trace, last, target));
        assert(trace.take(last) =~= shorter);
        lemma_step_keeps_target(
            search_after(count, tolerance, bound, shorter),
            trace[last].1,
            trace[last].2,
            target,
        );
    }
}

/// A bisection over the ordinals of an index for the spectrum nearest to a
/// target. The caller probes the spectrum that the search names and reports
/// its distance to the target, until the search is over.
pub struct TimeSearch {
    lo: usize,
    hi: usize,
    best: Option<(usize, u64)>,
    bound: u64,
    tolerance: u64,
    found: Option<(usize, u64)>,
    probes: Ghost<Seq<(usize, u64)>>,
}

impl View for TimeSearch {
    type V = SearchView;

    closed spec fn view(&self) -> SearchView {
        SearchView {
            lo: self.lo,
            hi: self.hi,
            best: self.best,
            bound: self.bound,
            tolerance: self.tolerance,
            found: self.found,
            probes: self.probes@,
        }
    }
}

impl TimeSearch {
    /// The invariant of a search holds.
    pub open spec fn wf(&self) -> bool {
        search_inv(self@)
    }

    /// A search over the ordinals below `count`. A probe at a distance below
    /// `tolerance` ends the search; only a probe at a distance below `bound`
    /// can become the nearest.
    pub fn new(count: usize, tolerance: u64, bound: u64) -> (r: Self)
        ensures
            r.wf(),
            r@ == search_start(count, tolerance, bound),
    {
        TimeSearch {
            lo: 0,
            hi: count,
            best: None,
            bound,
            tolerance,
            found: None,
            probes: Ghost(Seq::empty()),
        }
    }

    /// The ordinal to probe next, or `None` when the search is over.
    pub fn next_probe(&self) -> (r: Option<usize>)
        requires
            self.wf(),
        ensures
            match r {
                Some(ordinal) => !is_over(self@) && ordinal == middle(self@) && self@.lo <= ordinal
                    < self@.hi,
                None => is_over(self@),
            },
    {
        if self.found.is_some() || self.lo >= self.hi {
            None
        } else {
            Some(self.lo + (self.hi - self.lo) / 2)
        }
    }

    /// Takes in the probe of the spectrum that `next_probe` named: `error`
    /// is its distance to the target, `later` tells whether it lies after
    /// the target. Returns what to do with the spectrum.
    pub fn observe(&mut self, error: u64, later: bool) -> (r: Verdict)
        requires
            old(self).wf(),
            !is_over(old(self)@),
        ensures
            final(self).wf(),
            final(self)@ == search_step(old(self)@, error, later),
            r == verdict_of(old(self)@, error),
            answer_is_nearest(final(self)@),
            is_over(final(self)@) || final(self)@.hi - final(self)@.lo < old(self)@.hi - old(
                self,
            )@.lo,
    {
        proof {
            lemma_search_step(self@, error, later);
        }
        let probed: usize = self.lo + (self.hi - self.lo) / 2;
        let improved = error < self.bound;
        let within = error < self.tolerance;
        if improved {
            self.best = Some((probed, error));
            self.bound = error;
        }
        if within {
            self.found = Some((probed, error));
        } else if later {
            self.hi = probed;
        } else {
            self.lo = probed + 1;
        }
        self.probes = Ghost(self.probes@.push((probed, error)));
        if within {
            Verdict::Return
        } else if improved {
            Verdict::Keep
        } else {
            Verdict::Pass
        }
    }

    /// The ordinal of the spectrum the search answers with so far: the probe
    /// within the tolerance that ended it, or else the nearest probe it saw.
    /// No probe of the search lay nearer to the target.
    pub fn answer(&self) -> (r: Option<usize>)
        requires
            self.wf(),
        ensures
            match r {
                Some(ordinal) => answer_of(self@) matches Some(answer) && answer.0 == ordinal,
                None => answer_of(self@) is None,
            },
            answer_is_nearest(self@),
    {
        match self.found {
            Some(found) => Some(found.0),
            None => match self.best {
                Some(best) => Some(best.0),
                None => None,
            },
        }
    }
}

} // verus!
