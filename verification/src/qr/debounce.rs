//! Consecutive-match debounce for live QR scan results.
use vstd::prelude::*;

use crate::text::{owned, str_eq};

verus! {

/// Outcome of feeding one frame's decode into [`QrDebouncer`].
#[derive(Debug, Clone, PartialEq, Eq)]
pub enum DebounceOutcome {
    /// Still collecting identical matches (`matched` of `need`).
    Pending { matched: usize, need: usize },
    /// `need` consecutive identical payloads accepted.
    Accepted(String),
    /// Miss / clear — counter reset (e.g. `None` or empty decode).
    Cleared,
}

/// One frame through a debouncer whose streak is `matched` frames of `last`:
/// the new streak and the payload accepted on this frame, if any.
pub open spec fn db_step(last: Option<Seq<char>>, matched: int, need: int, f: Option<Seq<char>>) -> (
    Option<Seq<char>>,
    int,
    Option<Seq<char>>,
) {
    match f {
        None => (None, 0, None),
        Some(p) => {
            let streak = if last == Some(p) { matched + 1 } else { 1 };
            if streak >= need {
                (None, 0, Some(p))
            } else {
                (Some(p), streak, None)
            }
        },
    }
}

/// A fresh debouncer fed `frames` in order: its final streak and what the last
/// frame accepted.
pub open spec fn db_run(need: int, frames: Seq<Option<Seq<char>>>) -> (
    Option<Seq<char>>,
    int,
    Option<Seq<char>>,
)
    decreases frames.len(),
{
    if frames.len() == 0 {
        (None, 0, None)
    } else {
        let prev = db_run(need, frames.drop_last());
        db_step(prev.0, prev.1, need, frames.last())
    }
}

/// The payload view of a frame.
pub open spec fn frame_view(payload: Option<&str>) -> Option<Seq<char>> {
    match payload {
        Some(p) => Some(p@),
        None => None,
    }
}

/// What an outcome accepts.
pub open spec fn accepted_view(out: DebounceOutcome) -> Option<Seq<char>> {
    match out {
        DebounceOutcome::Accepted(a) => Some(a@),
        _ => None,
    }
}

proof fn lemma_run_streak(need: int, frames: Seq<Option<Seq<char>>>)
    requires
        need >= 1,
    ensures
        ({
            let r = db_run(need, frames);
            &&& 0 <= r.1 < need
            &&& (r.1 > 0 <==> r.0 is Some)
            &&& r.0 matches Some(q) ==> r.1 <= frames.len() && forall|t: int|
                frames.len() - r.1 <= t < frames.len() ==> #[trigger] frames[t] == Some(q)
        }),
    decreases frames.len(),
{
    if frames.len() > 0 {
        let init = frames.drop_last();
        lemma_run_streak(need, init);
        let prev = db_run(need, init);
        if let Some(q) = db_run(need, frames).0 {
            assert forall|t: int| frames.len() - db_run(need, frames).1 <= t < frames.len() implies #[trigger] frames[t]
                == Some(q) by {
                if t < frames.len() - 1 {
                    assert(frames[t] == init[t]);
                }
            }
        }
    }
}

/// A payload is accepted only on the last of `need` consecutive frames that
/// all decoded to it.
pub proof fn lemma_accept_needs_streak(need: int, frames: Seq<Option<Seq<char>>>, p: Seq<char>)
    requires
        need >= 1,
        db_run(need, frames).2 == Some(p),
    ensures
        frames.len() >= need,
        forall|t: int| frames.len() - need <= t < frames.len() ==> #[trigger] frames[t] == Some(p),
{
    let init = frames.drop_last();
    lemma_run_streak(need, init);
    let prev = db_run(need, init);
    assert(frames.last() == Some(p));
    assert forall|t: int| frames.len() - need <= t < frames.len() implies #[trigger] frames[t] == Some(p) by {
        if t < frames.len() - 1 {
            assert(frames[t] == init[t]);
        }
    }
}

proof fn lemma_streak_builds(need: int, frames: Seq<Option<Seq<char>>>, p: Seq<char>, k: int)
    requires
        need >= 1,
        frames.len() >= need,
        forall|t: int| frames.len() - need <= t < frames.len() ==> #[trigger] frames[t] == Some(p),
        frames.len() == need || frames[frames.len() - need - 1] != Some(p),
        1 <= k <= need,
    ensures
        k < need ==> db_run(need, frames.take(frames.len() - need + k)) == (Some(p), k, None::<Seq<char>>),
        k == need ==> db_run(need, frames.take(frames.len() - need + k)).2 == Some(p),
    decreases k,
{
    let l = frames.len() - need;
    let cur = frames.take(l + k);
    assert(cur.drop_last() =~= frames.take(l + k - 1));
    assert(cur.last() == frames[l + k - 1]);
    if k == 1 {
        let init = frames.take(l);
        lemma_run_streak(need, init);
        let prev = db_run(need, init);
        if let Some(q) = prev.0 {
            assert(init[l - 1] == frames[l - 1]);
        }
    } else {
        lemma_streak_builds(need, frames, p, k - 1);
    }
}

/// A payload that arrives on `need` consecutive frames, right after a frame
/// that was not that payload (or from the start), is accepted on the last of
/// them.
pub proof fn lemma_streak_accepts(need: int, frames: Seq<Option<Seq<char>>>, p: Seq<char>)
    requires
        need >= 1,
        frames.len() >= need,
        forall|t: int| frames.len() - need <= t < frames.len() ==> #[trigger] frames[t] == Some(p),
        frames.len() == need || frames[frames.len() - need - 1] != Some(p),
    ensures
        db_run(need, frames).2 == Some(p),
{
    lemma_streak_builds(need, frames, p, need);
    assert(frames.take(frames.len() as int) =~= frames);
}

/// With `need >= 2`, frames that never repeat the previous one are never accepted
/// (a flickering decode never settles).
pub proof fn lemma_flicker_never_accepts(need: int, frames: Seq<Option<Seq<char>>>)
    requires
        need >= 2,
        forall|t: int| 0 < t < frames.len() ==> #[trigger] frames[t] != frames[t - 1],
    ensures
        db_run(need, frames).2 is None,
{
    if let Some(p) = db_run(need, frames).2 {
        lemma_accept_needs_streak(need, frames, p);
        let l = frames.len() as int;
        assert(frames[l - 1] == Some(p) && frames[l - 2] == Some(p));
        assert(frames[l - 1] != frames[l - 2]);
    }
}

/// While a payload `q` is pending with count `k`, the last `k` frames all
/// carried `q` and left it pending, and the run began at the start, right
/// after a frame that was not `q` (a miss or another payload), or right after
/// an acceptance: `k` is the length of the run since the latest reset.
pub proof fn lemma_pending_is_run(need: int, frames: Seq<Option<Seq<char>>>)
    requires
        need >= 1,
    ensures
        db_run(need, frames).0 matches Some(q) ==> {
            let k = db_run(need, frames).1;
            let l = frames.len() as int;
            &&& 1 <= k <= l
            &&& forall|j: int| l - k <= j < l ==> #[trigger] frames[j] == Some(q)
            &&& forall|j: int| l - k <= j < l ==> (#[trigger] db_run(need, frames.take(j + 1))).0 == Some(q)
            &&& (k == l || frames[l - k - 1] != Some(q) || db_run(need, frames.take(l - k)).2 is Some)
        },
    decreases frames.len(),
{
    lemma_run_streak(need, frames);
    if frames.len() > 0 {
        let l = frames.len() as int;
        let init = frames.drop_last();
        lemma_pending_is_run(need, init);
        lemma_run_streak(need, init);
        let prev = db_run(need, init);
        let cur = db_run(need, frames);
        assert(frames.take(l) =~= frames);
        if let Some(q) = cur.0 {
            let k = cur.1;
            assert forall|j: int| l - k <= j < l - 1 implies #[trigger] frames.take(j + 1) == init.take(j + 1) by {
                assert(frames.take(j + 1) =~= init.take(j + 1));
            }
            if k > 1 {
                assert(prev.0 == Some(q) && prev.1 == k - 1);
                assert(frames.take(l - k) =~= init.take(l - k));
                if k < l {
                    assert(frames[l - k - 1] == init[l - k - 1]);
                }
            } else {
                assert(frames.take(l - 1) =~= init);
                if l > 1 && prev.2 is None {
                    if let Some(p0) = prev.0 {
                        assert(init[init.len() - 1] == Some(p0));
                    } else {
                        assert(init.last() == frames[l - 2]);
                    }
                }
            }
        }
    }
}

/// Requires `need` consecutive identical payloads before [`DebounceOutcome::Accepted`].
#[derive(Debug, Clone)]
pub struct QrDebouncer {
    pub need: usize,
    pub last: Option<String>,
    pub matched: usize,
}

impl QrDebouncer {
    /// The payload the current streak repeats.
    pub open spec fn last_view(&self) -> Option<Seq<char>> {
        match self.last {
            Some(l) => Some(l@),
            None => None,
        }
    }

    /// The streak is shorter than the target and the target is at least one.
    pub open spec fn wf(&self) -> bool {
        self.need >= 1 && self.matched < self.need && (self.matched > 0 <==> self.last is Some)
    }

    /// Create a debouncer that accepts after `need` identical consecutive payloads.
    ///
    /// `need` of `0` is treated as `1` (immediate accept on first hit).
    pub fn new(need: usize) -> (d: Self)
        ensures
            d.wf(),
            d.need == if need == 0 { 1 } else { need },
            d.last is None,
            d.matched == 0,
    {
        Self { need: if need > 1 { need } else { 1 }, last: None, matched: 0 }
    }

    /// Clear streak state.
    pub fn reset(&mut self)
        ensures
            final(self).last is None,
            final(self).matched == 0,
            final(self).need == old(self).need,
    {
        self.last = None;
        self.matched = 0;
    }

    /// Push one frame result (`None` = no QR / miss).
    pub fn push(&mut self, payload: Option<&str>) -> (out: DebounceOutcome)
        requires
            old(self).wf(),
        ensures
            final(self).wf(),
            final(self).need == old(self).need,
            db_step(old(self).last_view(), old(self).matched as int, old(self).need as int, frame_view(payload))
                == (final(self).last_view(), final(self).matched as int, accepted_view(out)),
            match payload {
                None => out == DebounceOutcome::Cleared && final(self).last is None
                    && final(self).matched == 0,
                Some(p) => {
                    let streak = if old(self).last matches Some(l) && l@ == p@ {
                        old(self).matched + 1
                    } else {
                        1
                    };
                    if streak >= old(self).need {
                        (out matches DebounceOutcome::Accepted(a) && a@ == p@)
                            && final(self).last is None && final(self).matched == 0
                    } else {
                        out == DebounceOutcome::Pending { matched: streak as usize, need: old(self).need }
                            && final(self).matched == streak && (final(self).last matches Some(l)
                            && l@ == p@)
                    }
                },
            },
    {
        let payload = match payload {
            Some(p) => p,
            None => {
                self.reset();
                return DebounceOutcome::Cleared;
            },
        };
        let same = match &self.last {
            Some(l) => str_eq(l.as_str(), payload),
            None => false,
        };
        if same {
            self.matched += 1;
        } else {
            self.last = Some(owned(payload));
            self.matched = 1;
        }
        if self.matched >= self.need {
            let accepted = owned(payload);
            self.reset();
            DebounceOutcome::Accepted(accepted)
        } else {
            DebounceOutcome::Pending { matched: self.matched, need: self.need }
        }
    }
}

/// A debouncer whose streak is `matched` frames of `last` fed `frames` in
/// order: its final streak and what the last frame accepted.
pub open spec fn db_run_from(
    last: Option<Seq<char>>,
    matched: int,
    need: int,
    frames: Seq<Option<Seq<char>>>,
) -> (Option<Seq<char>>, int, Option<Seq<char>>)
    decreases frames.len(),
{
    if frames.len() == 0 {
        (last, matched, None)
    } else {
        let prev = db_run_from(last, matched, need, frames.drop_last());
        db_step(prev.0, prev.1, need, frames.last())
    }
}

/// The frames that bring a fresh debouncer to a streak of `matched` frames of
/// `last`: that many copies of `last`.
pub open spec fn streak_history(last: Option<Seq<char>>, matched: int) -> Seq<Option<Seq<char>>> {
    Seq::new(matched as nat, |i: int| last)
}

proof fn lemma_history_run(q: Seq<char>, m: int, need: int)
    requires
        0 <= m < need,
    ensures
        db_run(need, streak_history(Some(q), m)) == (if m == 0 {
            (None::<Seq<char>>, 0int, None::<Seq<char>>)
        } else {
            (Some(q), m, None::<Seq<char>>)
        }),
    decreases m,
{
    let h = streak_history(Some(q), m);
    if m > 0 {
        assert(h.drop_last() =~= streak_history(Some(q), m - 1));
        lemma_history_run(q, m - 1, need);
    } else {
        assert(h.len() == 0);
    }
}

/// Whatever its history, a debouncer with a streak of `matched` frames of
/// `last` behaves on any further frames as a fresh one fed that streak first;
/// so the laws above on fresh debouncers hold after any history.
pub proof fn lemma_any_state_has_history(
    last: Option<Seq<char>>,
    matched: int,
    need: int,
    frames: Seq<Option<Seq<char>>>,
)
    requires
        need >= 1,
        0 <= matched < need,
        matched > 0 <==> last is Some,
    ensures
        db_run_from(last, matched, need, frames) == db_run(need, streak_history(last, matched) + frames),
    decreases frames.len(),
{
    let h = streak_history(last, matched);
    if frames.len() == 0 {
        assert(h + frames =~= h);
        match last {
            Some(q) => lemma_history_run(q, matched, need),
            None => assert(h.len() == 0),
        }
    } else {
        lemma_any_state_has_history(last, matched, need, frames.drop_last());
        assert((h + frames).drop_last() =~= h + frames.drop_last());
        assert((h + frames).last() == frames.last());
    }
}

/// After any history, a payload is accepted only on the last of `need`
/// consecutive frames carrying it, counting the frames of the current streak.
pub proof fn lemma_accept_after_any_history(
    last: Option<Seq<char>>,
    matched: int,
    need: int,
    frames: Seq<Option<Seq<char>>>,
    p: Seq<char>,
)
    requires
        need >= 1,
        0 <= matched < need,
        matched > 0 <==> last is Some,
        db_run_from(last, matched, need, frames).2 == Some(p),
    ensures
        ({
            let all = streak_history(last, matched) + frames;
            &&& all.len() >= need
            &&& forall|t: int| all.len() - need <= t < all.len() ==> #[trigger] all[t] == Some(p)
        }),
{
    lemma_any_state_has_history(last, matched, need, frames);
    lemma_accept_needs_streak(need, streak_history(last, matched) + frames, p);
}

} // verus!
