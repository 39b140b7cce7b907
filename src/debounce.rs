//! Debounce filter: turns noisy button samples into clean edge events.
//!
//! The sample history is kept by `debouncr`; this module adds the last
//! reported stable level, so that edges of one direction always alternate
//! with edges of the other.
use vstd::prelude::*;
use debouncr::{Debouncer, Repeat6};

verus! {

/// Number of consecutive equal samples that make a level stable.
pub const DEBOUNCE_SAMPLES: usize = 6;

/// A change of the debounced level.
#[derive(Clone, Copy, Debug, PartialEq, Eq, Structural)]
pub enum Edge {
    Rising,
    Falling,
}

#[verifier::external_type_specification]
#[verifier::external_body]
#[verifier::reject_recursive_types(S)]
#[verifier::reject_recursive_types(M)]
pub struct ExDebouncer<S, M>(Debouncer<S, M>);

#[verifier::external_type_specification]
#[verifier::external_body]
pub struct ExRepeat6(Repeat6);

/// The samples a six-sample `debouncr` debouncer holds, oldest first.
pub uninterp spec fn recent_samples(d: Debouncer<u8, Repeat6>) -> Seq<bool>;

/// Relies on `debouncr::debounce_6`: the new debouncer's history holds six
/// copies of the initial level.
#[verifier::external_body]
fn debouncer_new(initial: bool) -> (r: Debouncer<u8, Repeat6>)
    ensures
        recent_samples(r) == Seq::new(6, |_i: int| initial),
{
    debouncr::debounce_6(initial)
}

/// Relies on `Debouncer::<u8, Repeat6>::update`: the sample is shifted into the
/// history, dropping the oldest one; `Rising` comes when the history becomes all
/// high from not all high, `Falling` when it becomes all low from not all low.
#[verifier::external_body]
fn debouncer_update(d: &mut Debouncer<u8, Repeat6>, sample: bool) -> (r: Option<Edge>)
    ensures
        recent_samples(*final(d)) == recent_samples(*old(d)).drop_first().push(sample),
        r == Some(Edge::Rising) <==> all_equal(recent_samples(*final(d)), true) && !all_equal(
            recent_samples(*old(d)),
            true,
        ),
        r == Some(Edge::Falling) <==> all_equal(recent_samples(*final(d)), false) && !all_equal(
            recent_samples(*old(d)),
            false,
        ),
{
    match d.update(sample) {
        Some(debouncr::Edge::Rising) => Some(Edge::Rising),
        Some(debouncr::Edge::Falling) => Some(Edge::Falling),
        None => None,
    }
}

/// Every sample in `s` equals `level`.
pub open spec fn all_equal(s: Seq<bool>, level: bool) -> bool {
    forall|i: int| 0 <= i < s.len() ==> #[trigger] s[i] == level
}

/// Abstract state of the filter: the recent samples and the last reported level.
pub struct DebounceView {
    pub samples: Seq<bool>,
    pub level: bool,
}

/// The filter's state after reset: a low history and a low reported level.
pub open spec fn initial_view() -> DebounceView {
    DebounceView { samples: Seq::new(DEBOUNCE_SAMPLES as nat, |_i: int| false), level: false }
}

/// One poll: shift in `sample`; report `Rising` when all recent samples are high
/// and the reported level was low, `Falling` in the mirror case.
pub open spec fn filter_step(v: DebounceView, sample: bool) -> (DebounceView, Option<Edge>) {
    let s = v.samples.drop_first().push(sample);
    if all_equal(s, true) && !v.level {
        (DebounceView { samples: s, level: true }, Some(Edge::Rising))
    } else if all_equal(s, false) && v.level {
        (DebounceView { samples: s, level: false }, Some(Edge::Falling))
    } else {
        (DebounceView { samples: s, level: v.level }, None)
    }
}

/// State and outputs of a filter fed `samples` from reset.
pub open spec fn filter_run(samples: Seq<bool>) -> (DebounceView, Seq<Option<Edge>>)
    decreases samples.len(),
{
    if samples.len() == 0 {
        (initial_view(), Seq::empty())
    } else {
        let (v, outs) = filter_run(samples.drop_last());
        let (v2, o) = filter_step(v, samples.last());
        (v2, outs.push(o))
    }
}

/// The most recent edge in `outs` is `Rising`.
pub open spec fn last_edge_rising(outs: Seq<Option<Edge>>) -> bool
    decreases outs.len(),
{
    if outs.len() == 0 {
        false
    } else if outs.last() == Some(Edge::Rising) {
        true
    } else if outs.last() == Some(Edge::Falling) {
        false
    } else {
        last_edge_rising(outs.drop_last())
    }
}

/// The last `n` samples of `s` exist and all equal `level`.
pub open spec fn ends_with_run(s: Seq<bool>, n: nat, level: bool) -> bool {
    n <= s.len() && forall|j: int| s.len() - n <= j < s.len() ==> #[trigger] s[j] == level
}

/// Debouncer for an input sampled at a fixed cadence.
pub struct DebounceFilter {
    history: Debouncer<u8, Repeat6>,
    level: bool,
}

impl DebounceFilter {
    pub closed spec fn view(&self) -> DebounceView {
        DebounceView { samples: recent_samples(self.history), level: self.level }
    }

    /// The reported level agrees with a history that is all high or all low.
    pub open spec fn wf(&self) -> bool {
        &&& self@.samples.len() == DEBOUNCE_SAMPLES
        &&& all_equal(self@.samples, true) ==> self@.level
        &&& all_equal(self@.samples, false) ==> !self@.level
    }

    /// A filter after reset: low history, low reported level.
    pub fn new() -> (r: Self)
        ensures
            r.wf(),
            r@ == initial_view(),
    {
        let r = DebounceFilter { history: debouncer_new(false), level: false };
        proof {
            assert(!all_equal(r@.samples, true)) by {
                assert(r@.samples[0] == false);
            }
        }
        r
    }

    /// The last reported stable level.
    pub fn is_high(&self) -> (r: bool)
        ensures
            r == self@.level,
    {
        self.level
    }

    /// Feeds one raw sample; returns the edge it completes, if any.
    pub fn update(&mut self, sample: bool) -> (r: Option<Edge>)
        requires
            old(self).wf(),
        ensures
            final(self).wf(),
            (final(self)@, r) == filter_step(old(self)@, sample),
    {
        let ghost v = self@;
        let e = debouncer_update(&mut self.history, sample);
        let r = match e {
            Some(Edge::Rising) => {
                if !self.level {
                    self.level = true;
                    Some(Edge::Rising)
                } else {
                    None
                }
            },
            Some(Edge::Falling) => {
                if self.level {
                    self.level = false;
                    Some(Edge::Falling)
                } else {
                    None
                }
            },
            None => None,
        };
        proof {
            let s = self@.samples;
            assert(s.len() == DEBOUNCE_SAMPLES);
            if all_equal(s, true) {
                assert(!all_equal(s, false)) by {
                    assert(s[0] == true);
                }
            }
        }
        r
    }
}

proof fn lemma_run_state(samples: Seq<bool>)
    ensures
        filter_run(samples).0.samples.len() == DEBOUNCE_SAMPLES,
        filter_run(samples).1.len() == samples.len(),
        filter_run(samples).0.level == last_edge_rising(filter_run(samples).1),
        filter_run(samples).0.level ==> samples.len() >= DEBOUNCE_SAMPLES,
        forall|j: int|
            0 <= j < DEBOUNCE_SAMPLES ==> #[trigger] filter_run(samples).0.samples[j] == (if samples.len()
                - DEBOUNCE_SAMPLES + j >= 0 {
                samples[samples.len() - DEBOUNCE_SAMPLES + j]
            } else {
                false
            }),
    decreases samples.len(),
{
    if samples.len() > 0 {
        let p = samples.drop_last();
        lemma_run_state(p);
        let (v, outs) = filter_run(p);
        let (v2, o) = filter_step(v, samples.last());
        assert(filter_run(samples).1 == outs.push(o));
        assert(outs.push(o).drop_last() == outs);
        let s = v.samples.drop_first().push(samples.last());
        assert forall|j: int| 0 <= j < DEBOUNCE_SAMPLES implies #[trigger] s[j] == (if samples.len()
            - DEBOUNCE_SAMPLES + j >= 0 {
            samples[samples.len() - DEBOUNCE_SAMPLES + j]
        } else {
            false
        }) by {
            if j < DEBOUNCE_SAMPLES - 1 {
                assert(s[j] == v.samples[j + 1]);
            }
        }
        if v2.level && !v.level {
            assert(s[0] == true);
        }
    }
}

/// Over any sample sequence from reset, the filter reports `Rising` exactly on a
/// sample that completes six consecutive high samples while the last reported
/// edge was not `Rising` (`Falling` in the mirror case), so two edges of one
/// direction always have an edge of the other between them.
pub proof fn lemma_debounce_edges(samples: Seq<bool>)
    requires
        samples.len() > 0,
    ensures
        ({
            let outs = filter_run(samples).1;
            let before = outs.drop_last();
            &&& outs.len() == samples.len()
            &&& outs.last() == Some(Edge::Rising) <==> ends_with_run(
                samples,
                DEBOUNCE_SAMPLES as nat,
                true,
            ) && !last_edge_rising(before)
            &&& outs.last() == Some(Edge::Falling) <==> ends_with_run(
                samples,
                DEBOUNCE_SAMPLES as nat,
                false,
            ) && last_edge_rising(before)
        }),
{
    let p = samples.drop_last();
    lemma_run_state(p);
    lemma_run_state(samples);
    let (v, outs) = filter_run(p);
    let s = v.samples.drop_first().push(samples.last());
    let n = samples.len();
    assert(filter_run(samples).1 == outs.push(filter_step(v, samples.last()).1));
    assert(outs.push(filter_step(v, samples.last()).1).drop_last() == outs);
    assert(s == filter_run(samples).0.samples);
    assert(all_equal(s, true) <==> ends_with_run(samples, DEBOUNCE_SAMPLES as nat, true)) by {
        if all_equal(s, true) {
            assert(s[0] == (if n - 6 >= 0 { samples[n - 6] } else { false }));
            assert forall|j: int| n - 6 <= j < n implies #[trigger] samples[j] == true by {
                assert(s[j - (n - 6)] == true);
            }
        }
        if ends_with_run(samples, DEBOUNCE_SAMPLES as nat, true) {
            assert forall|j: int| 0 <= j < s.len() implies #[trigger] s[j] == true by {
                assert(samples[n - 6 + j] == true);
            }
        }
    }
    assert(v.level ==> (all_equal(s, false) <==> ends_with_run(
        samples,
        DEBOUNCE_SAMPLES as nat,
        false,
    ))) by {
        if all_equal(s, false) && v.level {
            assert forall|j: int| n - 6 <= j < n implies #[trigger] samples[j] == false by {
                assert(s[j - (n - 6)] == false);
            }
        }
        if ends_with_run(samples, DEBOUNCE_SAMPLES as nat, false) {
            assert forall|j: int| 0 <= j < s.len() implies #[trigger] s[j] == false by {
                assert(samples[n - 6 + j] == false);
            }
        }
    }
    if all_equal(s, true) {
        assert(!all_equal(s, false)) by {
            assert(s[0] == true);
        }
    }
}

/// A filter polled with `samples` from reset and then with `sample` is in the
/// state, and reports the edge, of a run over `samples` followed by `sample`:
/// every law about runs holds of successive `update` calls.
pub proof fn lemma_update_extends_run(samples: Seq<bool>, sample: bool)
    ensures
        filter_run(Seq::<bool>::empty()).0 == initial_view(),
        filter_run(samples.push(sample)).0 == filter_step(filter_run(samples).0, sample).0,
        filter_run(samples.push(sample)).1 == filter_run(samples).1.push(
            filter_step(filter_run(samples).0, sample).1,
        ),
{
    assert(samples.push(sample).drop_last() == samples);
}

} // verus!
