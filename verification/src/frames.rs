//! What rendering a live row costs, and the switches for measuring it.
use vstd::prelude::*;

verus! {

/// How many samples make a report.
pub const FRAME_STATS_WINDOW: usize = 240;

/// Whether a switch is on: it is set, to something else than nothing or zero.
pub open spec fn switched_on(value: Option<Seq<char>>) -> bool {
    value matches Some(v) && v.len() > 0 && v != "0"@
}

/// Whether a switch of the environment is on, by its value.
pub fn knob_on(value: &Option<String>) -> (r: bool)
    ensures
        r == switched_on(crate::markdown::opt_text(*value)),
{
    match value {
        Some(v) => !v.as_str().is_empty() && *v != "0".to_owned(),
        None => false,
    }
}

/// What a window of samples came to, in microseconds.
#[derive(Debug, Clone, Copy, PartialEq, Eq, Structural)]
pub struct FrameReport {
    pub n: usize,
    pub p50: u64,
    pub p95: u64,
    pub max: u64,
}

/// The samples of the window so far, in rising order.
pub struct FrameStats {
    samples: Vec<u64>,
}

impl View for FrameStats {
    type V = Seq<u64>;

    closed spec fn view(&self) -> Seq<u64> {
        self.samples@
    }
}

/// Whether samples rise.
pub open spec fn rising(s: Seq<u64>) -> bool {
    forall|i: int, j: int| 0 <= i <= j < s.len() ==> #[trigger] s[i] <= #[trigger] s[j]
}

/// Where a sample belongs among rising ones: behind those that do not exceed it.
pub open spec fn place(s: Seq<u64>, x: u64) -> nat
    decreases s.len(),
{
    if s.len() == 0 || s.last() <= x {
        s.len()
    } else {
        place(s.drop_last(), x)
    }
}

/// The samples with one more.
pub open spec fn with_sample(s: Seq<u64>, x: u64) -> Seq<u64> {
    s.insert(place(s, x) as int, x)
}

/// What a full window comes to: its middle, the sample that ninety-five of a
/// hundred stay below, and its greatest.
pub open spec fn report(s: Seq<u64>) -> FrameReport {
    FrameReport {
        n: s.len() as usize,
        p50: s[s.len() as int / 2],
        p95: s[s.len() as int * 95 / 100],
        max: s.last(),
    }
}

impl FrameStats {
    /// No samples.
    pub fn new() -> (r: Self)
        ensures
            r@ == Seq::<u64>::empty(),
    {
        FrameStats { samples: Vec::new() }
    }

    /// Takes in a sample. A full window gives its report and starts anew.
    pub fn record(&mut self, us: u64) -> (r: Option<FrameReport>)
        requires
            old(self)@.len() < FRAME_STATS_WINDOW,
        ensures
            final(self)@.len() < FRAME_STATS_WINDOW,
            ({
                let all = with_sample(old(self)@, us);
                if all.len() >= FRAME_STATS_WINDOW {
                    r == Some(report(all)) && final(self)@ == Seq::<u64>::empty()
                } else {
                    r is None && final(self)@ == all
                }
            }),
    {
        let ghost before = self.samples@;
        let mut at: usize = self.samples.len();
        assert(before.take(at as int) =~= before);
        while at > 0 && self.samples[at - 1] > us
            invariant
                at <= self.samples@.len(),
                self.samples@ == before,
                place(before.take(at as int), us) == place(before, us),
            decreases at,
        {
            assert(before.take(at as int).drop_last() =~= before.take(at - 1));
            at = at - 1;
        }
        proof {
            lemma_place_len(before, us);
        }
        self.samples.insert(at, us);
        assert(self.samples@ =~= with_sample(before, us));
        let n: usize = self.samples.len();
        if n >= FRAME_STATS_WINDOW {
            let r = FrameReport {
                n,
                p50: self.samples[n / 2],
                p95: self.samples[n * 95 / 100],
                max: self.samples[n - 1],
            };
            self.samples.clear();
            Some(r)
        } else {
            None
        }
    }
}

/// A sample belongs within the window or at its end.
pub proof fn lemma_place_len(s: Seq<u64>, x: u64)
    ensures
        place(s, x) <= s.len(),
    decreases s.len(),
{
    if s.len() > 0 && s.last() > x {
        lemma_place_len(s.drop_last(), x);
    }
}

proof fn lemma_place(s: Seq<u64>, x: u64)
    requires
        rising(s),
    ensures
        place(s, x) <= s.len(),
        forall|i: int| 0 <= i < place(s, x) ==> #[trigger] s[i] <= x,
        forall|i: int| place(s, x) <= i < s.len() ==> #[trigger] s[i] > x,
    decreases s.len(),
{
    if s.len() > 0 && s.last() > x {
        let init = s.drop_last();
        assert(rising(init));
        lemma_place(init, x);
        assert forall|i: int| 0 <= i < place(s, x) implies #[trigger] s[i] <= x by {
            assert(init[i] <= x);
        }
        assert forall|i: int| place(s, x) <= i < s.len() implies #[trigger] s[i] > x by {
            if i < init.len() {
                assert(init[i] > x);
            }
        }
    }
}

/// Samples stay in rising order, and none is lost: so a report reads the middle
/// and the greatest of exactly what was recorded.
pub proof fn law_samples_stay_sorted(s: Seq<u64>, x: u64)
    requires
        rising(s),
    ensures
        rising(with_sample(s, x)),
        with_sample(s, x).to_multiset() == s.to_multiset().insert(x),
{
    lemma_place(s, x);
    let w = with_sample(s, x);
    let p = place(s, x) as int;
    assert forall|i: int, j: int| 0 <= i <= j < w.len() implies #[trigger] w[i] <= #[trigger] w[j] by {
        if i < p && j > p {
            assert(s[i] <= s[j - 1]);
        } else if i > p {
            assert(s[i - 1] <= s[j - 1]);
        }
    }
    vstd::seq_lib::to_multiset_insert(s, p, x);
}

} // verus!
