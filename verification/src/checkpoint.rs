//! Checkpoint policy: persist the model whenever the chosen validation
//! metric improves.  The decision rule is a small state machine over the
//! best value seen so far; performing the save is the caller's side effect.

use vstd::prelude::*;

use crate::fbits::flt;

verus! {

/// Which validation metric drives checkpointing, and where to save.
pub enum Checkpoint {
    ValAcc { save_path: String },
    ValLoss { save_path: String },
}

/// Decision of one observation against the best value so far, for a metric
/// where higher is better: the first observation only becomes the baseline,
/// and later ones are kept (and saved) exactly when strictly greater.
pub open spec fn observe_higher_spec(best: Option<u64>, value: u64) -> (bool, Option<u64>) {
    match best {
        None => (false, Some(value)),
        Some(prev) => if flt(prev, value) {
            (true, Some(value))
        } else {
            (false, Some(prev))
        },
    }
}

/// Decision of one observation for a metric where lower is better.
pub open spec fn observe_lower_spec(best: Option<u64>, value: u64) -> (bool, Option<u64>) {
    match best {
        None => (false, Some(value)),
        Some(prev) => if flt(value, prev) {
            (true, Some(value))
        } else {
            (false, Some(prev))
        },
    }
}

/// Best metric value seen so far during one training run.
pub struct BestMetric {
    pub best: Option<u64>,
}

impl BestMetric {
    pub fn new() -> (r: BestMetric)
        ensures
            r.best is None,
    {
        BestMetric { best: None }
    }

    /// Record an observation of a higher-is-better metric; the result says
    /// whether the model must be saved now.
    pub fn observe_higher(&mut self, value: u64) -> (save: bool)
        ensures
            (save, final(self).best) == observe_higher_spec(old(self).best, value),
    {
        match &self.best {
            None => {
                self.best = Some(value);
                false
            },
            Some(prev) => {
                if crate::fbits::bits_lt(*prev, value) {
                    self.best = Some(value);
                    true
                } else {
                    false
                }
            },
        }
    }

    /// Record an observation of a lower-is-better metric.
    pub fn observe_lower(&mut self, value: u64) -> (save: bool)
        ensures
            (save, final(self).best) == observe_lower_spec(old(self).best, value),
    {
        match &self.best {
            None => {
                self.best = Some(value);
                false
            },
            Some(prev) => {
                if crate::fbits::bits_lt(value, *prev) {
                    self.best = Some(value);
                    true
                } else {
                    false
                }
            },
        }
    }
}

/// Law: with an accuracy checkpoint, a run whose validation accuracy
/// strictly rises and then strictly falls saves exactly once — at the point
/// of the rise.  The first observation only sets the baseline.
pub proof fn lemma_checkpoint_saves_once(a: u64, b: u64, c: u64)
    requires
        flt(a, b),
        flt(c, b),
    ensures
        ({
            let (s1, m1) = observe_higher_spec(None, a);
            let (s2, m2) = observe_higher_spec(m1, b);
            let (s3, m3) = observe_higher_spec(m2, c);
            !s1 && s2 && !s3
        }),
{
}

} // verus!
