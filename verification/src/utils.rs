use vstd::prelude::*;

verus! {

/// Maintains the resources of a run: an optional step budget; no budget
/// means an unlimited run.
#[derive(Debug)]
pub struct RunResources {
    pub n_steps: Option<u64>,
}

impl RunResources {
    /// Whether the budget is used up; an absent budget never is.
    pub fn consumed(&self) -> (r: bool)
        ensures
            r == (self.n_steps matches Some(n) && n == 0),
    {
        match &self.n_steps {
            Some(n) => *n == 0,
            None => false,
        }
    }

    /// Spends one step of the budget, if one is kept.
    pub fn consume_step(&mut self)
        ensures
            match old(self).n_steps {
                Some(n) => final(self).n_steps == Some((if n > 0 {
                    (n - 1) as u64
                } else {
                    0u64
                })),
                None => final(self).n_steps is None,
            },
    {
        match &self.n_steps {
            Some(n) => {
                if *n > 0 {
                    self.n_steps = Some(*n - 1);
                } else {
                    self.n_steps = Some(0);
                }
            },
            None => {},
        }
    }
}

} // verus!
