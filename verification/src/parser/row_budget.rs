use vstd::prelude::*;

verus! {

/// The number of leading rows of a file that a diagnosis reads.
pub const DIAGNOSIS_ROW_LIMIT: usize = 1000;

/// What to keep of the next batch read.
#[derive(Clone, Copy, Debug, PartialEq, Eq, Structural)]
pub enum BatchTake {
    /// Keep the whole batch and go on reading.
    Whole,
    /// Keep the first `n` rows of the batch and stop reading.
    Prefix(usize),
}

/// The rows still allowed while batches are read, up to `max_rows` in all.
pub struct RowBudget {
    max_rows: usize,
    total_rows: usize,
}

impl RowBudget {
    #[verifier::type_invariant]
    spec fn within_budget(self) -> bool {
        self.total_rows <= self.max_rows
    }

    /// The most rows that may be kept.
    pub closed spec fn max(self) -> nat {
        self.max_rows as nat
    }

    /// The rows kept so far.
    pub closed spec fn taken(self) -> nat {
        self.total_rows as nat
    }

    /// A budget of `max_rows` rows of which none is kept yet.
    pub fn new(max_rows: usize) -> (b: Self)
        ensures
            b.max() == max_rows,
            b.taken() == 0,
    {
        RowBudget { max_rows, total_rows: 0 }
    }

    /// The most rows that may be kept.
    pub fn max_rows(&self) -> (n: usize)
        ensures
            n == self.max(),
    {
        self.max_rows
    }

    /// The rows kept so far; never more than the maximum.
    pub fn rows_taken(&self) -> (n: usize)
        ensures
            n == self.taken(),
            n <= self.max(),
    {
        proof {
            use_type_invariant(self);
        }
        self.total_rows
    }

    /// Decides what to keep of a batch of `batch_rows` rows: the whole batch
    /// while it fits in what is left, else the prefix that fills the budget
    /// (after which reading stops).
    pub fn take(&mut self, batch_rows: usize) -> (t: BatchTake)
        requires
            old(self).taken() + batch_rows <= usize::MAX,
        ensures
            final(self).max() == old(self).max(),
            final(self).taken() <= final(self).max(),
            old(self).taken() + batch_rows <= old(self).max() ==> t == BatchTake::Whole
                && final(self).taken() == old(self).taken() + batch_rows,
            old(self).taken() + batch_rows > old(self).max() ==> t == BatchTake::Prefix(
                (old(self).max() - old(self).taken()) as usize,
            ) && final(self).taken() == old(self).max(),
    {
        proof {
            use_type_invariant(&*self);
        }
        if self.total_rows + batch_rows <= self.max_rows {
            self.total_rows = self.total_rows + batch_rows;
            BatchTake::Whole
        } else {
            let remaining = self.max_rows - self.total_rows;
            self.total_rows = self.max_rows;
            BatchTake::Prefix(remaining)
        }
    }
}

} // verus!
