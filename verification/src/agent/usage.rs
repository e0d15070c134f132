//! Token counts.
use vstd::prelude::*;

verus! {

/// The tokens that a provider reports for one response.
#[derive(Clone, Copy, Debug, PartialEq, Eq, Structural)]
pub struct Usage {
    /// Prompt tokens.
    pub input: u64,
    /// Completion tokens.
    pub output: u64,
    /// Tokens served from the provider's prompt cache.
    pub cache_read: u64,
    /// Tokens written into the provider's prompt cache.
    pub cache_write: u64,
    /// The total as the provider reports it; zero where it reports none.
    pub total: u64,
}

impl Default for Usage {
    fn default() -> (r: Self)
        ensures
            r == (Usage { input: 0, output: 0, cache_read: 0, cache_write: 0, total: 0 }),
    {
        Usage { input: 0, output: 0, cache_read: 0, cache_write: 0, total: 0 }
    }
}

impl Usage {
    /// The sum of the token counts.
    pub open spec fn sum(self) -> nat {
        (self.input + self.output + self.cache_read + self.cache_write) as nat
    }

    /// The reported total, or the sum of the counts where none is reported.
    pub open spec fn effective(self) -> nat {
        if self.total > 0 {
            self.total as nat
        } else {
            self.sum()
        }
    }

    pub fn effective_total(&self) -> (r: u64)
        requires
            self.effective() <= u64::MAX,
        ensures
            r == self.effective(),
    {
        if self.total > 0 {
            self.total
        } else {
            self.input + self.output + self.cache_read + self.cache_write
        }
    }

    /// Adds another response to this one. The total stays that of both.
    pub fn add(&mut self, other: &Usage)
        requires
            old(self).input + other.input <= u64::MAX,
            old(self).output + other.output <= u64::MAX,
            old(self).cache_read + other.cache_read <= u64::MAX,
            old(self).cache_write + other.cache_write <= u64::MAX,
            old(self).effective() + other.effective() <= u64::MAX,
        ensures
            final(self).input == old(self).input + other.input,
            final(self).output == old(self).output + other.output,
            final(self).cache_read == old(self).cache_read + other.cache_read,
            final(self).cache_write == old(self).cache_write + other.cache_write,
            final(self).total == old(self).effective() + other.effective(),
    {
        let total: u64 = self.effective_total() + other.effective_total();
        self.input = self.input + other.input;
        self.output = self.output + other.output;
        self.cache_read = self.cache_read + other.cache_read;
        self.cache_write = self.cache_write + other.cache_write;
        self.total = total;
    }
}

/// Adding a response to another adds their effective totals.
pub proof fn law_totals_add_up(a: Usage, b: Usage, c: Usage)
    requires
        c.input == a.input + b.input,
        c.output == a.output + b.output,
        c.cache_read == a.cache_read + b.cache_read,
        c.cache_write == a.cache_write + b.cache_write,
        c.total == a.effective() + b.effective(),
    ensures
        c.effective() == a.effective() + b.effective(),
{
}

/// A total that is reported counts; where none is, it is that of all tokens, read, written and
/// cached.
pub proof fn law_a_reported_total_counts(u: Usage)
    ensures
        u.total > 0 ==> u.effective() == u.total,
        u.total == 0 ==> u.effective() == u.input + u.output + u.cache_read + u.cache_write,
{
}

} // verus!
