use vstd::prelude::*;

verus! {

/// The successor of a counter value: one more, wrapping around from
/// `i32::MAX` to `i32::MIN`.
pub open spec fn wrap_inc(v: i32) -> i32 {
    if v == i32::MAX {
        i32::MIN
    } else {
        (v + 1) as i32
    }
}

/// Distinct counter values have distinct successors: even across the wrap
/// from `i32::MAX` to `i32::MIN`, two different requests can never be led
/// to the same visitor number by one increment.
pub proof fn lemma_wrap_inc_injective(a: i32, b: i32)
    requires
        wrap_inc(a) == wrap_inc(b),
    ensures
        a == b,
{
}

/// The process-wide visit counter. It starts at zero and is only ever
/// changed through [`Counter::increment_and_read`], so within one process
/// its history is exactly the chain of `wrap_inc` successors of zero.
///
/// The field is private: no caller can reset, decrement, or write the
/// counter through any path other than the increment.
pub struct Counter {
    value: i32,
}

impl View for Counter {
    type V = i32;

    closed spec fn view(&self) -> i32 {
        self.value
    }
}

impl Counter {
    /// A fresh counter, as created once at process start.
    pub fn new() -> (c: Counter)
        ensures
            c@ == 0i32,
    {
        Counter { value: 0 }
    }

    /// Fetch-and-add: returns the value from before the increment and
    /// stores its wrapping successor. Each sequential call therefore hands
    /// out a value no later call can see again until the counter wraps.
    pub fn increment_and_read(&mut self) -> (prior: i32)
        ensures
            prior == old(self)@,
            final(self)@ == wrap_inc(old(self)@),
    {
        let prior = self.value;
        self.value = self.value.wrapping_add(1);
        prior
    }

    /// Read the current value without changing it.
    pub fn current(&self) -> (v: i32)
        ensures
            v == self@,
    {
        self.value
    }
}

} // verus!
