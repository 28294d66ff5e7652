//! The sequence generator: a 64-bit counter handing out request and message
//! identifiers. It starts at `1` and, at the maximum value, wraps back to `0`
//! rather than failing: the call observing the counter at `u64::MAX` returns
//! it and resets the counter to `0`.

use vstd::arithmetic::div_mod::{lemma_fundamental_div_mod, lemma_fundamental_div_mod_converse};
use vstd::prelude::*;

verus! {

/// The counter value that follows `c`: one more, except that the maximum
/// wraps to zero.
pub open spec fn next_count(c: u64) -> u64 {
    if c == u64::MAX {
        0
    } else {
        (c + 1) as u64
    }
}

pub struct IdGenerator {
    pub count: u64,
}

impl IdGenerator {
    pub fn new() -> (r: IdGenerator)
        ensures
            r.count == 1,
    {
        IdGenerator { count: 1 }
    }

    /// Hand out the current counter value and advance it, wrapping at the
    /// maximum.
    pub fn generate(&mut self) -> (id: u64)
        ensures
            id == old(self).count,
            final(self).count == next_count(old(self).count),
    {
        let id = self.count;
        if id == u64::MAX {
            self.count = 0;
        } else {
            self.count = self.count + 1;
        }
        id
    }
}

/// The value a fresh generator returns on its `n`-th call, counting from
/// zero: the counter starts at `1` and advances by `next_count` each call.
pub open spec fn generated_id(n: nat) -> u64
    decreases n,
{
    if n == 0 {
        1
    } else {
        next_count(generated_id((n - 1) as nat))
    }
}

/// The `n`-th identifier is `(n + 1)` reduced modulo `2^64`.
pub proof fn lemma_generated_id_value(n: nat)
    ensures
        generated_id(n) == (n + 1) % 0x1_0000_0000_0000_0000,
    decreases n,
{
    let m = 0x1_0000_0000_0000_0000 as int;
    if n == 0 {
        lemma_fundamental_div_mod_converse(1, m, 0, 1);
    } else {
        lemma_generated_id_value((n - 1) as nat);
        lemma_fundamental_div_mod(n as int, m);
        let q = n as int / m;
        let r = n as int % m;
        if r == m - 1 {
            lemma_fundamental_div_mod_converse(n as int + 1, m, q + 1, 0);
        } else {
            lemma_fundamental_div_mod_converse(n as int + 1, m, q, r + 1);
        }
    }
}

/// Law: calling the generator `u64::MAX + 2` times from a fresh state yields
/// the values `1, 2, ..., u64::MAX, 0, 1`: the call after the one returning
/// the maximum returns `0`, and the one after that returns `1`.
pub proof fn lemma_wraparound_sequence()
    ensures
        generated_id((u64::MAX - 1) as nat) == u64::MAX,
        generated_id(u64::MAX as nat) == 0,
        generated_id((u64::MAX + 1) as nat) == 1,
{
    lemma_generated_id_value((u64::MAX - 1) as nat);
    lemma_generated_id_value(u64::MAX as nat);
    lemma_generated_id_value((u64::MAX + 1) as nat);
    let m = 0x1_0000_0000_0000_0000 as int;
    lemma_fundamental_div_mod_converse(u64::MAX as int, m, 0, u64::MAX as int);
    lemma_fundamental_div_mod_converse(u64::MAX as int + 1, m, 1, 0);
    lemma_fundamental_div_mod_converse(u64::MAX as int + 2, m, 1, 1);
}

} // verus!
