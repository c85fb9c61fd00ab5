//! Round-robin backend selection.
//!
//! A fixed, non-empty address list and a rotating counter: selection `i`
//! (counting from the counter's starting value) lands on address
//! `(start + i) mod len`, and the counter advances by exactly one per call,
//! so no two selections ever observe the same pre-increment value. The
//! rotation is blind: it carries no health awareness, and a backend that is
//! down is simply offered again on its next turn.

use vstd::arithmetic::div_mod::lemma_mod_add_multiples_vanish;
use vstd::arithmetic::div_mod::lemma_mod_sub_multiples_vanish;
use vstd::arithmetic::div_mod::lemma_small_mod;
use vstd::prelude::*;

verus! {

/// Maintains the immutable backend list and the rotating cursor.
pub struct BackendSelector {
    addrs: Vec<String>,
    next: usize,
}

impl BackendSelector {
    /// The fixed backend address list.
    pub closed spec fn backends(self) -> Seq<String> {
        self.addrs@
    }

    /// The value the rotating cursor holds before the next selection.
    pub closed spec fn counter(self) -> nat {
        self.next as nat
    }

    /// A selector is usable as long as its list is non-empty.
    pub closed spec fn wf(self) -> bool {
        self.addrs@.len() > 0
    }

    /// A selector over the given non-empty address list, starting its
    /// rotation at the first address.
    pub fn new(addrs: Vec<String>) -> (s: Self)
        requires
            addrs@.len() > 0,
        ensures
            s.wf(),
            s.counter() == 0,
            s.backends() == addrs@,
    {
        BackendSelector { addrs, next: 0 }
    }

    /// How many backends are configured.
    pub fn len(&self) -> (n: usize)
        ensures
            n == self.backends().len(),
    {
        self.addrs.len()
    }

    /// The current value of the rotating cursor: with no wrap, exactly how
    /// many selections have been made so far.
    pub fn cursor(&self) -> (c: usize)
        ensures
            c as nat == self.counter(),
    {
        self.next
    }

    /// Picks `backends()[counter() mod len]` and advances the counter by
    /// exactly one, wrapping only at the machine integer's limit. Every
    /// selection therefore observes a distinct pre-increment counter value.
    pub fn next_backend(&mut self) -> (a: String)
        requires
            old(self).wf(),
        ensures
            final(self).wf(),
            final(self).backends() == old(self).backends(),
            a == old(self).backends()[(old(self).counter() % old(self).backends().len()) as int],
            final(self).counter() == if old(self).counter() == usize::MAX as nat {
                0nat
            } else {
                old(self).counter() + 1
            },
    {
        let idx: usize = self.next % self.addrs.len();
        let a = self.addrs[idx].clone();
        self.next = if self.next == usize::MAX {
            0
        } else {
            self.next + 1
        };
        a
    }
}

/// How many of the first `m` selections, starting from counter value `c0`,
/// land on backend index `j` of a list of length `l`.
pub open spec fn rotation_count(c0: nat, m: nat, l: nat, j: nat) -> nat
    decreases m,
{
    if m == 0 {
        0
    } else {
        rotation_count(c0, (m - 1) as nat, l, j) + (if (c0 + m - 1) % (l as int) == j {
            1nat
        } else {
            0nat
        })
    }
}

/// Selections count block by block: the first `m1 + m2` selections land on
/// `j` as often as the first `m1` plus the `m2` that follow them.
pub proof fn lemma_rotation_count_split(c0: nat, m1: nat, m2: nat, l: nat, j: nat)
    ensures
        rotation_count(c0, m1 + m2, l, j) == rotation_count(c0, m1, l, j) + rotation_count(
            c0 + m1,
            m2,
            l,
            j,
        ),
    decreases m2,
{
    if m2 > 0 {
        lemma_rotation_count_split(c0, m1, (m2 - 1) as nat, l, j);
    }
}

/// Advancing the starting counter by one whole list length changes nothing.
proof fn lemma_rotation_count_period(c0: nat, m: nat, l: nat, j: nat)
    requires
        l >= 1,
    ensures
        rotation_count(c0 + l, m, l, j) == rotation_count(c0, m, l, j),
    decreases m,
{
    if m > 0 {
        lemma_rotation_count_period(c0, (m - 1) as nat, l, j);
        lemma_mod_add_multiples_vanish(c0 + m - 1, l as int);
    }
}

/// Only the starting counter's residue matters.
proof fn lemma_rotation_count_mod(c0: nat, m: nat, l: nat, j: nat)
    requires
        l >= 1,
    ensures
        rotation_count(c0, m, l, j) == rotation_count(((c0 as int) % (l as int)) as nat, m, l, j),
    decreases c0,
{
    if c0 < l {
        lemma_small_mod(c0, l);
    } else {
        lemma_mod_sub_multiples_vanish(c0 as int, l as int);
        lemma_rotation_count_period((c0 - l) as nat, m, l, j);
        lemma_rotation_count_mod((c0 - l) as nat, m, l, j);
    }
}

/// A window that stays below the list length hits exactly the indices it
/// walks over.
proof fn lemma_rotation_count_small(c0: nat, m: nat, l: nat, j: nat)
    requires
        c0 + m <= l,
    ensures
        rotation_count(c0, m, l, j) == if c0 <= j < c0 + m {
            1nat
        } else {
            0nat
        },
    decreases m,
{
    if m > 0 {
        lemma_rotation_count_small(c0, (m - 1) as nat, l, j);
        lemma_small_mod((c0 + m - 1) as nat, l);
    }
}

/// One full turn of the rotation visits every backend exactly once,
/// wherever the counter starts.
pub proof fn lemma_rotation_full_turn(c0: nat, l: nat, j: nat)
    requires
        l >= 1,
        j < l,
    ensures
        rotation_count(c0, l, l, j) == 1,
{
    let r: nat = ((c0 as int) % (l as int)) as nat;
    lemma_rotation_count_mod(c0, l, l, j);
    assert(r < l);
    lemma_rotation_count_split(r, (l - r) as nat, r, l, j);
    lemma_rotation_count_small(r, (l - r) as nat, l, j);
    lemma_rotation_count_period(0, r, l, j);
    lemma_rotation_count_small(0, r, l, j);
}

/// Round-robin fairness: any block of `k` whole turns, starting from any
/// counter value, lands on every backend exactly `k` times.
pub proof fn lemma_round_robin_fair(c0: nat, k: nat, l: nat, j: nat)
    requires
        l >= 1,
        j < l,
    ensures
        rotation_count(c0, k * l, l, j) == k,
    decreases k,
{
    if k == 0 {
        assert(k * l == 0);
    } else {
        assert((k - 1) * l + l == k * l) by (nonlinear_arith);
        lemma_round_robin_fair(c0, (k - 1) as nat, l, j);
        lemma_rotation_count_split(c0, ((k - 1) * l) as nat, l, l, j);
        lemma_rotation_full_turn((c0 + (k - 1) * l) as nat, l, j);
    }
}

} // verus!
