use vstd::prelude::*;

verus! {

/// Failures of a counting operation.
#[derive(Debug, Clone, Copy, PartialEq, Eq, Structural)]
pub enum CounterError {
    /// A previous holder of the counter's lock failed while holding it.
    LockPoisoned,
    /// The counter already holds the largest value its type can represent.
    Overflow,
}

/// A monotonically increasing count, owned by whoever holds it.
#[derive(Debug)]
pub struct SharedCounter {
    value: u64,
}

impl View for SharedCounter {
    type V = nat;

    closed spec fn view(&self) -> nat {
        self.value as nat
    }
}

impl SharedCounter {
    /// A counter that starts at zero.
    pub fn new() -> (r: SharedCounter)
        ensures
            r@ == 0,
    {
        SharedCounter { value: 0 }
    }

    /// The current count.
    pub fn value(&self) -> (r: u64)
        ensures
            r as nat == self@,
    {
        self.value
    }

    /// Adds one to the count and returns the new count.
    ///
    /// At the largest representable count nothing changes and
    /// `CounterError::Overflow` is returned.
    pub fn increment_and_get(&mut self) -> (r: Result<u64, CounterError>)
        ensures
            final(self)@ == after_increment(old(self)@),
            r == increment_result(old(self)@),
    {
        if self.value == u64::MAX {
            Err(CounterError::Overflow)
        } else {
            self.value = self.value + 1;
            Ok(self.value)
        }
    }
}

/// The count after one increment of a counter holding `v`.
pub open spec fn after_increment(v: nat) -> nat {
    if v < u64::MAX {
        v + 1
    } else {
        v
    }
}

/// What one increment of a counter holding `v` returns.
pub open spec fn increment_result(v: nat) -> Result<u64, CounterError> {
    if v < u64::MAX {
        Ok((v + 1) as u64)
    } else {
        Err(CounterError::Overflow)
    }
}

/// The count after `k` successive increments of a counter holding `start`.
pub open spec fn count_after(start: nat, k: nat) -> nat
    decreases k,
{
    if k == 0 {
        start
    } else {
        after_increment(count_after(start, (k - 1) as nat))
    }
}

/// What `k` successive increments of a counter holding `start` return, in order.
pub open spec fn results_of(start: nat, k: nat) -> Seq<Result<u64, CounterError>>
    decreases k,
{
    if k == 0 {
        Seq::empty()
    } else {
        results_of(start, (k - 1) as nat).push(
            increment_result(count_after(start, (k - 1) as nat)),
        )
    }
}

proof fn lemma_count_after_small(start: nat, k: nat)
    requires
        start + k <= u64::MAX,
    ensures
        count_after(start, k) == start + k,
    decreases k,
{
    if k > 0 {
        lemma_count_after_small(start, (k - 1) as nat);
    }
}

/// Increments made one after another on a fresh counter return
/// 1, 2, ..., n in that order, and leave the count at n.
pub proof fn lemma_sequential_counts(n: nat)
    requires
        n <= u64::MAX,
    ensures
        results_of(0, n).len() == n,
        forall|i: int| 0 <= i < n ==> results_of(0, n)[i] == Ok::<u64, CounterError>((i + 1) as u64),
        count_after(0, n) == n,
    decreases n,
{
    lemma_count_after_small(0, n);
    if n > 0 {
        lemma_sequential_counts((n - 1) as nat);
        lemma_count_after_small(0, (n - 1) as nat);
    }
}

/// However n increments of a fresh counter are ordered among their callers,
/// the values handed out are exactly 1, ..., n, each once, and the count
/// that remains is n.
pub proof fn lemma_gapless_counts(n: nat)
    requires
        n <= u64::MAX,
    ensures
        results_of(0, n).no_duplicates(),
        results_of(0, n).to_set() == Set::new(
            |r: Result<u64, CounterError>| exists|v: u64| 1 <= v <= n && r == Ok::<u64, CounterError>(v),
        ),
        count_after(0, n) == n,
{
    lemma_sequential_counts(n);
    let rs = results_of(0, n);
    assert forall|i: int, j: int| 0 <= i < rs.len() && 0 <= j < rs.len() && i != j implies rs[i] != rs[j] by {
        assert(rs[i] == Ok::<u64, CounterError>((i + 1) as u64));
        assert(rs[j] == Ok::<u64, CounterError>((j + 1) as u64));
    }
    let target = Set::new(
        |r: Result<u64, CounterError>| exists|v: u64| 1 <= v <= n && r == Ok::<u64, CounterError>(v),
    );
    assert forall|r: Result<u64, CounterError>| rs.to_set().contains(r) <==> target.contains(r) by {
        if rs.to_set().contains(r) {
            let i = choose|i: int| 0 <= i < rs.len() && rs[i] == r;
            assert(rs[i] == Ok::<u64, CounterError>((i + 1) as u64));
        }
        if target.contains(r) {
            let v = choose|v: u64| 1 <= v <= n && r == Ok::<u64, CounterError>(v);
            let i = v as int - 1;
            assert(rs[i] == r);
            assert(rs.contains(r));
        }
    }
    assert(rs.to_set() =~= target);
}

/// How many entries of `picks` equal `which`.
pub open spec fn picks_of(picks: Seq<bool>, which: bool) -> nat
    decreases picks.len(),
{
    if picks.len() == 0 {
        0
    } else {
        picks_of(picks.drop_last(), which) + if picks.last() == which {
            1nat
        } else {
            0nat
        }
    }
}

/// The counts of two counters that start at `a` and `b` after a run of
/// increments in which `picks[i]` says whether the `i`-th went to the first
/// counter (`true`) or to the second (`false`).
pub open spec fn interleaved(a: nat, b: nat, picks: Seq<bool>) -> (nat, nat)
    decreases picks.len(),
{
    if picks.len() == 0 {
        (a, b)
    } else {
        let (x, y) = interleaved(a, b, picks.drop_last());
        if picks.last() {
            (after_increment(x), y)
        } else {
            (x, after_increment(y))
        }
    }
}

/// Two counters never observe each other's increments: however increments
/// of the two are interleaved, each ends where its own increments alone
/// would have taken it.
pub proof fn lemma_isolated_counters(a: nat, b: nat, picks: Seq<bool>)
    ensures
        interleaved(a, b, picks) == (count_after(a, picks_of(picks, true)), count_after(
            b,
            picks_of(picks, false),
        )),
    decreases picks.len(),
{
    if picks.len() > 0 {
        lemma_isolated_counters(a, b, picks.drop_last());
    }
}

} // verus!
