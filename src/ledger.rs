//! The comparator and the per-address error ledger.
//!
//! A buffer of words is split at its midpoint; word `i` of the first half is
//! expected to equal word `i` of the second half. Every disagreement is
//! recorded in the ledger under the logical address of the first-half word.
use std::collections::HashMap;
use vstd::prelude::*;

verus! {

broadcast use vstd::std_specs::hash::group_hash_axioms;

/// Index where the second half of `words` starts.
pub open spec fn half_of(words: Seq<u64>) -> int {
    words.len() as int / 2
}

/// Logical address of word `i` of a buffer whose first word is at `base`.
pub open spec fn word_address(base: usize, i: int) -> int {
    base + 8 * i
}

/// The halves of `words` differ at index `i` (counted within a half).
pub open spec fn differs_at(words: Seq<u64>, i: int) -> bool {
    words[i] != words[half_of(words) + i]
}

/// Both halves of `words` are identical.
pub open spec fn halves_equal(words: Seq<u64>) -> bool {
    forall|i: int| 0 <= i < half_of(words) ==> !#[trigger] differs_at(words, i)
}

/// The count stored for `addr` after one more mismatch there
/// (a fresh entry starts at 1; counts saturate at `u32::MAX`).
pub open spec fn bumped_count(ledger: Map<usize, u32>, addr: usize) -> u32 {
    if !ledger.contains_key(addr) {
        1
    } else if ledger[addr] == u32::MAX {
        u32::MAX
    } else {
        (ledger[addr] + 1) as u32
    }
}

/// The ledger after recording one mismatch at `addr`.
pub open spec fn record(ledger: Map<usize, u32>, addr: usize) -> Map<usize, u32> {
    ledger.insert(addr, bumped_count(ledger, addr))
}

/// Number of indices below `n` at which the halves of `words` differ.
pub open spec fn mismatches(words: Seq<u64>, n: nat) -> nat
    decreases n,
{
    if n == 0 {
        0
    } else {
        mismatches(words, (n - 1) as nat) + if differs_at(words, n - 1) {
            1nat
        } else {
            0nat
        }
    }
}

/// The ledger after comparing the halves of `words` at the indices below `n`.
pub open spec fn ledger_after(
    ledger: Map<usize, u32>,
    words: Seq<u64>,
    base: usize,
    n: nat,
) -> Map<usize, u32>
    decreases n,
{
    if n == 0 {
        ledger
    } else {
        let prev = ledger_after(ledger, words, base, (n - 1) as nat);
        if differs_at(words, n - 1) {
            record(prev, word_address(base, n - 1) as usize)
        } else {
            prev
        }
    }
}

/// The ledger after one full comparison pass over `words`.
pub open spec fn compared(ledger: Map<usize, u32>, words: Seq<u64>, base: usize) -> Map<
    usize,
    u32,
> {
    ledger_after(ledger, words, base, half_of(words) as nat)
}

/// Mismatch count of one full comparison pass over `words`.
pub open spec fn pass_mismatches(words: Seq<u64>) -> nat {
    mismatches(words, half_of(words) as nat)
}

/// Every word of `words` has an address that fits in `usize`.
pub open spec fn addressable(words: Seq<u64>, base: usize) -> bool {
    word_address(base, words.len() as int) <= usize::MAX
}

/// Compares the first half of `words` with the second half, word by word.
/// Each index `i` where they differ adds one to the ledger entry of address
/// `base + 8 * i`. Returns the number of differing indices.
pub fn compare_halves(words: &Vec<u64>, ledger: &mut HashMap<usize, u32>, base: usize) -> (r:
    usize)
    requires
        addressable(words@, base),
    ensures
        r == pass_mismatches(words@),
        final(ledger)@ == compared(old(ledger)@, words@, base),
{
    let half = words.len() / 2;
    let mut count: usize = 0;
    let mut i: usize = 0;
    while i < half
        invariant
            half == half_of(words@),
            addressable(words@, base),
            i <= half,
            count == mismatches(words@, i as nat),
            count <= i,
            ledger@ == ledger_after(old(ledger)@, words@, base, i as nat),
        decreases half - i,
    {
        if words[i] != words[half + i] {
            let address = base + 8 * i;
            let next = match ledger.get(&address) {
                Some(c) => c.saturating_add(1),
                None => 1,
            };
            ledger.insert(address, next);
            count = count + 1;
        }
        i = i + 1;
    }
    count
}

/// Comparing identical halves finds nothing and leaves the ledger as it was.
pub proof fn lemma_equal_halves_find_nothing(ledger: Map<usize, u32>, words: Seq<u64>, base: usize)
    requires
        halves_equal(words),
    ensures
        pass_mismatches(words) == 0,
        compared(ledger, words, base) == ledger,
{
    let half = half_of(words);
    assert forall|n: nat| n <= half implies mismatches(words, n) == 0 && ledger_after(
        ledger,
        words,
        base,
        n,
    ) == ledger by {
        lemma_prefix_without_mismatch(ledger, words, base, n);
    }
}

proof fn lemma_prefix_without_mismatch(
    ledger: Map<usize, u32>,
    words: Seq<u64>,
    base: usize,
    n: nat,
)
    requires
        halves_equal(words),
        n <= half_of(words),
    ensures
        mismatches(words, n) == 0,
        ledger_after(ledger, words, base, n) == ledger,
    decreases n,
{
    if n > 0 {
        lemma_prefix_without_mismatch(ledger, words, base, (n - 1) as nat);
        assert(!differs_at(words, n - 1));
    }
}

/// When the halves differ at exactly one index `i`, a comparison pass reports
/// one mismatch and records exactly one more occurrence at `base + 8 * i`.
pub proof fn lemma_single_mismatch(ledger: Map<usize, u32>, words: Seq<u64>, base: usize, i: int)
    requires
        0 <= i < half_of(words),
        differs_at(words, i),
        forall|j: int| 0 <= j < half_of(words) && j != i ==> !#[trigger] differs_at(words, j),
    ensures
        pass_mismatches(words) == 1,
        compared(ledger, words, base) == record(ledger, word_address(base, i) as usize),
{
    lemma_single_mismatch_prefix(ledger, words, base, i, half_of(words) as nat);
}

proof fn lemma_single_mismatch_prefix(
    ledger: Map<usize, u32>,
    words: Seq<u64>,
    base: usize,
    i: int,
    n: nat,
)
    requires
        0 <= i < half_of(words),
        n <= half_of(words),
        differs_at(words, i),
        forall|j: int| 0 <= j < half_of(words) && j != i ==> !#[trigger] differs_at(words, j),
    ensures
        mismatches(words, n) == if i < n {
            1nat
        } else {
            0nat
        },
        ledger_after(ledger, words, base, n) == if i < n {
            record(ledger, word_address(base, i) as usize)
        } else {
            ledger
        },
    decreases n,
{
    if n > 0 {
        lemma_single_mismatch_prefix(ledger, words, base, i, (n - 1) as nat);
    }
}

/// On a fresh ledger, a single mismatch at index `i` leaves exactly one
/// entry: address `base + 8 * i` with count 1.
pub proof fn lemma_single_mismatch_fresh_ledger(words: Seq<u64>, base: usize, i: int)
    requires
        0 <= i < half_of(words),
        differs_at(words, i),
        forall|j: int| 0 <= j < half_of(words) && j != i ==> !#[trigger] differs_at(words, j),
    ensures
        pass_mismatches(words) == 1,
        compared(Map::empty(), words, base) == map![word_address(base, i) as usize => 1u32],
{
    lemma_single_mismatch(Map::empty(), words, base, i);
    assert(compared(Map::empty(), words, base) =~= map![word_address(base, i) as usize => 1u32]);
}

/// Two passes that each mismatch only at the same index `i` accumulate:
/// starting from a fresh ledger, the entry of `base + 8 * i` ends at 2.
pub proof fn lemma_ledger_accumulates(first: Seq<u64>, second: Seq<u64>, base: usize, i: int)
    requires
        0 <= i < half_of(first),
        0 <= i < half_of(second),
        differs_at(first, i),
        differs_at(second, i),
        forall|j: int| 0 <= j < half_of(first) && j != i ==> !#[trigger] differs_at(first, j),
        forall|j: int| 0 <= j < half_of(second) && j != i ==> !#[trigger] differs_at(second, j),
    ensures
        compared(compared(Map::empty(), first, base), second, base) == map![word_address(base, i) as usize => 2u32],
{
    let a = word_address(base, i) as usize;
    lemma_single_mismatch(Map::empty(), first, base, i);
    let once = compared(Map::empty(), first, base);
    lemma_single_mismatch(once, second, base, i);
    assert(once =~= map![a => 1u32]);
    assert(compared(once, second, base) =~= map![a => 2u32]);
}

} // verus!
