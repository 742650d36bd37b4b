//! The pattern tests: each one mutates both halves of the buffer alike and
//! then compares them.
use crate::ledger::{
    addressable, compare_halves, compared, differs_at, half_of, halves_equal, lemma_equal_halves_find_nothing,
    pass_mismatches,
};
use crate::platform::random_word;
use std::collections::HashMap;
use vstd::prelude::*;

verus! {

/// The word-wise operations of the random-operand tests.
#[derive(Clone, Copy, Debug, PartialEq, Eq, Structural)]
pub enum WordOp {
    Xor,
    Add,
    Sub,
    Mul,
    Div,
    Or,
    And,
}

/// What `op` with operand `d` makes of the word `w`. Addition and
/// multiplication saturate at `u64::MAX`, subtraction at zero; dividing by
/// zero gives `u64::MAX`.
pub open spec fn op_result(op: WordOp, w: u64, d: u64) -> u64 {
    match op {
        WordOp::Xor => w ^ d,
        WordOp::Add => if w + d > u64::MAX {
            u64::MAX
        } else {
            (w + d) as u64
        },
        WordOp::Sub => if w < d {
            0
        } else {
            (w - d) as u64
        },
        WordOp::Mul => if w * d > u64::MAX {
            u64::MAX
        } else {
            (w * d) as u64
        },
        WordOp::Div => if d == 0 {
            u64::MAX
        } else {
            w / d
        },
        WordOp::Or => w | d,
        WordOp::And => w & d,
    }
}

/// `words` with `op` and operand `d` applied to every word.
pub open spec fn applied(op: WordOp, words: Seq<u64>, d: u64) -> Seq<u64> {
    Seq::new(words.len(), |i: int| op_result(op, words[i], d))
}

/// A buffer of `len` words that all hold `pattern`.
pub open spec fn filled(len: nat, pattern: u64) -> Seq<u64> {
    Seq::new(len, |i: int| pattern)
}

/// Applies `op` with operand `d` to one word.
pub fn apply_op(op: WordOp, w: u64, d: u64) -> (r: u64)
    ensures
        r == op_result(op, w, d),
{
    match op {
        WordOp::Xor => w ^ d,
        WordOp::Add => w.saturating_add(d),
        WordOp::Sub => w.saturating_sub(d),
        WordOp::Mul => match w.checked_mul(d) {
            Some(p) => p,
            None => u64::MAX,
        },
        WordOp::Div => match w.checked_div(d) {
            Some(q) => q,
            None => u64::MAX,
        },
        WordOp::Or => w | d,
        WordOp::And => w & d,
    }
}

/// Applies `op` with operand `data` to every word of both halves.
pub fn apply_to_halves(words: &mut Vec<u64>, op: WordOp, data: u64)
    requires
        old(words)@.len() % 2 == 0,
    ensures
        final(words)@ == applied(op, old(words)@, data),
{
    let len = words.len();
    let half = len / 2;
    let mut i: usize = 0;
    while i < half
        invariant
            len == old(words)@.len(),
            half == len / 2,
            old(words)@.len() % 2 == 0,
            i <= half,
            words@.len() == old(words)@.len(),
            forall|j: int|
                (0 <= j < i || half <= j < half + i) ==> #[trigger] words@[j] == op_result(
                    op,
                    old(words)@[j],
                    data,
                ),
            forall|j: int|
                (i <= j < half || half + i <= j < 2 * half) ==> #[trigger] words@[j] == old(
                    words,
                )@[j],
        decreases half - i,
    {
        let low = apply_op(op, words[i], data);
        words.set(i, low);
        let high = apply_op(op, words[half + i], data);
        words.set(half + i, high);
        i = i + 1;
    }
    assert(words@ =~= applied(op, old(words)@, data));
}

/// Sets every word of both halves to `pattern`.
pub fn fill_halves(words: &mut Vec<u64>, pattern: u64)
    requires
        old(words)@.len() % 2 == 0,
    ensures
        final(words)@ == filled(old(words)@.len(), pattern),
{
    let len = words.len();
    let half = len / 2;
    let mut i: usize = 0;
    while i < half
        invariant
            len == old(words)@.len(),
            half == len / 2,
            old(words)@.len() % 2 == 0,
            i <= half,
            words@.len() == old(words)@.len(),
            forall|j: int| (0 <= j < i || half <= j < half + i) ==> #[trigger] words@[j] == pattern,
        decreases half - i,
    {
        words.set(i, pattern);
        words.set(half + i, pattern);
        i = i + 1;
    }
    assert(words@ =~= filled(old(words)@.len(), pattern));
}

/// Applying one operation to two identical halves keeps them identical.
pub proof fn lemma_applied_keeps_halves_equal(op: WordOp, words: Seq<u64>, d: u64)
    requires
        words.len() % 2 == 0,
        halves_equal(words),
    ensures
        halves_equal(applied(op, words, d)),
{
    let after = applied(op, words, d);
    assert forall|i: int| 0 <= i < half_of(after) implies !#[trigger] differs_at(after, i) by {
        assert(!differs_at(words, i));
    }
}

/// A buffer filled with one pattern has identical halves.
pub proof fn lemma_filled_halves_equal(len: nat, pattern: u64)
    ensures
        halves_equal(filled(len, pattern)),
{
}

/// Runs one random-operand test with the operand `data`: applies `op` with
/// `data` to both halves, then compares them.
pub fn run_operation(
    op: WordOp,
    words: &mut Vec<u64>,
    ledger: &mut HashMap<usize, u32>,
    base: usize,
    data: u64,
) -> (r: usize)
    requires
        old(words)@.len() % 2 == 0,
        addressable(old(words)@, base),
    ensures
        final(words)@ == applied(op, old(words)@, data),
        r == pass_mismatches(final(words)@),
        final(ledger)@ == compared(old(ledger)@, final(words)@, base),
{
    apply_to_halves(words, op, data);
    compare_halves(words, ledger, base)
}

/// Runs one random-operand test with a freshly drawn operand.
pub fn operation_test(
    op: WordOp,
    words: &mut Vec<u64>,
    ledger: &mut HashMap<usize, u32>,
    base: usize,
) -> (r: usize)
    requires
        old(words)@.len() % 2 == 0,
        addressable(old(words)@, base),
    ensures
        exists|d: u64| final(words)@ == #[trigger] applied(op, old(words)@, d),
        r == pass_mismatches(final(words)@),
        final(ledger)@ == compared(old(ledger)@, final(words)@, base),
{
    let data = random_word();
    run_operation(op, words, ledger, base, data)
}

/// Writes a fresh random word at index `i` of both halves, for every `i`,
/// then compares the halves.
pub fn random_data_test(words: &mut Vec<u64>, ledger: &mut HashMap<usize, u32>, base: usize) -> (r:
    usize)
    requires
        old(words)@.len() % 2 == 0,
        addressable(old(words)@, base),
    ensures
        final(words)@.len() == old(words)@.len(),
        halves_equal(final(words)@),
        r == 0,
        final(ledger)@ == old(ledger)@,
{
    let len = words.len();
    let half = len / 2;
    let mut i: usize = 0;
    while i < half
        invariant
            len == old(words)@.len(),
            half == len / 2,
            old(words)@.len() % 2 == 0,
            i <= half,
            words@.len() == old(words)@.len(),
            forall|j: int| 0 <= j < i ==> #[trigger] words@[j] == words@[half + j],
        decreases half - i,
    {
        let data = random_word();
        words.set(i, data);
        words.set(half + i, data);
        i = i + 1;
    }
    assert(halves_equal(words@)) by {
        assert forall|j: int| 0 <= j < half_of(words@) implies !#[trigger] differs_at(
            words@,
            j,
        ) by {}
    }
    proof {
        lemma_equal_halves_find_nothing(ledger@, words@, base);
    }
    compare_halves(words, ledger, base)
}

/// Number of sub-passes of a fill test.
pub const SUB_PASSES: u64 = 64;

/// Word written by the solid-bits test on its even sub-passes.
pub const ALL_ONES: u64 = 0xffff_ffff_ffff_ffff;

/// Word written by the checkerboard test on its even sub-passes.
pub const CHECKERBOARD: u64 = 0x5555_5555_5555_5555;

/// Word written in sub-pass `k` of a fill test that starts with `first`:
/// `first` on even sub-passes, its complement on odd ones.
pub open spec fn alternating_fill(first: u64, k: nat) -> u64 {
    if k % 2 == 0 {
        first
    } else {
        !first
    }
}

/// Number of sub-passes below `n` of the fill test starting with `first`
/// that write `pattern`.
pub open spec fn fills_with(first: u64, n: nat, pattern: u64) -> nat
    decreases n,
{
    if n == 0 {
        0
    } else {
        fills_with(first, (n - 1) as nat, pattern) + if alternating_fill(first, (n - 1) as nat)
            == pattern {
            1nat
        } else {
            0nat
        }
    }
}

proof fn lemma_fills_with_pairs(first: u64, m: nat)
    ensures
        fills_with(first, 2 * m, first) == m,
        fills_with(first, 2 * m, !first) == m,
    decreases m,
{
    assert(first != !first) by (bit_vector);
    if m > 0 {
        lemma_fills_with_pairs(first, (m - 1) as nat);
        assert((2 * m - 1) % 2 == 1);
        assert((2 * m - 2) % 2 == 0);
        assert(fills_with(first, (2 * m - 1) as nat, first) == fills_with(
            first,
            (2 * (m - 1)) as nat,
            first,
        ) + 1);
        assert(fills_with(first, (2 * m - 1) as nat, !first) == fills_with(
            first,
            (2 * (m - 1)) as nat,
            !first,
        ));
    }
}

/// Over the sixty-four sub-passes of the solid-bits test, all ones is written
/// in exactly thirty-two and its complement, all zeros, in the other thirty-two.
pub proof fn lemma_solid_bits_coverage()
    ensures
        !ALL_ONES == 0u64,
        fills_with(ALL_ONES, SUB_PASSES as nat, ALL_ONES) == 32,
        fills_with(ALL_ONES, SUB_PASSES as nat, 0) == 32,
{
    assert(!0xffff_ffff_ffff_ffffu64 == 0u64) by (bit_vector);
    lemma_fills_with_pairs(ALL_ONES, 32);
}

/// Over the sixty-four sub-passes of the checkerboard test, `0x5555...5` is
/// written in exactly thirty-two and `0xAAAA...A` in the other thirty-two.
pub proof fn lemma_checkerboard_coverage()
    ensures
        !CHECKERBOARD == 0xaaaa_aaaa_aaaa_aaaau64,
        fills_with(CHECKERBOARD, SUB_PASSES as nat, CHECKERBOARD) == 32,
        fills_with(CHECKERBOARD, SUB_PASSES as nat, 0xaaaa_aaaa_aaaa_aaaa) == 32,
{
    assert(!0x5555_5555_5555_5555u64 == 0xaaaa_aaaa_aaaa_aaaau64) by (bit_vector);
    lemma_fills_with_pairs(CHECKERBOARD, 32);
}

/// Runs the sixty-four sub-passes of a fill test: sub-pass `k` sets every
/// word to `alternating_fill(first, k)` and compares the halves. Returns the
/// total mismatch count over all sub-passes.
pub fn alternating_fill_test(
    words: &mut Vec<u64>,
    ledger: &mut HashMap<usize, u32>,
    base: usize,
    first: u64,
) -> (r: usize)
    requires
        old(words)@.len() % 2 == 0,
        addressable(old(words)@, base),
    ensures
        final(words)@ == filled(old(words)@.len(), alternating_fill(first, (SUB_PASSES - 1) as nat)),
        r == 0,
        final(ledger)@ == old(ledger)@,
{
    let mut error_count: usize = 0;
    let mut k: u64 = 0;
    while k < SUB_PASSES
        invariant
            k <= SUB_PASSES,
            words@.len() == old(words)@.len(),
            old(words)@.len() % 2 == 0,
            addressable(old(words)@, base),
            error_count == 0,
            ledger@ == old(ledger)@,
            k > 0 ==> words@ == filled(old(words)@.len(), alternating_fill(first, (k - 1) as nat)),
        decreases SUB_PASSES - k,
    {
        let pattern = if k % 2 == 0 {
            first
        } else {
            !first
        };
        fill_halves(words, pattern);
        proof {
            lemma_filled_halves_equal(words@.len(), pattern);
            lemma_equal_halves_find_nothing(ledger@, words@, base);
        }
        let count = compare_halves(words, ledger, base);
        error_count = error_count + count;
        k = k + 1;
    }
    error_count
}

/// The solid-bits test: sixty-four sub-passes alternating all ones and all
/// zeros, each followed by a comparison.
pub fn solid_bits_test(words: &mut Vec<u64>, ledger: &mut HashMap<usize, u32>, base: usize) -> (r:
    usize)
    requires
        old(words)@.len() % 2 == 0,
        addressable(old(words)@, base),
    ensures
        final(words)@ == filled(old(words)@.len(), alternating_fill(ALL_ONES, (SUB_PASSES - 1) as nat)),
        r == 0,
        final(ledger)@ == old(ledger)@,
{
    alternating_fill_test(words, ledger, base, ALL_ONES)
}

/// The checkerboard test: sixty-four sub-passes alternating `0x5555...5` and
/// `0xAAAA...A`, each followed by a comparison.
pub fn checkerboard_test(words: &mut Vec<u64>, ledger: &mut HashMap<usize, u32>, base: usize) -> (r:
    usize)
    requires
        old(words)@.len() % 2 == 0,
        addressable(old(words)@, base),
    ensures
        final(words)@ == filled(
            old(words)@.len(),
            alternating_fill(CHECKERBOARD, (SUB_PASSES - 1) as nat),
        ),
        r == 0,
        final(ledger)@ == old(ledger)@,
{
    alternating_fill_test(words, ledger, base, CHECKERBOARD)
}

/// Addition saturates: it never yields less than the word it started from,
/// and a word at `u64::MAX` stays there whatever the addend.
pub proof fn lemma_add_saturates(w: u64, d: u64)
    ensures
        op_result(WordOp::Add, w, d) >= w,
        op_result(WordOp::Add, w, d) >= d,
        w == u64::MAX ==> op_result(WordOp::Add, w, d) == u64::MAX,
        op_result(WordOp::Add, w, d) == if w + d > u64::MAX {
            u64::MAX as int
        } else {
            w + d
        },
{
}

/// Subtraction saturates: it never yields more than the word it started from,
/// and a subtrahend above the word gives zero.
pub proof fn lemma_sub_saturates(w: u64, d: u64)
    ensures
        op_result(WordOp::Sub, w, d) <= w,
        d > w ==> op_result(WordOp::Sub, w, d) == 0,
        op_result(WordOp::Sub, w, d) == if w < d {
            0
        } else {
            w - d
        },
{
}

} // verus!
