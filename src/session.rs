//! A test session: one buffer, one error ledger, and the fixed catalog of
//! pattern tests run over them one at a time.
use crate::ledger::{
    addressable, compared, halves_equal, lemma_equal_halves_find_nothing, pass_mismatches,
};
use crate::patterns::{
    alternating_fill, applied, checkerboard_test, filled, lemma_applied_keeps_halves_equal,
    lemma_filled_halves_equal, operation_test, random_data_test, solid_bits_test, WordOp,
    ALL_ONES, CHECKERBOARD, SUB_PASSES,
};
use std::collections::HashMap;
use vstd::prelude::*;

verus! {

broadcast use vstd::std_specs::hash::group_hash_axioms;

/// Number of tests in the catalog.
pub const TEST_COUNT: usize = 10;

/// Why a session could not be set up.
#[derive(Clone, Copy, Debug, PartialEq, Eq, Structural)]
pub enum SetupError {
    /// The process may not pin memory.
    InsufficientPrivilege,
    /// The byte count is not a multiple of 16.
    InvalidSize,
}

impl SetupError {
    /// A sentence describing the error.
    pub fn message(&self) -> (r: String)
        ensures
            *self == SetupError::InsufficientPrivilege ==> r@ == "You must be root to run this test."@,
            *self == SetupError::InvalidSize ==> r@ == "Allocation amount must be a multiple of 16."@,
    {
        match self {
            SetupError::InsufficientPrivilege => {
                "You must be root to run this test.".to_owned()
            },
            SetupError::InvalidSize => {
                "Allocation amount must be a multiple of 16.".to_owned()
            },
        }
    }
}

/// Name of catalog entry `i`.
pub open spec fn test_name(i: int) -> Seq<char> {
    if i == 0 {
        "Random Data"@
    } else if i == 1 {
        "XOR"@
    } else if i == 2 {
        "ADD"@
    } else if i == 3 {
        "SUB"@
    } else if i == 4 {
        "MUL"@
    } else if i == 5 {
        "DIV"@
    } else if i == 6 {
        "OR"@
    } else if i == 7 {
        "AND"@
    } else if i == 8 {
        "Solid Bits"@
    } else {
        "Checkerboard"@
    }
}

/// Operation of the random-operand entries 1 to 7 of the catalog.
pub open spec fn entry_op(i: int) -> WordOp {
    if i == 1 {
        WordOp::Xor
    } else if i == 2 {
        WordOp::Add
    } else if i == 3 {
        WordOp::Sub
    } else if i == 4 {
        WordOp::Mul
    } else if i == 5 {
        WordOp::Div
    } else if i == 6 {
        WordOp::Or
    } else {
        WordOp::And
    }
}

/// Running catalog entry `i` on words `w0` and ledger `l0` may leave words
/// `w1` and ledger `l1` and report `count` mismatches.
pub open spec fn runs_entry(
    i: int,
    w0: Seq<u64>,
    l0: Map<usize, u32>,
    base: usize,
    w1: Seq<u64>,
    l1: Map<usize, u32>,
    count: nat,
) -> bool {
    if i == 0 {
        &&& w1.len() == w0.len()
        &&& halves_equal(w1)
        &&& count == 0
        &&& l1 == l0
    } else if 1 <= i <= 7 {
        &&& exists|d: u64| w1 == #[trigger] applied(entry_op(i), w0, d)
        &&& count == pass_mismatches(w1)
        &&& l1 == compared(l0, w1, base)
    } else {
        let first = if i == 8 {
            ALL_ONES
        } else {
            CHECKERBOARD
        };
        &&& w1 == filled(w0.len(), alternating_fill(first, (SUB_PASSES - 1) as nat))
        &&& count == 0
        &&& l1 == l0
    }
}

/// Name of catalog entry `i`.
pub fn entry_name(i: usize) -> (r: &'static str)
    requires
        i < TEST_COUNT,
    ensures
        r@ == test_name(i as int),
{
    match i {
        0 => "Random Data",
        1 => "XOR",
        2 => "ADD",
        3 => "SUB",
        4 => "MUL",
        5 => "DIV",
        6 => "OR",
        7 => "AND",
        8 => "Solid Bits",
        _ => "Checkerboard",
    }
}

/// Runs catalog entry `i` on `words` and `ledger`; returns its mismatch count.
pub fn run_entry(i: usize, words: &mut Vec<u64>, ledger: &mut HashMap<usize, u32>, base: usize) -> (r:
    usize)
    requires
        i < TEST_COUNT,
        old(words)@.len() % 2 == 0,
        addressable(old(words)@, base),
    ensures
        final(words)@.len() == old(words)@.len(),
        runs_entry(i as int, old(words)@, old(ledger)@, base, final(words)@, final(ledger)@, r as nat),
{
    match i {
        0 => random_data_test(words, ledger, base),
        1 => operation_test(WordOp::Xor, words, ledger, base),
        2 => operation_test(WordOp::Add, words, ledger, base),
        3 => operation_test(WordOp::Sub, words, ledger, base),
        4 => operation_test(WordOp::Mul, words, ledger, base),
        5 => operation_test(WordOp::Div, words, ledger, base),
        6 => operation_test(WordOp::Or, words, ledger, base),
        7 => operation_test(WordOp::And, words, ledger, base),
        8 => solid_bits_test(words, ledger, base),
        _ => checkerboard_test(words, ledger, base),
    }
}

/// On memory that behaves (both halves identical to begin with), every test
/// of the catalog reports zero mismatches, leaves the ledger as it was and
/// leaves both halves identical.
pub proof fn lemma_healthy_memory_reports_nothing(
    i: int,
    w0: Seq<u64>,
    l0: Map<usize, u32>,
    base: usize,
    w1: Seq<u64>,
    l1: Map<usize, u32>,
    count: nat,
)
    requires
        0 <= i < TEST_COUNT,
        w0.len() % 2 == 0,
        halves_equal(w0),
        runs_entry(i, w0, l0, base, w1, l1, count),
    ensures
        count == 0,
        l1 == l0,
        halves_equal(w1),
{
    if 1 <= i <= 7 {
        let d = choose|d: u64| w1 == #[trigger] applied(entry_op(i), w0, d);
        lemma_applied_keeps_halves_equal(entry_op(i), w0, d);
        lemma_equal_halves_find_nothing(l0, w1, base);
    } else if i >= 8 {
        let first = if i == 8 {
            ALL_ONES
        } else {
            CHECKERBOARD
        };
        lemma_filled_halves_equal(w0.len(), alternating_fill(first, (SUB_PASSES - 1) as nat));
    }
}

/// A buffer of 64-bit words under test, with the ledger of the mismatches
/// found in it. Word `i` has the logical address `base + 8 * i`; the base is
/// 0 until the caller records where the buffer was pinned.
pub struct MemoryTests {
    info_prints: bool,
    hog: Vec<u64>,
    errors: HashMap<usize, u32>,
    base: usize,
    reported: u64,
}

impl MemoryTests {
    /// The words of the buffer.
    pub closed spec fn words(&self) -> Seq<u64> {
        self.hog@
    }

    /// The ledger: address to number of mismatches seen there.
    pub closed spec fn ledger(&self) -> Map<usize, u32> {
        self.errors@
    }

    /// Logical address of the first word.
    pub closed spec fn base_address(&self) -> usize {
        self.base
    }

    /// Sum of the mismatch counts that the tests have reported (saturating).
    pub closed spec fn reported(&self) -> nat {
        self.reported as nat
    }

    /// Whether progress is printed.
    pub closed spec fn verbose(&self) -> bool {
        self.info_prints
    }

    /// The buffer splits into two halves and every word has an address.
    pub open spec fn wf(&self) -> bool {
        &&& self.words().len() % 2 == 0
        &&& addressable(self.words(), self.base_address())
    }

    /// Sets up a session of `allocation_amount` bytes on behalf of a process
    /// that may (`privileged`) or may not pin memory. The buffer starts
    /// zeroed, the ledger empty and the base address at 0.
    pub fn create(allocation_amount: usize, print_information: bool, privileged: bool) -> (r:
        Result<MemoryTests, SetupError>)
        ensures
            !privileged ==> r == Err::<MemoryTests, SetupError>(SetupError::InsufficientPrivilege),
            privileged && allocation_amount % 16 != 0 ==> r == Err::<MemoryTests, SetupError>(
                SetupError::InvalidSize,
            ),
            privileged && allocation_amount % 16 == 0 ==> (r matches Ok(t) && {
                &&& t.wf()
                &&& t.words() == filled((allocation_amount / 8) as nat, 0)
                &&& t.ledger() == Map::<usize, u32>::empty()
                &&& t.base_address() == 0
                &&& t.reported() == 0
                &&& t.verbose() == print_information
            }),
    {
        if !privileged {
            return Err(SetupError::InsufficientPrivilege);
        }
        if allocation_amount % 16 != 0 {
            return Err(SetupError::InvalidSize);
        }
        let hog_length = allocation_amount / 8;
        let hog = vec![0u64; hog_length];
        assert(hog@ =~= filled(hog_length as nat, 0));
        Ok(MemoryTests {
            info_prints: print_information,
            hog,
            errors: HashMap::new(),
            base: 0,
            reported: 0,
        })
    }

    /// Sets up a session of `allocation_amount` bytes, asking the host
    /// whether this process runs as the superuser.
    pub fn new(allocation_amount: usize, print_information: bool) -> (r: Result<
        MemoryTests,
        SetupError,
    >)
        ensures
            allocation_amount % 16 != 0 ==> r is Err,
            r == Err::<MemoryTests, SetupError>(SetupError::InvalidSize) ==> allocation_amount % 16
                != 0,
            r matches Ok(t) ==> {
                &&& allocation_amount % 16 == 0
                &&& t.wf()
                &&& t.words() == filled((allocation_amount / 8) as nat, 0)
                &&& t.ledger() == Map::<usize, u32>::empty()
                &&& t.base_address() == 0
                &&& t.reported() == 0
                &&& t.verbose() == print_information
            },
    {
        let privileged = crate::platform::running_as_root();
        MemoryTests::create(allocation_amount, print_information, privileged)
    }

    /// The words of the buffer, for the caller that pins them.
    pub fn buffer(&self) -> (r: &Vec<u64>)
        ensures
            r@ == self.words(),
    {
        &self.hog
    }

    /// Records the address at which the buffer was pinned; mismatches found
    /// from now on are reported relative to it.
    pub fn set_base_address(&mut self, base_address: usize)
        requires
            addressable(old(self).words(), base_address),
        ensures
            final(self).base_address() == base_address,
            final(self).words() == old(self).words(),
            final(self).ledger() == old(self).ledger(),
            final(self).reported() == old(self).reported(),
            final(self).verbose() == old(self).verbose(),
    {
        self.base = base_address;
    }

    /// Whether progress is printed.
    pub fn is_verbose(&self) -> (r: bool)
        ensures
            r == self.verbose(),
    {
        self.info_prints
    }

    /// Returns an iterator that runs the catalog of tests, in order.
    pub fn get_iterator(&mut self) -> (r: MemoryTestIterator<'_>)
        requires
            old(self).wf(),
        ensures
            r.position() == 0,
            r.session() == *old(self),
            r.wf(),
    {
        MemoryTestIterator { tests: self, idx: 0 }
    }

    /// The ledger of mismatches found while testing.
    pub fn get_errors(&self) -> (r: &HashMap<usize, u32>)
        ensures
            r@ == self.ledger(),
    {
        &self.errors
    }

    /// Total number of mismatches found while testing, that is the sum of
    /// the counts that the tests reported (saturating at `u32::MAX`). Each
    /// mismatch also adds one to one ledger entry.
    pub fn get_error_count(&self) -> (r: u32)
        ensures
            r == if self.reported() > u32::MAX {
                u32::MAX as nat
            } else {
                self.reported()
            },
    {
        if self.reported > u32::MAX as u64 {
            u32::MAX
        } else {
            self.reported as u32
        }
    }

    /// Size of the buffer in bytes.
    pub fn get_allocated_size(&self) -> (r: usize)
        requires
            self.wf(),
        ensures
            r == 8 * self.words().len(),
    {
        self.hog.len() * 8
    }
}

/// Runs the catalog of tests over a session, one test per advance.
pub struct MemoryTestIterator<'a> {
    tests: &'a mut MemoryTests,
    idx: usize,
}

impl<'a> MemoryTestIterator<'a> {
    /// Number of tests run so far.
    pub closed spec fn position(&self) -> nat {
        self.idx as nat
    }

    /// The session the tests run on.
    pub closed spec fn session(&self) -> MemoryTests {
        *self.tests
    }

    /// At most the whole catalog has run, over a well-formed session.
    pub open spec fn wf(&self) -> bool {
        &&& self.position() <= TEST_COUNT
        &&& self.session().wf()
    }

    /// Runs the next test of the catalog and returns its name and mismatch
    /// count; once all ten have run, returns `None`.
    pub fn next(&mut self) -> (r: Option<(String, usize)>)
        requires
            old(self).wf(),
        ensures
            final(self).wf(),
            old(self).position() >= TEST_COUNT ==> r is None && final(self).position()
                == old(self).position() && final(self).session() == old(self).session(),
            old(self).position() < TEST_COUNT ==> (r matches Some((name, count)) && {
                let (before, after) = (old(self).session(), final(self).session());
                &&& final(self).position() == old(self).position() + 1
                &&& name@ == test_name(old(self).position() as int)
                &&& runs_entry(
                    old(self).position() as int,
                    before.words(),
                    before.ledger(),
                    before.base_address(),
                    after.words(),
                    after.ledger(),
                    count as nat,
                )
                &&& after.reported() == if before.reported() + count > u64::MAX {
                    u64::MAX as nat
                } else {
                    (before.reported() + count) as nat
                }
                &&& after.base_address() == before.base_address()
                &&& after.verbose() == before.verbose()
            }),
    {
        if self.idx >= TEST_COUNT {
            return None;
        }
        let name = entry_name(self.idx);
        let base = self.tests.base;
        let count = run_entry(self.idx, &mut self.tests.hog, &mut self.tests.errors, base);
        self.tests.reported = self.tests.reported.saturating_add(count as u64);
        self.idx = self.idx + 1;
        Some((name.to_owned(), count))
    }

    /// Name of the test that the next advance will run, if any remains.
    pub fn next_test_name(&self) -> (r: Option<&str>)
        ensures
            self.position() < TEST_COUNT ==> (r matches Some(name) && name@ == test_name(
                self.position() as int,
            )),
            self.position() >= TEST_COUNT ==> r is None,
    {
        if self.idx >= TEST_COUNT {
            return None;
        }
        Some(entry_name(self.idx))
    }
}

} // verus!
