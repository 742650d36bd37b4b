use memtester::ledger::compare_halves;
use memtester::patterns::{
    alternating_fill_test, apply_to_halves, checkerboard_test, fill_halves, random_data_test,
    run_operation, solid_bits_test,
};
use memtester::session::{entry_name, run_entry, TEST_COUNT};
use memtester::{apply_op, MemoryTests, SetupError, WordOp};
use std::collections::HashMap;

fn session(bytes: usize) -> MemoryTests {
    match MemoryTests::create(bytes, false, true) {
        Ok(t) => t,
        Err(e) => panic!("setup failed: {:?}", e),
    }
}

#[test]
fn create_rejects_sizes_not_multiple_of_16() {
    for bytes in [1usize, 8, 15, 17, 24, 40, 1004] {
        assert_eq!(MemoryTests::create(bytes, false, true).err(), Some(SetupError::InvalidSize));
    }
}

#[test]
fn create_accepts_multiples_of_16() {
    for bytes in [0usize, 16, 32, 48, 4096] {
        let t = session(bytes);
        assert_eq!(t.get_allocated_size(), bytes);
        assert_eq!(t.buffer().len(), bytes / 8);
        assert!(t.buffer().iter().all(|w| *w == 0));
        assert!(t.get_errors().is_empty());
        assert_eq!(t.get_error_count(), 0);
    }
}

#[test]
fn create_without_privilege_fails_first() {
    assert_eq!(
        MemoryTests::create(32, false, false).err(),
        Some(SetupError::InsufficientPrivilege)
    );
    assert_eq!(
        MemoryTests::create(24, false, false).err(),
        Some(SetupError::InsufficientPrivilege)
    );
}

#[test]
fn setup_error_messages() {
    assert_eq!(SetupError::InsufficientPrivilege.message(), "You must be root to run this test.");
    assert_eq!(SetupError::InvalidSize.message(), "Allocation amount must be a multiple of 16.");
}

#[test]
fn new_rejects_bad_size_whatever_the_privilege() {
    assert!(MemoryTests::new(24, false).is_err());
}

#[test]
fn healthy_session_reports_zero_for_every_test() {
    let mut t = session(1024);
    let expected = [
        "Random Data",
        "XOR",
        "ADD",
        "SUB",
        "MUL",
        "DIV",
        "OR",
        "AND",
        "Solid Bits",
        "Checkerboard",
    ];
    {
        let mut it = t.get_iterator();
        for name in expected {
            assert_eq!(it.next_test_name(), Some(name));
            assert_eq!(it.next(), Some((name.to_string(), 0)));
        }
    }
    assert_eq!(t.get_error_count(), 0);
    assert!(t.get_errors().is_empty());
}

#[test]
fn iterator_is_exhausted_after_ten_advances() {
    let mut t = session(64);
    let mut it = t.get_iterator();
    let mut advances = 0;
    while it.next().is_some() {
        advances += 1;
    }
    assert_eq!(advances, 10);
    assert_eq!(it.next(), None);
    assert_eq!(it.next(), None);
    assert_eq!(it.next_test_name(), None);
}

#[test]
fn iterator_abandoned_early_leaves_session_usable() {
    let mut t = session(64);
    {
        let mut it = t.get_iterator();
        for _ in 0..3 {
            assert!(it.next().is_some());
        }
        assert_eq!(it.next_test_name(), Some("SUB"));
    }
    assert_eq!(t.get_allocated_size(), 64);
}

#[test]
fn catalog_names_in_order() {
    assert_eq!(TEST_COUNT, 10);
    assert_eq!(entry_name(0), "Random Data");
    assert_eq!(entry_name(5), "DIV");
    assert_eq!(entry_name(9), "Checkerboard");
}

#[test]
fn compare_single_mismatch_records_one_entry() {
    // eight words: halves are indices 0..4 and 4..8
    let mut words = vec![7u64; 8];
    words[6] = 9;
    let mut ledger = HashMap::new();
    let count = compare_halves(&words, &mut ledger, 0x1000);
    assert_eq!(count, 1);
    assert_eq!(ledger.len(), 1);
    assert_eq!(ledger.get(&(0x1000 + 8 * 2)), Some(&1));
}

#[test]
fn compare_equal_halves_finds_nothing() {
    let words = vec![1u64, 2, 3, 1, 2, 3];
    let mut ledger = HashMap::new();
    assert_eq!(compare_halves(&words, &mut ledger, 0), 0);
    assert!(ledger.is_empty());
}

#[test]
fn compare_counts_every_mismatch() {
    let words = vec![1u64, 2, 3, 4, 0, 2, 0, 4];
    let mut ledger = HashMap::new();
    assert_eq!(compare_halves(&words, &mut ledger, 16), 2);
    assert_eq!(ledger.get(&16), Some(&1));
    assert_eq!(ledger.get(&32), Some(&1));
    assert_eq!(ledger.len(), 2);
}

#[test]
fn ledger_accumulates_across_tests() {
    // a stuck bit in word 1 of the second half: OR with 0 keeps both halves
    // as they are, so each test sees the same mismatch again
    let mut words = vec![0u64, 0, 0, 1];
    let mut ledger = HashMap::new();
    assert_eq!(run_operation(WordOp::Or, &mut words, &mut ledger, 0x100, 0), 1);
    assert_eq!(run_operation(WordOp::Xor, &mut words, &mut ledger, 0x100, 0), 1);
    assert_eq!(ledger.len(), 1);
    assert_eq!(ledger.get(&0x108), Some(&2));
}

#[test]
fn ledger_count_saturates() {
    let words = vec![0u64, 1];
    let mut ledger = HashMap::new();
    ledger.insert(0usize, u32::MAX);
    assert_eq!(compare_halves(&words, &mut ledger, 0), 1);
    assert_eq!(ledger.get(&0), Some(&u32::MAX));
}

#[test]
fn solid_bits_ends_all_zeros_without_errors() {
    let mut words = vec![0x1234u64; 6];
    let mut ledger = HashMap::new();
    assert_eq!(solid_bits_test(&mut words, &mut ledger, 0), 0);
    assert_eq!(words, vec![0u64; 6]);
    assert!(ledger.is_empty());
}

#[test]
fn checkerboard_ends_with_complement_without_errors() {
    let mut words = vec![0u64; 4];
    let mut ledger = HashMap::new();
    assert_eq!(checkerboard_test(&mut words, &mut ledger, 0), 0);
    assert_eq!(words, vec![0xaaaa_aaaa_aaaa_aaaau64; 4]);
    assert!(ledger.is_empty());
}

#[test]
fn alternating_fill_last_sub_pass_is_complement() {
    let mut words = vec![0u64; 2];
    let mut ledger = HashMap::new();
    assert_eq!(alternating_fill_test(&mut words, &mut ledger, 0, 0xf0), 0);
    assert_eq!(words, vec![!0xf0u64; 2]);
}

#[test]
fn fill_halves_writes_every_word() {
    let mut words = vec![1u64, 2, 3, 4];
    fill_halves(&mut words, 0x5555_5555_5555_5555);
    assert_eq!(words, vec![0x5555_5555_5555_5555u64; 4]);
}

#[test]
fn add_saturates_at_max() {
    assert_eq!(apply_op(WordOp::Add, u64::MAX, 1), u64::MAX);
    assert_eq!(apply_op(WordOp::Add, 0xffff_ffff_ffff_ffff, 12345), 0xffff_ffff_ffff_ffff);
    assert_eq!(apply_op(WordOp::Add, u64::MAX - 1, 5), u64::MAX);
    assert_eq!(apply_op(WordOp::Add, 2, 3), 5);
}

#[test]
fn sub_saturates_at_zero() {
    assert_eq!(apply_op(WordOp::Sub, 3, 10), 0);
    assert_eq!(apply_op(WordOp::Sub, 10, 3), 7);
    assert_eq!(apply_op(WordOp::Sub, 0, u64::MAX), 0);
}

#[test]
fn mul_saturates_and_div_by_zero_is_max() {
    assert_eq!(apply_op(WordOp::Mul, 1 << 40, 1 << 40), u64::MAX);
    assert_eq!(apply_op(WordOp::Mul, 6, 7), 42);
    assert_eq!(apply_op(WordOp::Div, 42, 0), u64::MAX);
    assert_eq!(apply_op(WordOp::Div, 0, 0), u64::MAX);
    assert_eq!(apply_op(WordOp::Div, 42, 5), 8);
}

#[test]
fn bitwise_operations() {
    assert_eq!(apply_op(WordOp::Xor, 0b1100, 0b1010), 0b0110);
    assert_eq!(apply_op(WordOp::Or, 0b1100, 0b1010), 0b1110);
    assert_eq!(apply_op(WordOp::And, 0b1100, 0b1010), 0b1000);
}

#[test]
fn add_pass_on_full_words_keeps_them_full() {
    let mut words = vec![u64::MAX; 4];
    let mut ledger = HashMap::new();
    assert_eq!(run_operation(WordOp::Add, &mut words, &mut ledger, 0, 77), 0);
    assert_eq!(words, vec![u64::MAX; 4]);
}

#[test]
fn apply_to_halves_touches_both_halves() {
    let mut words = vec![1u64, 2, 3, 4];
    apply_to_halves(&mut words, WordOp::Add, 10);
    assert_eq!(words, vec![11, 12, 13, 14]);
}

#[test]
fn random_data_makes_halves_equal() {
    let mut words = vec![1u64, 2, 3, 4, 5, 6];
    let mut ledger = HashMap::new();
    assert_eq!(random_data_test(&mut words, &mut ledger, 0), 0);
    assert_eq!(words[..3], words[3..]);
    assert!(ledger.is_empty());
}

#[test]
fn run_entry_reports_zero_on_equal_halves() {
    for i in 0..TEST_COUNT {
        let mut words = vec![3u64, 9, 3, 9];
        let mut ledger = HashMap::new();
        assert_eq!(run_entry(i, &mut words, &mut ledger, 0), 0);
        assert!(ledger.is_empty());
    }
}

#[test]
fn base_address_shifts_reported_addresses() {
    let mut t = session(32);
    t.set_base_address(0x10_0000);
    assert_eq!(t.get_allocated_size(), 32);
    let mut words = vec![0u64, 0, 0, 1];
    let mut ledger = HashMap::new();
    compare_halves(&mut words, &mut ledger, 0x10_0000);
    assert_eq!(ledger.get(&0x10_0008), Some(&1));
}
