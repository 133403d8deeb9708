use std::sync::Arc;

use byte_mutator::{MutationEngine, Mutator, TestCase};

#[test]
fn it_works() {
    let corpus: Arc<Vec<Vec<u8>>> = Arc::new(
        [
            "ThisIsSomeTest".as_bytes().to_vec(),
            "YetAnotherSimpleInput".as_bytes().to_vec(),
        ]
        .to_vec(),
    );
    let init_tc = TestCase::new(&corpus[0]);
    let mut mutation_engine = MutationEngine::new(Some(init_tc), None, None, Some(corpus));
    assert!(mutation_engine.can_mutate());

    let expected = "ThisIsSomeTest".to_string();
    // A single call may legitimately hand back its input unchanged (a truncation by a small
    // percentage, an empty run, a byte copied onto itself), so allow a few calls.
    let mut actual = expected.clone();
    for _ in 0..10 {
        let tc = mutation_engine.mutate();
        println!("Mutation: {:?}", String::from_utf8_lossy(tc));
        actual = String::from_utf8_lossy(tc).to_string();
        if actual != expected {
            break;
        }
    }
    assert_ne!(expected, actual);
}

#[test]
fn new_registers_strategies_by_resource() {
    let e = MutationEngine::new(None, Some(1), None, None);
    assert_eq!(e.mutators.len(), 14);
    assert_eq!(e.test_case.data.len(), 4096);
    assert_eq!(e.test_case.size(), 4096);
    let e = MutationEngine::new(None, Some(1), Some(vec!["ab".to_string()]), None);
    assert_eq!(e.mutators.len(), 15);
    assert_eq!(e.mutators[14], Mutator::InsertFromDict);
    let corpus = Arc::new(vec![b"12345678".to_vec()]);
    let e = MutationEngine::new(None, Some(1), Some(vec!["ab".to_string()]), Some(corpus));
    assert_eq!(e.mutators.len(), 16);
    assert_eq!(e.mutators[15], Mutator::Splice);
    assert_eq!(e.mutator, Mutator::BitFlip);
}

#[test]
fn new_keeps_given_test_case_and_seed() {
    let tc = TestCase::new(&b"hello".to_vec());
    let e = MutationEngine::new(Some(tc), Some(1234), None, None);
    assert_eq!(e.test_case.data, b"hello".to_vec());
    assert_eq!(e.prng.0, 1234);
}

#[test]
fn test_case_default_is_empty() {
    let tc = TestCase::default();
    assert_eq!(tc.size(), 0);
}

#[test]
fn mutate_picks_by_state_modulo_count() {
    let mut e = MutationEngine::new(None, Some(1234), None, None);
    e.prng.0 = 5;
    let _ = e.mutate();
    assert_eq!(e.mutator, Mutator::Arithmetic);
    e.prng.0 = 14 + 8;
    let _ = e.mutate();
    assert_eq!(e.mutator, Mutator::CopyRange);
}

#[test]
fn no_dictionary_no_corpus_never_selects_them() {
    let mut e = MutationEngine::new(None, Some(99), None, None);
    for _ in 0..500 {
        let len = e.mutate().len();
        assert!(e.mutator != Mutator::InsertFromDict && e.mutator != Mutator::Splice);
        if matches!(
            e.mutator,
            Mutator::BitFlip | Mutator::ByteFlip | Mutator::SwapEndianness | Mutator::Arithmetic
        ) {
            assert_eq!(len, 4096);
        }
    }
}

#[test]
fn dictionary_without_corpus_never_splices() {
    let mut e = MutationEngine::new(None, Some(7), Some(vec!["CAFEBABE".to_string()]), None);
    let mut seen_dict = false;
    for _ in 0..500 {
        let _ = e.mutate();
        assert!(e.mutator != Mutator::Splice);
        seen_dict |= e.mutator == Mutator::InsertFromDict;
    }
    assert!(seen_dict);
}

#[test]
fn corpus_without_dictionary_never_inserts_tokens() {
    let corpus = Arc::new(vec![b"AAAAAAAA".to_vec(), b"BBBBBBBBBBBB".to_vec()]);
    let mut e = MutationEngine::new(None, Some(11), None, Some(corpus));
    let mut seen_splice = false;
    for _ in 0..500 {
        let _ = e.mutate();
        assert!(e.mutator != Mutator::InsertFromDict);
        seen_splice |= e.mutator == Mutator::Splice;
    }
    assert!(seen_splice);
}

#[test]
fn can_mutate_checks_inputs() {
    let short = Arc::new(vec![b"abc".to_vec()]);
    assert!(!MutationEngine::new(None, Some(1), None, Some(short)).can_mutate());
    let empty: Arc<Vec<Vec<u8>>> = Arc::new(vec![]);
    assert!(!MutationEngine::new(None, Some(1), None, Some(empty)).can_mutate());
    assert!(!MutationEngine::new(None, Some(1), Some(vec![]), None).can_mutate());
    let corpus = Arc::new(vec![b"12345678".to_vec()]);
    let long_token = vec!["123456789".to_string()];
    assert!(!MutationEngine::new(None, Some(1), Some(long_token), Some(corpus.clone())).can_mutate());
    assert!(MutationEngine::new(None, Some(1), Some(vec!["1234".to_string()]), Some(corpus)).can_mutate());
    assert!(MutationEngine::new(None, Some(1), None, None).can_mutate());
}

#[test]
fn equal_engines_give_equal_mutants() {
    let corpus = Arc::new(vec![b"AAAAAAAAAA".to_vec(), b"BBBBBBBBBBBBBBBB".to_vec()]);
    let dict = vec!["tok".to_string()];
    let mut e1 = MutationEngine::new(None, Some(42), Some(dict.clone()), Some(corpus.clone()));
    let mut e2 = MutationEngine::new(None, Some(42), Some(dict), Some(corpus));
    for _ in 0..100 {
        let a = e1.mutate().clone();
        let b = e2.mutate().clone();
        assert_eq!(a, b);
        assert_eq!(e1.mutator, e2.mutator);
    }
}

#[test]
fn fresh_input_holds_the_seeded_draws() {
    let e = MutationEngine::new(None, Some(1), None, None);
    assert_eq!(&e.test_case.data[0..8], &1u64.to_le_bytes());
    assert_eq!(&e.test_case.data[8..16], &72066390130958337u64.to_le_bytes());
}

#[test]
fn corpus_entry_follows_the_state() {
    let corpus = Arc::new(vec![b"AAAAAAAAAA".to_vec(), b"BBBBBBBBBBBBBBBB".to_vec()]);
    let mut e = MutationEngine::new(None, Some(1), None, Some(corpus));
    for _ in 0..50 {
        let s0 = e.prng.0;
        let s1 = {
            let mut r = byte_mutator::Rng(s0);
            let _ = r.rand();
            r.0
        };
        let _ = e.mutate();
        let expected_len = if s1 % 2 == 0 { 10 } else { 16 };
        if e.mutator == Mutator::BitFlip || e.mutator == Mutator::Arithmetic {
            assert_eq!(e.test_case.data.len(), expected_len);
        }
    }
}
