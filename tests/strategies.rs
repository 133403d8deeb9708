use byte_mutator::strategies::{
    append, arithmetic, bit_flip, byte_flip, copy_byte_range, copy_single_bytes,
    delete_byte_range, delete_single_bytes, insert_constants, insert_from_dict, mutation_size,
    negate_byte, splice, swap_neighbors, swap_with_width, truncate,
};
use byte_mutator::Rng;

fn sample(len: usize) -> Vec<u8> {
    (0..len).map(|i| (i * 7 % 251) as u8).collect()
}

#[test]
fn mutation_size_formula() {
    let mut rng = Rng::new(3);
    assert_eq!(mutation_size(&mut rng, 4096), 4096 * 4 / 100 + 1);
    let mut rng = Rng::new(9);
    assert_eq!(mutation_size(&mut rng, 1000), 101);
    let mut rng = Rng::new(10);
    assert_eq!(mutation_size(&mut rng, 50), 1);
    let mut rng = Rng::new(5);
    assert_eq!(mutation_size(&mut rng, 0), 1);
}

#[test]
fn size_keeping_strategies_keep_size() {
    let fns: [fn(&mut Rng, &mut Vec<u8>); 10] = [
        bit_flip,
        byte_flip,
        negate_byte,
        swap_neighbors,
        swap_with_width,
        arithmetic,
        copy_single_bytes,
        copy_byte_range,
        insert_constants,
        byte_mutator::strategies::set,
    ];
    for seed in 1..40usize {
        for f in fns.iter() {
            for len in [8usize, 9, 64, 4096] {
                let mut rng = Rng::new(seed);
                let mut data = sample(len);
                f(&mut rng, &mut data);
                assert_eq!(data.len(), len);
            }
        }
    }
}

#[test]
fn bit_flip_changes_bits() {
    let mut rng = Rng::new(5);
    let mut data = vec![0u8; 100];
    bit_flip(&mut rng, &mut data);
    let ones: u32 = data.iter().map(|b| b.count_ones()).sum();
    assert!(ones <= 7);
    assert_eq!(ones % 2, 1);
}

#[test]
fn insert_from_dict_keeps_size() {
    let tokens = vec!["CAFEBABE".to_string(), "xy".to_string()];
    for seed in 1..50usize {
        let mut rng = Rng::new(seed);
        let mut data = vec![0u8; 8];
        insert_from_dict(&mut rng, &mut data, &tokens);
        assert_eq!(data.len(), 8);
    }
    let mut rng = Rng::new(2);
    let mut data = vec![0u8; 8];
    insert_from_dict(&mut rng, &mut data, &vec!["CAFEBABE".to_string()]);
    assert_eq!(&data[..8], "CAFEBABE".as_bytes());
}

#[test]
fn deletions_shrink() {
    for seed in 1..60usize {
        for len in [1usize, 2, 8, 100, 4096] {
            let mut rng = Rng::new(seed);
            let mut data = sample(len);
            delete_single_bytes(&mut rng, &mut data);
            assert!(data.len() < len);
            let mut rng = Rng::new(seed);
            let mut data = sample(len);
            delete_byte_range(&mut rng, &mut data);
            assert!(data.len() < len);
        }
    }
}

#[test]
fn delete_range_removes_one_block() {
    let mut rng = Rng::new(4);
    let data0 = sample(1000);
    let mut data = data0.clone();
    delete_byte_range(&mut rng, &mut data);
    let n = data0.len() - data.len();
    assert!(n >= 1);
    let at = (0..data.len()).find(|&i| data[i] != data0[i]).unwrap_or(data.len());
    assert_eq!(&data[..at], &data0[..at]);
    assert_eq!(&data[at..], &data0[at + n..]);
}

#[test]
fn truncate_keeps_a_prefix() {
    for seed in 1..60usize {
        let mut rng = Rng::new(seed);
        let data0 = sample(1000);
        let mut data = data0.clone();
        truncate(&mut rng, &mut data);
        assert!(data.len() <= 1000);
        assert!(data.len() > 500);
        assert_eq!(&data[..], &data0[..data.len()]);
    }
}

#[test]
fn truncate_exact_cut() {
    let mut rng = Rng::new(10);
    let mut data = sample(100);
    truncate(&mut rng, &mut data);
    assert_eq!(data.len(), 90);
    let mut rng = Rng::new(50);
    let mut data = sample(100);
    truncate(&mut rng, &mut data);
    assert_eq!(data.len(), 100);
}

#[test]
fn append_grows_with_own_window() {
    for seed in 1..60usize {
        let mut rng = Rng::new(seed);
        let data0 = sample(300);
        let mut data = data0.clone();
        append(&mut rng, &mut data);
        assert!(data.len() > 300);
        assert_eq!(&data[..300], &data0[..]);
        let tail = &data[300..];
        assert!(data0.windows(tail.len()).any(|w| w == tail));
    }
}

#[test]
fn splice_joins_prefix_and_corpus_suffix() {
    let corpus = vec![b"AAAA".to_vec(), b"BBBBBBBB".to_vec()];
    for seed in 1..60usize {
        let mut rng = Rng::new(seed);
        let mut data = b"XXXX".to_vec();
        splice(&mut rng, &mut data, &corpus);
        let xs = data.iter().take_while(|b| **b == b'X').count();
        assert!(xs < 4);
        let rest = &data[xs..];
        assert!(!rest.is_empty());
        assert!(rest.iter().all(|b| *b == rest[0]) && (rest[0] == b'A' || rest[0] == b'B'));
    }
}

#[test]
fn swap_neighbors_permutes_bytes() {
    for seed in 1..40usize {
        let mut rng = Rng::new(seed);
        let data0 = sample(300);
        let mut data = data0.clone();
        swap_neighbors(&mut rng, &mut data);
        let mut a = data0.clone();
        let mut b = data.clone();
        a.sort();
        b.sort();
        assert_eq!(a, b);
    }
}

#[test]
fn same_state_same_strategy_result() {
    let fns: [fn(&mut Rng, &mut Vec<u8>); 6] =
        [arithmetic, swap_with_width, insert_constants, append, truncate, delete_single_bytes];
    for f in fns.iter() {
        let mut r1 = Rng::new(31);
        let mut r2 = Rng::new(31);
        let mut d1 = sample(64);
        let mut d2 = sample(64);
        f(&mut r1, &mut d1);
        f(&mut r2, &mut d2);
        assert_eq!(d1, d2);
        assert_eq!(r1.0, r2.0);
    }
}
