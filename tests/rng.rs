use byte_mutator::Rng;

#[test]
fn first_draw_is_the_seed() {
    let mut rng = Rng::new(1234);
    assert_eq!(rng.rand(), 1234);
    assert_eq!(rng.rand() as u64, 0xd224_f800_009a_449f);
    assert_eq!(rng.rand() as u64, 0x4d20_0681_3400_009b);
    assert_eq!(rng.rand() as u64, 0xd224_96f9_2413_fa92);
}

#[test]
fn same_seed_same_draws() {
    let mut a = Rng::new(987_654_321);
    let mut b = Rng::new(987_654_321);
    for _ in 0..1000 {
        assert_eq!(a.rand(), b.rand());
    }
}

#[test]
fn zero_seed_reads_the_clock() {
    let mut rng = Rng::new(0);
    let _ = rng.rand();
    let v = rng.gen_range(3, 7);
    assert!((3..=7).contains(&v));
}

#[test]
fn gen_range_stays_in_bounds() {
    let mut rng = Rng::new(42);
    for (lo, hi) in [(0usize, 0usize), (0, 1), (5, 9), (100, 100), (7, 1000), (0, 9)] {
        for _ in 0..200 {
            let v = rng.gen_range(lo, hi);
            assert!(lo <= v && v <= hi);
        }
    }
}

#[test]
fn gen_range_single_value_draws_nothing() {
    let mut rng = Rng::new(77);
    assert_eq!(rng.gen_range(5, 5), 5);
    assert_eq!(rng.0, 77);
}

#[test]
fn gen_range_full_span_is_a_plain_draw() {
    let mut rng = Rng::new(1234);
    assert_eq!(rng.gen_range(0, usize::MAX), 1234);
    assert_eq!(rng.0, 0xd224_f800_009a_449f);
}

#[test]
fn gen_range_exact_value() {
    let mut rng = Rng::new(1234);
    assert_eq!(rng.gen_range(10, 19), 10 + 1234 % 10);
}

#[test]
fn gen_byte_is_state_mod_255() {
    let mut rng = Rng::new(300);
    assert_eq!(rng.gen_byte(), 45);
    let mut rng = Rng::new(255 * 7);
    assert_eq!(rng.gen_byte(), 0);
}

#[test]
fn pick_uses_state_modulo_length() {
    let mut rng = Rng::new(10);
    assert_eq!(rng.pick(&[3u8, 5, 7]), 5);
}

#[test]
fn bool_is_true_on_even_state() {
    let mut rng = Rng::new(8);
    assert!(rng.bool());
    let mut rng = Rng::new(9);
    assert!(!rng.bool());
}

#[test]
fn fill_bytes_appends_whole_words() {
    let mut rng = Rng::new(1);
    let mut buf = vec![9u8];
    rng.fill_bytes(&mut buf, 10);
    assert_eq!(buf.len(), 17);
    assert_eq!(buf[0], 9);
    assert_eq!(&buf[1..9], &1u64.to_le_bytes());
    assert_eq!(&buf[9..17], &72066390130958337u64.to_le_bytes());
}

#[test]
fn fill_bytes_leaves_long_buffers_alone() {
    let mut rng = Rng::new(1);
    let mut buf = vec![1u8, 2, 3];
    rng.fill_bytes(&mut buf, 2);
    assert_eq!(buf, vec![1u8, 2, 3]);
    assert_eq!(rng.0, 1);
}
