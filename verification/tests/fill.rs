use diskbenchi::config::FillPolicy;
use diskbenchi::fill::{Generator, DEFAULT_SEED};

fn round(x: u64) -> u64 {
    let a: u64 = x ^ (x << 13);
    let b: u64 = a ^ (a >> 7);
    b ^ (b << 17)
}

#[test]
fn first_word_from_seed_one() {
    let mut generator = Generator::new(1);
    assert_eq!(generator.state(), 1);
    assert_eq!(generator.next_word(), 0x4082_2041);
    assert_eq!(generator.state(), 0x4082_2041);
    assert_eq!(generator.next_word(), round(0x4082_2041));
}

#[test]
fn zero_seed_is_replaced() {
    let mut generator = Generator::new(0);
    assert_eq!(generator.state(), DEFAULT_SEED);
    assert_eq!(DEFAULT_SEED, 0x9E37_79B9_7F4A_7C15);
    assert_eq!(generator.next_word(), round(DEFAULT_SEED));
}

#[test]
fn policy_decides_whether_there_is_a_generator() {
    assert!(Generator::for_policy(FillPolicy::Keep).is_none());
    assert_eq!(Generator::for_policy(FillPolicy::Random { seed: 9 }).unwrap().state(), 9);
    assert_eq!(
        Generator::for_policy(FillPolicy::Random { seed: 0 }).unwrap().state(),
        DEFAULT_SEED
    );
}

#[test]
fn fill_writes_each_word_least_significant_byte_first() {
    let mut generator = Generator::new(1);
    let mut buf: Vec<u8> = vec![0xFFu8; 16];
    generator.fill(&mut buf[..]);
    let first: u64 = round(1);
    let second: u64 = round(first);
    assert_eq!(&buf[..8], &first.to_le_bytes()[..]);
    assert_eq!(&buf[8..], &second.to_le_bytes()[..]);
    assert_eq!(&buf[..4], &[0x41u8, 0x20, 0x82, 0x40][..]);
    assert_eq!(generator.state(), second);
}

#[test]
fn fill_of_a_partial_word_uses_a_whole_round() {
    let mut generator = Generator::new(77);
    let mut buf: Vec<u8> = vec![0u8; 11];
    generator.fill(&mut buf[..]);
    let first: u64 = round(77);
    let second: u64 = round(first);
    assert_eq!(&buf[..8], &first.to_le_bytes()[..]);
    assert_eq!(&buf[8..], &second.to_le_bytes()[..3]);
    assert_eq!(generator.state(), second);
    let mut more: Vec<u8> = vec![0u8; 1];
    generator.fill(&mut more[..]);
    assert_eq!(more[0], round(second).to_le_bytes()[0]);
}

#[test]
fn fill_of_nothing_changes_nothing() {
    let mut generator = Generator::new(5);
    let mut buf: Vec<u8> = Vec::new();
    generator.fill(&mut buf[..]);
    assert_eq!(generator.state(), 5);
}

#[test]
fn state_never_becomes_zero() {
    let mut generator = Generator::new(1);
    let mut i: usize = 0;
    while i < 10_000 {
        assert_ne!(generator.next_word(), 0);
        i += 1;
    }
}

#[test]
fn successive_fills_differ() {
    let mut generator = Generator::new(123_456_789);
    let mut first: Vec<u8> = vec![0u8; 4096];
    let mut second: Vec<u8> = vec![0u8; 4096];
    generator.fill(&mut first[..]);
    generator.fill(&mut second[..]);
    assert_ne!(first, second);
}
