use crisp::{initial_prng_seed, Pcg32iState};

#[test]
fn the_initial_seed_gives_these_words() {
    let mut prng = initial_prng_seed();
    let words: Vec<u32> = (0..6).map(|_| prng.next_u32()).collect();
    assert_eq!(
        words,
        vec![867152288, 2238392121, 2166563997, 1229534003, 3671681896, 2753197363]
    );
}

#[test]
fn the_initial_seed_is_fixed() {
    assert_eq!(initial_prng_seed(), Pcg32iState::new(69, 420));
    assert_eq!(initial_prng_seed(), initial_prng_seed());
}

#[test]
fn seeding_with_zeros() {
    let mut prng = Pcg32iState::new(0, 0);
    assert_eq!(prng.inc, 1);
    assert_eq!(prng.state, 747796405 + 1);
    let words: Vec<u32> = (0..3).map(|_| prng.next_u32()).collect();
    assert_eq!(words, vec![210472, 3704365314, 3552261382]);
}

#[test]
fn seeding_with_the_largest_words() {
    let mut prng = Pcg32iState::new(u32::MAX, u32::MAX);
    assert_eq!(prng.inc, u32::MAX);
    let words: Vec<u32> = (0..3).map(|_| prng.next_u32()).collect();
    assert_eq!(words, vec![1222052146, 3645557749, 284411358]);
}

#[test]
fn the_sequence_number_selects_the_sequence() {
    let mut a = Pcg32iState::new(42, 54);
    let mut b = Pcg32iState::new(42, 55);
    assert_eq!(a.inc, 109);
    assert_eq!(b.inc, 111);
    assert_eq!(a.next_u32(), 0xf84b622d);
    assert_eq!(a.next_u32(), 0xdc1e5bb4);
    assert_ne!(a.next_u32(), b.next_u32());
    assert_eq!(a.inc, 109);
}
