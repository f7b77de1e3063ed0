use lightfetch::random::{rand, randomize, rotate, set_seed, split, Generator};

#[test]
fn test_rotate() {
    let number = 0b0000000000000000000000000000000000000000000000000000000000000001;
    let rotation = 1;
    let rotated = rotate(number, rotation);
    assert_eq!(
        rotated,
        0b0000000000000000000000000000000000000000000000000000000000000010
    );
}

#[test]
fn test_randomize() {
    let mut state = Generator::new();
    set_seed(&mut state, 123456789);
    let random = randomize(&mut state, 64);
    assert_ne!(random, 0);

    println!("random: {}", random);
}

#[test]
fn test_split() {
    let mut state = Generator::new();
    let seed = 123456789;
    let random = split(&mut state, seed);
    assert_ne!(random, 0);

    println!("split: {}", random);
}

#[test]
fn rotate_agrees_with_rotate_left() {
    let samples: [u128; 4] = [0, 1, u128::MAX - 5, 0x330607435f1d4de755ac721b368e7679];
    let turns: [i32; 8] = [0, 1, 7, 45, 127, 128, 200, -1];
    for x in samples {
        for r in turns {
            assert_eq!(rotate(x, r), x.rotate_left(r as u32));
        }
    }
}

#[test]
fn split_gives_the_known_value() {
    let mut state = Generator::new();
    assert_eq!(
        split(&mut state, 123456789),
        0x330607435f1d4de755ac721b368e7679
    );
    assert_eq!(state.seed, 123456789 + 0x9e3779b97f4a7c15);
    assert_eq!(state.x0, 0);
}

#[test]
fn seeding_fills_every_register_alike() {
    let mut state = Generator::new();
    set_seed(&mut state, 123456789);
    let v = 0x330607435f1d4de755ac721b368e7679;
    assert_eq!(
        state,
        Generator {
            seed: 123456789 + 0x9e3779b97f4a7c15,
            x0: v,
            x1: v,
            x2: v,
            x3: v
        }
    );
}

#[test]
fn a_zero_seed_is_ignored() {
    let mut state = Generator::new();
    set_seed(&mut state, 5);
    let before = state;
    set_seed(&mut state, 0);
    assert_eq!(state, before);
}

#[test]
fn randomize_steps_the_registers() {
    let mut state = Generator {
        seed: 9,
        x0: 1,
        x1: 2,
        x2: 3,
        x3: 4,
    };
    let r = randomize(&mut state, 64);
    // rotl(2 * 5, 7) * 9
    assert_eq!(r, 11520);
    assert_eq!(
        state,
        Generator {
            seed: 9,
            x0: 1 ^ (4 ^ 2),
            x1: 2 ^ (3 ^ 1),
            x2: (3 ^ 1) ^ (2 << 17),
            x3: (6u128).rotate_left(45),
        }
    );
}

#[test]
fn randomize_wraps() {
    let mut state = Generator::new();
    set_seed(&mut state, 123456789);
    let v: u128 = 0x330607435f1d4de755ac721b368e7679;
    let expected = v.wrapping_mul(5).rotate_left(7).wrapping_mul(9);
    assert_eq!(randomize(&mut state, 64), expected as usize);
}

#[test]
fn rand_stays_in_range() {
    let mut state = Generator::new();
    set_seed(&mut state, 42);
    for _ in 0..200 {
        let r = rand(&mut state, 3, 9);
        assert!((3..=9).contains(&r));
    }
    assert_eq!(rand(&mut state, 7, 7), 7);
}

#[test]
fn rand_is_the_remainder_of_the_draw() {
    let mut a = Generator::new();
    set_seed(&mut a, 77);
    let mut b = a;
    let drawn = randomize(&mut a, 8);
    assert_eq!(rand(&mut b, 10, 20), drawn % 11 + 10);
    assert_eq!(a, b);
}
