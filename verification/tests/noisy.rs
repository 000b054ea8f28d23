use bitnoise::genrand::GenuineRandomizer;
use bitnoise::noise::{noise_packet, noisy, MockerMax, MockerMin};

#[test]
fn none() {
    assert_eq!(noisy(0x0000, 0, &mut MockerMin), 0x0000);
    assert_eq!(noisy(0x0000, 0, &mut MockerMax), 0x0000);
    assert_eq!(noisy(0x0001, 0, &mut MockerMin), 0x0001);
    assert_eq!(noisy(0x0001, 0, &mut MockerMax), 0x0001);
    assert_eq!(noisy(0x7FFF, 0, &mut MockerMin), 0x7FFF);
    assert_eq!(noisy(0x7FFF, 0, &mut MockerMax), 0x7FFF);
    assert_eq!(noisy(-1, 0, &mut MockerMin), -1);
    assert_eq!(noisy(-1, 0, &mut MockerMax), -1);
}

#[test]
fn one() {
    assert_eq!(noisy(0x0000, 1, &mut MockerMin), 0x0000);
    assert_eq!(noisy(0x0000, 1, &mut MockerMax), 0x0001);
    assert_eq!(noisy(0x0001, 1, &mut MockerMin), 0x0000);
    assert_eq!(noisy(0x0001, 1, &mut MockerMax), 0x0001);
    assert_eq!(noisy(0x7FFF, 1, &mut MockerMin), 0x7FFE);
    assert_eq!(noisy(0x7FFF, 1, &mut MockerMax), 0x7FFF);
    assert_eq!(noisy(-1, 1, &mut MockerMin), 0xFFFFFFFEu32 as i32);
    assert_eq!(noisy(-1, 1, &mut MockerMax), -1);
}

#[test]
fn eight() {
    assert_eq!(noisy(0x0000, 8, &mut MockerMin), 0x0000);
    assert_eq!(noisy(0x0000, 8, &mut MockerMax), 0x00FF);
    assert_eq!(noisy(0x00FF, 8, &mut MockerMin), 0x0000);
    assert_eq!(noisy(0x00FF, 8, &mut MockerMax), 0x00FF);
    assert_eq!(noisy(0x7FFF, 8, &mut MockerMin), 0x7F00);
    assert_eq!(noisy(0x7FFF, 8, &mut MockerMax), 0x7FFF);
    assert_eq!(noisy(-1, 8, &mut MockerMin), 0xFFFFFF00u32 as i32);
    assert_eq!(noisy(-1, 8, &mut MockerMax), -1);
}

#[test]
fn zero_width_is_identity_for_any_randomizer() {
    let mut rng = GenuineRandomizer::from_seed([68u8; 16]);
    for s in [0i32, 1, -1, 0x7FFF, -0x8000, i32::MAX, i32::MIN] {
        assert_eq!(noisy(s, 0, &mut rng), s);
        assert_eq!(noisy(s, 0, &mut MockerMin), s);
        assert_eq!(noisy(s, 0, &mut MockerMax), s);
    }
}

#[test]
fn mock_extremes_pin_the_transform() {
    assert_eq!(noisy(0x00FF, 8, &mut MockerMin), 0x0000);
    assert_eq!(noisy(0x00FF, 8, &mut MockerMax), 0x00FF);
    for k in 0..=30u32 {
        let s = 0x1234_5678i32;
        assert_eq!(noisy(s, k, &mut MockerMin), (s >> k) << k);
        assert_eq!(
            noisy(s, k, &mut MockerMax),
            (s >> k) << k | ((1i32 << k) - 1)
        );
    }
}

#[test]
fn genuine_draw_stays_in_range() {
    let mut rng = GenuineRandomizer::from_seed([7u8; 16]);
    for _ in 0..200 {
        let r = noisy(0, 8, &mut rng);
        assert!((0..256).contains(&r));
    }
    let mut any_nonzero = false;
    for _ in 0..200 {
        if noisy(0, 8, &mut rng) != 0 {
            any_nonzero = true;
        }
    }
    assert!(any_nonzero);
}

#[test]
fn genuine_is_reproducible_from_its_seed() {
    let mut a = GenuineRandomizer::from_seed([68u8; 16]);
    let mut b = GenuineRandomizer::from_seed([68u8; 16]);
    for s in [0i32, 5, -7, 0x7FFF] {
        assert_eq!(noisy(s, 12, &mut a), noisy(s, 12, &mut b));
    }
}

#[test]
fn packet_columns_interleave_channels_per_frame() {
    // Two channels of 8-bit samples, delivered left-justified in 32 bits.
    let buf = vec![
        vec![1i32 << 24, 2i32 << 24],
        vec![3i32 << 24, 4i32 << 24],
    ];
    let out = noise_packet(&buf, 8, &mut MockerMin);
    assert_eq!(out.len(), 8);
    // Width 0 is the identity: frames interleaved in channel order.
    assert_eq!(out[0], vec![1, 3, 2, 4]);
    // Width 1 truncates the low bit.
    assert_eq!(out[1], vec![0, 2, 2, 4]);
    // Width 2 truncates the low two bits.
    assert_eq!(out[2], vec![0, 0, 0, 4]);
}

#[test]
fn packet_columns_with_all_ones_noise() {
    let buf = vec![vec![0x10i32 << 24, 0x70i32 << 24]];
    let out = noise_packet(&buf, 8, &mut MockerMax);
    assert_eq!(out.len(), 8);
    assert_eq!(out[0], vec![0x10, 0x70]);
    assert_eq!(out[4], vec![0x1F, 0x7F]);
    assert_eq!(out[7], vec![0x7F, 0x7F]);
}
