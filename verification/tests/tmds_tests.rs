use bitbang_dvi::display::tmds::{count_bits, decode, encode, get_bit, TMDS};

fn transitions(symbol: u16) -> u32 {
    let mut n = 0;
    for i in 0..9 {
        if ((symbol >> i) & 1) != ((symbol >> (i + 1)) & 1) {
            n += 1;
        }
    }
    n
}

#[test]
fn count_bits_counts_ones() {
    assert_eq!(count_bits(0x00), 0);
    assert_eq!(count_bits(0xff), 8);
    assert_eq!(count_bits(0b1010_0001), 3);
    for b in 0u16..=255 {
        assert_eq!(count_bits(b as u8) as u32, (b as u8).count_ones());
    }
}

#[test]
fn get_bit_reads_indexed_bit() {
    assert_eq!(get_bit(0b0100_0000, 6), 1);
    assert_eq!(get_bit(0b0100_0000, 5), 0);
    assert_eq!(get_bit(0b1000_0001, 7), 1);
    assert_eq!(get_bit(0b1000_0001, 0), 1);
}

#[test]
fn round_trip_all_bytes_all_disparities() {
    for d in -8i32..=8 {
        for b in 0u16..=255 {
            let (symbol, _) = encode(b as u8, d);
            assert!(symbol < 1024);
            assert_eq!(decode(symbol), b as u8);
        }
    }
}

#[test]
fn data_symbols_have_at_most_five_transitions() {
    for d in -8i32..=8 {
        for b in 0u16..=255 {
            let (symbol, _) = encode(b as u8, d);
            assert!(transitions(symbol) <= 5, "byte {b} disparity {d}");
        }
    }
}

#[test]
fn disparity_is_the_balance_of_the_symbols_sent() {
    for d in -8i32..=8 {
        for b in 0u16..=255 {
            let (symbol, next) = encode(b as u8, d);
            let ones = symbol.count_ones() as i32;
            assert_eq!(next - d, ones - (10 - ones));
        }
    }
}

#[test]
fn running_disparity_stays_within_eight() {
    let mut lane = TMDS::new();
    let mut state: u32 = 0x1234_5678;
    for _ in 0..100 {
        state = state.wrapping_mul(1_664_525).wrapping_add(1_013_904_223);
        let byte = (state >> 24) as u8;
        let symbol = lane.encode_tmds(byte);
        assert_eq!(decode(symbol), byte);
        let d = lane.running_disparity();
        assert!(-8 <= d && d <= 8);
        assert_eq!(d % 2, 0);
    }
}

#[test]
fn disparity_reaches_eight_after_one_byte() {
    let mut lane = TMDS::new();
    lane.encode_tmds(0x00);
    assert_eq!(lane.running_disparity(), -8);
}

#[test]
fn disparity_never_moves_away_on_its_own_side() {
    for d in -40i32..=40 {
        for b in 0u16..=255 {
            let (_, next) = encode(b as u8, d);
            if d > 0 {
                assert!(d - 10 <= next && next <= d);
            } else if d < 0 {
                assert!(d <= next && next <= d + 10);
            } else {
                assert!(-8 <= next && next <= 8);
            }
        }
    }
}

#[test]
fn encode_does_not_overflow_at_the_ends() {
    for b in 0u16..=255 {
        let (_, hi) = encode(b as u8, i32::MAX);
        assert!(hi <= i32::MAX && hi >= i32::MAX - 10);
        let (_, lo) = encode(b as u8, i32::MIN);
        assert!(lo >= i32::MIN && lo <= i32::MIN + 10);
    }
}

#[test]
fn control_symbols_are_the_four_literals() {
    assert_eq!(TMDS::encode_control_signal(false, false), 0b0010101011);
    assert_eq!(TMDS::encode_control_signal(true, false), 0b1101010100);
    assert_eq!(TMDS::encode_control_signal(false, true), 0b0010101010);
    assert_eq!(TMDS::encode_control_signal(true, true), 0b1101010101);
}

#[test]
fn control_symbols_have_seven_or_eight_transitions() {
    assert_eq!(transitions(TMDS::encode_control_signal(false, false)), 7);
    assert_eq!(transitions(TMDS::encode_control_signal(true, false)), 7);
    assert_eq!(transitions(TMDS::encode_control_signal(false, true)), 8);
    assert_eq!(transitions(TMDS::encode_control_signal(true, true)), 8);
}

#[test]
fn zero_byte_on_a_balanced_lane() {
    let (symbol, disparity) = encode(0x00, 0);
    assert_eq!(symbol, 0b01_0000_0000);
    assert_eq!(disparity, -8);
    assert_eq!(decode(symbol), 0x00);
}

#[test]
fn all_ones_byte_on_a_balanced_lane() {
    let mut lane = TMDS::new();
    let first = lane.encode_tmds(0xff);
    assert_eq!(first, 0b10_0000_0000);
    assert_eq!(lane.running_disparity(), -8);
    let second = lane.encode_tmds(0xff);
    assert_eq!(second, 0b00_1111_1111);
    assert_eq!(lane.running_disparity(), -2);
    assert_eq!(decode(first), 0xff);
    assert_eq!(decode(second), 0xff);
}

#[test]
fn xor_chain_is_chosen_for_few_ones() {
    // 0b0000_0011 has two ones: XOR chain, q = 0b1111_1101 ... bit by bit
    let (symbol, _) = encode(0b0000_0011, 0);
    assert_eq!(symbol & 0x100, 0x100);
    // four ones with bit 0 set: XOR; with bit 0 clear: XNOR
    let (with_bit0, _) = encode(0b0000_1111, 0);
    assert_eq!(with_bit0 & 0x100, 0x100);
    let (without_bit0, _) = encode(0b0001_1110, 0);
    assert_eq!(without_bit0 & 0x100, 0);
    let (many, _) = encode(0b0111_1111, 0);
    assert_eq!(many & 0x100, 0);
}

#[test]
fn exact_symbol_for_a_mixed_byte() {
    // 0x55 = 0b0101_0101: four ones, bit 0 set: XOR chain.
    // q = 1,1,0,0,1,1,0,0 (bit 0 first) = 0b0011_0011, balanced, q8 = 1.
    let (symbol, disparity) = encode(0x55, 0);
    assert_eq!(symbol, 0b01_0011_0011);
    assert_eq!(disparity, 0);
}

#[test]
fn lane_starts_low_and_balanced() {
    let lane = TMDS::new();
    assert!(!lane.level());
    assert!(!lane.level_inv());
    assert_eq!(lane.running_disparity(), 0);
}

#[test]
fn set_bit_drives_complementary_levels() {
    let mut lane = TMDS::new();
    lane.set_bit(true);
    assert!(lane.level());
    assert!(!lane.level_inv());
    lane.set_bit(false);
    assert!(!lane.level());
    assert!(lane.level_inv());
}

#[test]
fn toggle_inverts_both_pins() {
    let mut lane = TMDS::new();
    lane.set_bit(true);
    lane.toggle();
    assert!(!lane.level());
    assert!(lane.level_inv());
    lane.toggle();
    assert!(lane.level());
    assert!(!lane.level_inv());
}

#[test]
fn control_symbol_resets_the_disparity() {
    let mut lane = TMDS::new();
    lane.encode_tmds(0x00);
    assert_ne!(lane.running_disparity(), 0);
    let symbol = lane.encode_control(false, false);
    assert_eq!(symbol, 0b0010101011);
    assert_eq!(lane.running_disparity(), 0);
}
