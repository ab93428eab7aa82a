//! One TMDS (transition-minimised differential signalling) lane: the pair of
//! complementary pins, the running disparity, and the 8b/10b symbol encoder.

use vstd::prelude::*;

verus! {

/// Bit `index` of `data`, as 0 or 1.
pub open spec fn bit_of(data: u8, index: u8) -> u8 {
    (data >> index) & 1
}

/// The number of 1 bits in `data`.
pub open spec fn ones(data: u8) -> int {
    bit_of(data, 0) + bit_of(data, 1) + bit_of(data, 2) + bit_of(data, 3) + bit_of(data, 4)
        + bit_of(data, 5) + bit_of(data, 6) + bit_of(data, 7)
}

/// The low `n` bits of `data`.
pub open spec fn low_bits(data: u8, n: u8) -> u8 {
    data & (((1u16 << n) - 1) as u8)
}

/// Gets the value (0/1) of an indexed bit in a byte. `index` is zero-based.
pub fn get_bit(data: u8, index: u8) -> (bit: u8)
    requires
        index < 8,
    ensures
        bit == bit_of(data, index),
        bit <= 1,
{
    let bit: u8 = (data >> index) & 1;
    assert(((data >> index) & 1) <= 1) by (bit_vector);
    bit
}

/// Returns the number of 1 bits in a byte.
pub fn count_bits(data: u8) -> (count: u8)
    ensures
        count == ones(data),
        count <= 8,
{
    let mut count: u8 = 0;
    let mut i: u8 = 0;
    proof {
        lemma_ones_step(data, 0);
    }
    while i < 8
        invariant
            i <= 8,
            count == ones(low_bits(data, i)),
            count <= i,
        decreases 8 - i,
    {
        let bit: u8 = get_bit(data, i);
        proof {
            lemma_ones_step(data, i);
        }
        count = count + bit;
        i = i + 1;
    }
    assert(low_bits(data, 8) == data) by (bit_vector);
    count
}

/// Taking one more low bit into account adds that bit to the count.
proof fn lemma_ones_step(data: u8, i: u8)
    by (bit_vector)
    requires
        i < 8,
    ensures
        ones(low_bits(data, (i + 1) as u8)) == ones(low_bits(data, i)) + bit_of(data, i),
        ones(low_bits(data, 0)) == 0,
{
}

/// Whether the XOR chain is chosen for `data`: it has fewer than four 1 bits,
/// or exactly four and its bit 0 set. Otherwise the XNOR chain is chosen.
pub open spec fn prefers_xor(data: u8) -> bool {
    ones(data) < 4 || (ones(data) == 4 && bit_of(data, 0) == 1)
}

/// The transition-minimised byte `q`: `q[0] = data[0]`, and for each later
/// bit `q[i] = q[i-1] ^ data[i]` on the XOR chain, its complement on the XNOR
/// chain.
pub open spec fn transition_coded(data: u8, xor: bool) -> u8 {
    let flip: u8 = if xor { 0 } else { 1 };
    let q0: u8 = bit_of(data, 0);
    let q1: u8 = q0 ^ bit_of(data, 1) ^ flip;
    let q2: u8 = q1 ^ bit_of(data, 2) ^ flip;
    let q3: u8 = q2 ^ bit_of(data, 3) ^ flip;
    let q4: u8 = q3 ^ bit_of(data, 4) ^ flip;
    let q5: u8 = q4 ^ bit_of(data, 5) ^ flip;
    let q6: u8 = q5 ^ bit_of(data, 6) ^ flip;
    let q7: u8 = q6 ^ bit_of(data, 7) ^ flip;
    q0 | (q1 << 1) | (q2 << 2) | (q3 << 3) | (q4 << 4) | (q5 << 5) | (q6 << 6) | (q7 << 7)
}

/// Ones minus zeros among the eight bits of `q`.
pub open spec fn imbalance(q: u8) -> int {
    2 * ones(q) - 8
}

/// Whether the low eight bits go out inverted, given the chain that was
/// chosen, the imbalance of the transition-minimised byte and the lane's
/// running disparity.
pub open spec fn inverts(xor: bool, imbalance: int, disparity: int) -> bool {
    if disparity == 0 || imbalance == 0 {
        !xor
    } else {
        (disparity > 0 && imbalance > 0) || (disparity < 0 && imbalance < 0)
    }
}

/// The change of the running disparity that one data symbol brings.
pub open spec fn disparity_step(xor: bool, imbalance: int, disparity: int) -> int {
    let q8: int = if xor { 1 } else { 0 };
    if disparity == 0 || imbalance == 0 {
        if xor { imbalance } else { -imbalance }
    } else if (disparity > 0 && imbalance > 0) || (disparity < 0 && imbalance < 0) {
        2 * q8 - imbalance
    } else {
        2 * (q8 - 1) + imbalance
    }
}

/// The 10-bit symbol: bits 0..7 hold `q`, inverted where `inverted`; bit 8
/// tells the XOR chain from the XNOR chain; bit 9 tells the inversion.
pub open spec fn assemble(q: u8, xor: bool, inverted: bool) -> u16 {
    let low: u8 = if inverted { q ^ 0xff } else { q };
    let b8: u16 = if xor { 0x100 } else { 0 };
    let b9: u16 = if inverted { 0x200 } else { 0 };
    (low as u16) | b8 | b9
}

/// The data symbol for `data` on a lane whose running disparity is
/// `disparity`. Bit 0 goes out first.
pub open spec fn data_symbol(data: u8, disparity: int) -> u16 {
    let xor = prefers_xor(data);
    let q = transition_coded(data, xor);
    assemble(q, xor, inverts(xor, imbalance(q), disparity))
}

/// The lane's running disparity after the data symbol for `data`.
pub open spec fn next_disparity(data: u8, disparity: int) -> int {
    let xor = prefers_xor(data);
    let q = transition_coded(data, xor);
    disparity + disparity_step(xor, imbalance(q), disparity)
}

/// The byte that a data symbol carries: undo the inversion that bit 9
/// reports, then undo the chain that bit 8 names.
pub open spec fn decoded(symbol: u16) -> u8 {
    let low: u8 = (symbol & 0xff) as u8;
    let q: u8 = if symbol & 0x200 != 0 { low ^ 0xff } else { low };
    let chain: u8 = q ^ (q << 1);
    if symbol & 0x100 != 0 { chain } else { chain ^ 0xfe }
}

/// The number of places among bits 0..9 of `symbol` where a bit differs from
/// the next higher one.
pub open spec fn transitions(symbol: u16) -> int {
    let edges: u16 = (symbol ^ (symbol >> 1)) & 0x1ff;
    ((edges >> 0) & 1) + ((edges >> 1) & 1) + ((edges >> 2) & 1) + ((edges >> 3) & 1) + ((edges
        >> 4) & 1) + ((edges >> 5) & 1) + ((edges >> 6) & 1) + ((edges >> 7) & 1) + ((edges >> 8)
        & 1)
}

/// The control symbol for the pair `(c1, c0)`.
pub open spec fn control_symbol(c1: bool, c0: bool) -> u16 {
    if c1 {
        if c0 { 0b1101010101 } else { 0b0010101010 }
    } else {
        if c0 { 0b1101010100 } else { 0b0010101011 }
    }
}

/// A running disparity that a lane can reach from 0: even, and within 8 of
/// zero.
pub open spec fn balanced(disparity: int) -> bool {
    -8 <= disparity <= 8 && disparity % 2 == 0
}

/// The running disparity of a lane that started at 0 and sent `bytes` as data
/// symbols, first byte first.
pub open spec fn disparity_after(bytes: Seq<u8>) -> int
    decreases bytes.len(),
{
    if bytes.len() == 0 {
        0
    } else {
        next_disparity(bytes.last(), disparity_after(bytes.drop_last()))
    }
}

/// Extending the chain by bit `i` gives the low `i + 1` bits of the
/// transition-minimised byte.
proof fn lemma_chain_step(data: u8, xor: bool, encoded: u8, i: u8)
    by (bit_vector)
    requires
        1 <= i < 8,
        encoded == low_bits(transition_coded(data, xor), i),
    ensures
        (encoded | ((bit_of(encoded, (i - 1) as u8) ^ bit_of(data, i) ^ (if xor {
            0u8
        } else {
            1u8
        })) << i)) == low_bits(transition_coded(data, xor), (i + 1) as u8),
{
}

proof fn lemma_chain_ends(data: u8, xor: bool)
    by (bit_vector)
    ensures
        bit_of(data, 0) == low_bits(transition_coded(data, xor), 1),
        low_bits(transition_coded(data, xor), 8) == transition_coded(data, xor),
{
}

proof fn lemma_decode_assembled(data: u8, xor: bool, inverted: bool)
    by (bit_vector)
    ensures
        decoded(assemble(transition_coded(data, xor), xor, inverted)) == data,
        assemble(transition_coded(data, xor), xor, inverted) < 1024,
{
}

proof fn lemma_assembled_transitions(data: u8, inverted: bool)
    by (bit_vector)
    ensures
        transitions(assemble(transition_coded(data, prefers_xor(data)), prefers_xor(data), inverted))
            <= 5,
{
}

proof fn lemma_control_transitions()
    by (bit_vector)
    ensures
        transitions(0b0010101011) == 7,
        transitions(0b1101010100) == 7,
        transitions(0b0010101010) == 8,
        transitions(0b1101010101) == 8,
{
}

proof fn lemma_ones_range(data: u8)
    by (bit_vector)
    ensures
        0 <= ones(data) <= 8,
{
}

/// Decoding a data symbol gives back the byte that was encoded, whatever the
/// lane's running disparity was.
pub proof fn lemma_round_trip(data: u8, disparity: int)
    ensures
        decoded(data_symbol(data, disparity)) == data,
{
    let xor = prefers_xor(data);
    let q = transition_coded(data, xor);
    lemma_decode_assembled(data, xor, inverts(xor, imbalance(q), disparity));
}

/// A data symbol has ten bits.
pub proof fn lemma_symbol_range(data: u8, disparity: int)
    ensures
        data_symbol(data, disparity) < 1024,
{
    let xor = prefers_xor(data);
    let q = transition_coded(data, xor);
    lemma_decode_assembled(data, xor, inverts(xor, imbalance(q), disparity));
}

/// A control symbol has ten bits.
pub proof fn lemma_control_range(c1: bool, c0: bool)
    ensures
        control_symbol(c1, c0) < 1024,
{
}

/// A data symbol has at most five transitions among its ten bits.
pub proof fn lemma_transitions_bounded(data: u8, disparity: int)
    ensures
        transitions(data_symbol(data, disparity)) <= 5,
{
    let xor = prefers_xor(data);
    let q = transition_coded(data, xor);
    lemma_assembled_transitions(data, inverts(xor, imbalance(q), disparity));
}

/// A data symbol never moves the running disparity away from zero on the side
/// it is on: from a positive disparity it does not rise, from a negative one
/// it does not fall, and it moves by at most 10.
pub proof fn lemma_disparity_steers(data: u8, disparity: int)
    ensures
        disparity > 0 ==> disparity - 10 <= next_disparity(data, disparity) <= disparity,
        disparity < 0 ==> disparity <= next_disparity(data, disparity) <= disparity + 10,
        disparity == 0 ==> -8 <= next_disparity(data, disparity) <= 8,
{
    lemma_ones_range(transition_coded(data, prefers_xor(data)));
}

/// A balanced lane stays balanced over a data symbol.
pub proof fn lemma_balance_kept(data: u8, disparity: int)
    requires
        balanced(disparity),
    ensures
        balanced(next_disparity(data, disparity)),
{
    lemma_ones_range(transition_coded(data, prefers_xor(data)));
}

/// DC balance: on a lane that starts at 0, the running disparity after any
/// sequence of data bytes is even and within 8 of zero.
pub proof fn lemma_running_disparity_bounded(bytes: Seq<u8>)
    ensures
        balanced(disparity_after(bytes)),
    decreases bytes.len(),
{
    if bytes.len() > 0 {
        lemma_running_disparity_bounded(bytes.drop_last());
        lemma_balance_kept(bytes.last(), disparity_after(bytes.drop_last()));
    }
}

/// Encodes one data byte on a lane whose running disparity is `disparity`.
/// Returns the 10-bit symbol and the running disparity after it.
pub fn encode(data: u8, disparity: i32) -> (out: (u16, i32))
    ensures
        out.0 == data_symbol(data, disparity as int),
        out.1 == next_disparity(data, disparity as int),
        out.0 < 1024,
{
    let num_ones: u8 = count_bits(data);
    let using_xor: bool = num_ones < 4 || (num_ones == 4 && get_bit(data, 0) == 1);
    let flip: u8 = if using_xor { 0 } else { 1 };
    let mut encoded: u8 = get_bit(data, 0);
    let mut i: u8 = 1;
    proof {
        lemma_chain_ends(data, using_xor);
    }
    while i < 8
        invariant
            1 <= i <= 8,
            flip == (if using_xor { 0u8 } else { 1u8 }),
            encoded == low_bits(transition_coded(data, using_xor), i),
        decreases 8 - i,
    {
        let next: u8 = get_bit(encoded, i - 1) ^ get_bit(data, i) ^ flip;
        proof {
            lemma_chain_step(data, using_xor, encoded, i);
        }
        encoded = encoded | (next << i);
        i = i + 1;
    }
    let q_ones: u8 = count_bits(encoded);
    let imb: i32 = 2 * (q_ones as i32) - 8;
    let q8: i32 = if using_xor { 1 } else { 0 };
    let inverted: bool;
    let step: i32;
    if disparity == 0 || imb == 0 {
        inverted = !using_xor;
        step = if using_xor { imb } else { -imb };
    } else if (disparity > 0 && imb > 0) || (disparity < 0 && imb < 0) {
        inverted = true;
        step = 2 * q8 - imb;
    } else {
        inverted = false;
        step = 2 * (q8 - 1) + imb;
    }
    let low: u8 = if inverted { encoded ^ 0xff } else { encoded };
    let b8: u16 = if using_xor { 0x100 } else { 0 };
    let b9: u16 = if inverted { 0x200 } else { 0 };
    proof {
        lemma_decode_assembled(data, using_xor, inverted);
    }
    ((low as u16) | b8 | b9, disparity + step)
}

/// Recovers the data byte from a 10-bit data symbol.
pub fn decode(symbol: u16) -> (data: u8)
    ensures
        data == decoded(symbol),
{
    let low: u8 = (symbol & 0xff) as u8;
    let q: u8 = if symbol & 0x200 != 0 { low ^ 0xff } else { low };
    let chain: u8 = q ^ (q << 1);
    if symbol & 0x100 != 0 { chain } else { chain ^ 0xfe }
}

/// Manages a single TMDS pair: the levels last driven on its two pins, and
/// the running disparity of the data symbols sent on it.
pub struct TMDS {
    pin_nor: bool,
    pin_inv: bool,
    prev_disparity: i32,
}

impl TMDS {
    /// The level on the positive pin.
    pub closed spec fn positive(&self) -> bool {
        self.pin_nor
    }

    /// The level on the negative pin.
    pub closed spec fn negative(&self) -> bool {
        self.pin_inv
    }

    /// The running disparity: ones minus zeros over the data symbols sent
    /// since the lane was last reset.
    pub closed spec fn disparity(&self) -> int {
        self.prev_disparity as int
    }

    /// A lane with both pins low and no disparity.
    pub fn new() -> (lane: TMDS)
        ensures
            !lane.positive(),
            !lane.negative(),
            lane.disparity() == 0,
    {
        TMDS { pin_nor: false, pin_inv: false, prev_disparity: 0 }
    }

    /// Drives `bit` on the positive pin and its complement on the negative
    /// pin.
    pub fn set_bit(&mut self, bit: bool)
        ensures
            final(self).positive() == bit,
            final(self).negative() == !bit,
            final(self).disparity() == old(self).disparity(),
    {
        self.pin_nor = bit;
        self.pin_inv = !bit;
    }

    /// Inverts both pins.
    pub fn toggle(&mut self)
        ensures
            final(self).positive() == !old(self).positive(),
            final(self).negative() == !old(self).negative(),
            final(self).disparity() == old(self).disparity(),
    {
        self.pin_nor = !self.pin_nor;
        self.pin_inv = !self.pin_inv;
    }

    /// The level last driven on the positive pin.
    pub fn level(&self) -> (bit: bool)
        ensures
            bit == self.positive(),
    {
        self.pin_nor
    }

    /// The level last driven on the negative pin.
    pub fn level_inv(&self) -> (bit: bool)
        ensures
            bit == self.negative(),
    {
        self.pin_inv
    }

    /// The running disparity of the lane.
    pub fn running_disparity(&self) -> (disparity: i32)
        ensures
            disparity == self.disparity(),
    {
        self.prev_disparity
    }

    /// The fixed control symbol for the sync levels `c0` (horizontal) and
    /// `c1` (vertical). It has seven transitions where `c1` is low, and
    /// eight where it is high.
    pub fn encode_control_signal(c0: bool, c1: bool) -> (symbol: u16)
        ensures
            symbol == control_symbol(c1, c0),
            symbol < 1024,
            transitions(symbol) == (if c1 { 8int } else { 7int }),
    {
        proof {
            lemma_control_transitions();
        }
        match (c1, c0) {
            (false, false) => 0b0010101011,
            (false, true) => 0b1101010100,
            (true, false) => 0b0010101010,
            (true, true) => 0b1101010101,
        }
    }

    /// Emits a control symbol on this lane: returns the symbol for
    /// `(c1, c0)` and resets the running disparity to 0. The pins are left as
    /// they are.
    pub fn encode_control(&mut self, c0: bool, c1: bool) -> (symbol: u16)
        ensures
            symbol == control_symbol(c1, c0),
            final(self).disparity() == 0,
            final(self).positive() == old(self).positive(),
            final(self).negative() == old(self).negative(),
    {
        self.prev_disparity = 0;
        Self::encode_control_signal(c0, c1)
    }

    /// Encodes one data byte on this lane: returns its 10-bit symbol and
    /// moves the running disparity on. The pins are left as they are.
    pub fn encode_tmds(&mut self, data: u8) -> (symbol: u16)
        ensures
            symbol == data_symbol(data, old(self).disparity()),
            symbol < 1024,
            decoded(symbol) == data,
            transitions(symbol) <= 5,
            final(self).disparity() == next_disparity(data, old(self).disparity()),
            balanced(old(self).disparity()) ==> balanced(final(self).disparity()),
            final(self).positive() == old(self).positive(),
            final(self).negative() == old(self).negative(),
    {
        proof {
            lemma_round_trip(data, self.disparity());
            lemma_transitions_bounded(data, self.disparity());
            if balanced(self.disparity()) {
                lemma_balance_kept(data, self.disparity());
            }
        }
        let (symbol, disparity) = encode(data, self.prev_disparity);
        self.prev_disparity = disparity;
        symbol
    }
}

} // verus!
