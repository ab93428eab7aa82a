//! The DVI frame state machine: for every bit time it decides what each of
//! the three data lanes and the clock lane carry.
//!
//! `tick`, `tick_frame` and `tick_scene` send one bit time and allocate
//! nothing: they are what firmware without a heap steps with. `tick_scene`
//! needs no frame buffer either: it shades each pixel as its slot begins.
//! The functions that send a slot, a line or a frame at once return the
//! levels of every bit time in a `Vec`, for a host to look at.

use crate::display::timing::{ConfigError, TimingProfile};
use crate::display::tmds::{
    balanced, control_symbol, data_symbol, decoded, lemma_balance_kept, lemma_round_trip,
    lemma_symbol_range, next_disparity, TMDS,
};
use crate::graphics::camera::{fragment, placed, Camera};
use crate::graphics::texture::Texture;
use crate::graphics::viewport::FrameBuffer;
use crate::math::Fixed;
use crate::model::{Face, Model, Vertex};
use crate::types::matrix::Mat4;
use crate::types::vector::Vec3;
use vstd::prelude::*;

verus! {

/// What the three data lanes carry during one symbol slot.
#[derive(Debug, Copy, Clone, PartialEq, Eq, Structural)]
pub struct LaneSymbols {
    pub red: u16,
    pub green: u16,
    pub blue: u16,
}

/// The levels on the positive pins of the four pairs.
#[derive(Debug, Copy, Clone, PartialEq, Eq, Structural)]
pub struct LinkLevels {
    pub red: bool,
    pub green: bool,
    pub blue: bool,
    pub clock: bool,
}

/// The state of the link between two bit times: the slot `(x, y)` and the
/// bit `k` that go out next, the running disparity of each data lane, the
/// symbols of the slot in progress, and the levels on the pins.
pub struct LinkState {
    pub x: int,
    pub y: int,
    pub k: u8,
    pub red: int,
    pub green: int,
    pub blue: int,
    pub symbols: LaneSymbols,
    pub levels: LinkLevels,
}

/// Bit `k` of a symbol, as a pin level.
pub open spec fn symbol_bit(symbol: u16, k: u8) -> bool {
    (symbol >> k) & 1 == 1
}

/// The link as a slot begins: in active video each lane encodes its channel
/// of `pixel` and moves its disparity on; in blanking all three lanes take
/// the control symbol for the sync levels of the slot, and their disparities
/// are reset.
pub open spec fn begin_slot(p: TimingProfile, s: LinkState, pixel: Vec3<u8>) -> LinkState {
    if p.active(s.x, s.y) {
        LinkState {
            red: next_disparity(pixel.x, s.red),
            green: next_disparity(pixel.y, s.green),
            blue: next_disparity(pixel.z, s.blue),
            symbols: LaneSymbols {
                red: data_symbol(pixel.x, s.red),
                green: data_symbol(pixel.y, s.green),
                blue: data_symbol(pixel.z, s.blue),
            },
            ..s
        }
    } else {
        let c = control_symbol(p.c1(s.y), p.c0(s.x));
        LinkState {
            red: 0,
            green: 0,
            blue: 0,
            symbols: LaneSymbols { red: c, green: c, blue: c },
            ..s
        }
    }
}

/// The slot that follows `(x, y)`: the next column, or the first column of
/// the next line, or the first slot of the next frame.
pub open spec fn next_slot(p: TimingProfile, x: int, y: int) -> (int, int) {
    if x + 1 < p.h_total() {
        (x + 1, y)
    } else if y + 1 < p.v_total() {
        (0, y + 1)
    } else {
        (0, 0)
    }
}

/// One bit time. At bit 0 the slot begins and the clock lane toggles; every
/// data lane then presents bit `k` of its symbol; after bit 5 the clock lane
/// toggles again; after bit 9 the next slot is up.
pub open spec fn step(p: TimingProfile, s: LinkState, pixel: Vec3<u8>) -> LinkState {
    let t = if s.k == 0 { begin_slot(p, s, pixel) } else { s };
    let levels = LinkLevels {
        red: symbol_bit(t.symbols.red, t.k),
        green: symbol_bit(t.symbols.green, t.k),
        blue: symbol_bit(t.symbols.blue, t.k),
        clock: if t.k == 0 || t.k == 5 { !t.levels.clock } else { t.levels.clock },
    };
    if t.k < 9 {
        LinkState { k: (t.k + 1) as u8, levels: levels, ..t }
    } else {
        let (x, y) = next_slot(p, t.x, t.y);
        LinkState { x: x, y: y, k: 0, levels: levels, ..t }
    }
}

/// The link after `n` bit times, where the slot `(x, y)` is offered the
/// pixel `source(x, y)`.
pub open spec fn run(
    p: TimingProfile,
    s: LinkState,
    source: spec_fn(int, int) -> Vec3<u8>,
    n: nat,
) -> LinkState
    decreases n,
{
    if n == 0 {
        s
    } else {
        let before = run(p, s, source, (n - 1) as nat);
        step(p, before, source(before.x, before.y))
    }
}

/// The levels on the pins after each of the first `n` bit times of a run.
pub open spec fn trace(
    p: TimingProfile,
    s: LinkState,
    source: spec_fn(int, int) -> Vec3<u8>,
    n: nat,
) -> Seq<LinkLevels> {
    Seq::new(n, |i: int| run(p, s, source, (i + 1) as nat).levels)
}

/// The source that offers the same pixel everywhere.
pub open spec fn constant(pixel: Vec3<u8>) -> spec_fn(int, int) -> Vec3<u8> {
    |x: int, y: int| pixel
}

/// The pixel offered where none is taken up.
pub open spec fn black() -> Vec3<u8> {
    Vec3 { x: 0, y: 0, z: 0 }
}

/// The source that offers the pixels of a raster of width `w`, row by row,
/// and black outside it.
pub open spec fn raster(pixels: Seq<Vec3<u8>>, w: int, h: int) -> spec_fn(int, int) -> Vec3<u8> {
    |x: int, y: int|
        if 0 <= x < w && 0 <= y < h && y * w + x < pixels.len() {
            pixels[y * w + x]
        } else {
            black()
        }
}

/// The source that offers what a camera with a `w` by `h` raster sees of a
/// placed model: the colour of the pixel at each place of the raster, and
/// black outside it.
pub open spec fn scene(
    faces: Seq<Face>,
    verts: Seq<Vertex>,
    texture: Texture<16, 16>,
    w: int,
    h: int,
) -> spec_fn(int, int) -> Vec3<u8> {
    |x: int, y: int|
        if 0 <= x < w && 0 <= y < h {
            fragment(faces, verts, texture, x, y, w, h)
        } else {
            black()
        }
}

/// The bit times left until the next line begins.
pub open spec fn ticks_to_line_end(p: TimingProfile, s: LinkState) -> int {
    (p.h_total() - s.x) * 10 - s.k
}

/// The bit times left until the next frame begins.
pub open spec fn ticks_to_frame_end(p: TimingProfile, s: LinkState) -> int {
    ((p.v_total() - s.y) * p.h_total() - s.x) * 10 - s.k
}

/// A state of the link that lies inside the frame of `p`.
pub open spec fn in_frame(p: TimingProfile, s: LinkState) -> bool {
    0 <= s.x < p.h_total() && 0 <= s.y < p.v_total() && s.k < 10
}

/// The number of bit times between the start of the frame and `s`.
pub open spec fn tick_index(p: TimingProfile, s: LinkState) -> int {
    (s.y * p.h_total() + s.x) * 10 + s.k
}

/// Bit times per frame.
pub open spec fn frame_ticks(p: TimingProfile) -> int {
    10 * p.frame_slots()
}

proof fn lemma_line_offsets(h: int, v: int, y: int)
    by (nonlinear_arith)
    requires
        0 < h,
        0 <= y < v,
    ensures
        (y + 1) * h == y * h + h,
        (y + 1) * h <= h * v,
        y + 1 == v ==> (y + 1) * h == h * v,
        0 <= y * h,
        y + 1 < v ==> (y + 1) * h + h <= h * v,
{
}

proof fn lemma_mod_successor(a: int, m: int)
    requires
        0 <= a,
        0 < m,
    ensures
        (a + 1) % m == (if a % m + 1 < m { a % m + 1 } else { 0 }),
{
    vstd::arithmetic::div_mod::lemma_fundamental_div_mod(a, m);
    assert(m * (a / m) == (a / m) * m) by (nonlinear_arith);
    if a % m + 1 < m {
        vstd::arithmetic::div_mod::lemma_fundamental_div_mod_converse(a + 1, m, a / m, a % m + 1);
    } else {
        assert(m * (a / m) + m == (a / m + 1) * m) by (nonlinear_arith);
        vstd::arithmetic::div_mod::lemma_fundamental_div_mod_converse(a + 1, m, a / m + 1, 0);
    }
}

/// One bit time moves the link to the next bit time of the frame, and from
/// the last one to the first.
pub proof fn lemma_step_position(p: TimingProfile, s: LinkState, pixel: Vec3<u8>)
    requires
        p.valid(),
        in_frame(p, s),
    ensures
        in_frame(p, step(p, s, pixel)),
        0 <= tick_index(p, s) < frame_ticks(p),
        tick_index(p, step(p, s, pixel)) == (if tick_index(p, s) + 1 < frame_ticks(p) {
            tick_index(p, s) + 1
        } else {
            0
        }),
{
    let h = p.h_total();
    let v = p.v_total();
    let t = step(p, s, pixel);
    lemma_line_offsets(h, v, s.y);
    if s.k < 9 {
        // the next bit of the same slot
        assert(t.x == s.x && t.y == s.y && t.k == s.k + 1);
    } else if s.x + 1 < h {
        // the next slot of the same line
        assert(t.x == s.x + 1 && t.y == s.y && t.k == 0);
    } else if s.y + 1 < v {
        // the first slot of the next line
        assert(t.x == 0 && t.y == s.y + 1 && t.k == 0);
        assert(t.y * h == s.y * h + h);
    } else {
        // the first slot of the next frame
        assert(t.x == 0 && t.y == 0 && t.k == 0);
        assert(t.y * h == 0) by (nonlinear_arith)
            requires
                t.y == 0,
        ;
        assert(tick_index(p, s) + 1 == frame_ticks(p));
    }
}

/// After `n` bit times the link is `n` bit times further on in the frame,
/// counted round the frame.
pub proof fn lemma_run_position(
    p: TimingProfile,
    s: LinkState,
    source: spec_fn(int, int) -> Vec3<u8>,
    n: nat,
)
    requires
        p.valid(),
        in_frame(p, s),
    ensures
        in_frame(p, run(p, s, source, n)),
        tick_index(p, run(p, s, source, n)) == (tick_index(p, s) + n) % frame_ticks(p),
    decreases n,
{
    lemma_step_position(p, s, black());
    if n == 0 {
        vstd::arithmetic::div_mod::lemma_small_mod(tick_index(p, s) as nat, frame_ticks(p) as nat);
    } else {
        let before = run(p, s, source, (n - 1) as nat);
        lemma_run_position(p, s, source, (n - 1) as nat);
        lemma_step_position(p, before, source(before.x, before.y));
        lemma_mod_successor(tick_index(p, s) + n - 1, frame_ticks(p));
    }
}

/// Two places in the frame that are equally many bit times from its start
/// are the same place.
pub proof fn lemma_position_unique(p: TimingProfile, a: LinkState, b: LinkState)
    requires
        p.valid(),
        in_frame(p, a),
        in_frame(p, b),
        tick_index(p, a) == tick_index(p, b),
    ensures
        a.x == b.x,
        a.y == b.y,
        a.k == b.k,
{
    let h = p.h_total();
    let sa = a.y * h + a.x;
    let sb = b.y * h + b.x;
    vstd::arithmetic::div_mod::lemma_fundamental_div_mod_converse(sa, h, a.y, a.x);
    vstd::arithmetic::div_mod::lemma_fundamental_div_mod_converse(sb, h, b.y, b.x);
}

/// A scanline takes ten bit times for each of its pixel clocks: after that
/// many the link is at the same column and bit of the next line, or of the
/// first line where the frame ends.
pub proof fn lemma_line_period(
    p: TimingProfile,
    s: LinkState,
    source: spec_fn(int, int) -> Vec3<u8>,
)
    requires
        p.valid(),
        in_frame(p, s),
    ensures
        ({
            let t = run(p, s, source, (10 * p.h_total()) as nat);
            &&& t.x == s.x
            &&& t.k == s.k
            &&& t.y == (if s.y + 1 < p.v_total() { s.y + 1 } else { 0 })
        }),
{
    let n = (10 * p.h_total()) as nat;
    let t = run(p, s, source, n);
    let h = p.h_total();
    lemma_run_position(p, s, source, n);
    lemma_line_offsets(h, p.v_total(), s.y);
    let expect = LinkState { y: next_line(p, s.y), ..s };
    if s.y + 1 < p.v_total() {
        vstd::arithmetic::div_mod::lemma_small_mod(
            (tick_index(p, s) + n) as nat,
            frame_ticks(p) as nat,
        );
    } else {
        assert(tick_index(p, s) + n == frame_ticks(p) + tick_index(p, expect)) by (nonlinear_arith)
            requires
                s.y + 1 == p.v_total(),
                n == 10 * h,
                expect.y == 0,
                expect.x == s.x,
                expect.k == s.k,
                tick_index(p, s) == (s.y * h + s.x) * 10 + s.k,
                tick_index(p, expect) == (expect.y * h + expect.x) * 10 + expect.k,
                frame_ticks(p) == 10 * (h * p.v_total()),
        ;
        vstd::arithmetic::div_mod::lemma_mod_add_multiples_vanish(
            tick_index(p, expect),
            frame_ticks(p),
        );
        vstd::arithmetic::div_mod::lemma_small_mod(
            tick_index(p, expect) as nat,
            frame_ticks(p) as nat,
        );
    }
    lemma_position_unique(p, t, expect);
}

/// The line after `y`, or the first line where the frame ends with `y`.
pub open spec fn next_line(p: TimingProfile, y: int) -> int {
    if y + 1 < p.v_total() {
        y + 1
    } else {
        0
    }
}

/// Running to the end of the line leaves the link at bit 0 of the first
/// slot of the next line.
pub proof fn lemma_line_end(p: TimingProfile, s: LinkState, source: spec_fn(int, int) -> Vec3<u8>)
    requires
        p.valid(),
        in_frame(p, s),
    ensures
        ticks_to_line_end(p, s) > 0,
        ({
            let t = run(p, s, source, ticks_to_line_end(p, s) as nat);
            t.x == 0 && t.k == 0 && t.y == next_line(p, s.y)
        }),
{
    let n = ticks_to_line_end(p, s) as nat;
    let t = run(p, s, source, n);
    let h = p.h_total();
    let f = frame_ticks(p);
    lemma_run_position(p, s, source, n);
    lemma_line_offsets(h, p.v_total(), s.y);
    let expect = LinkState { x: 0, y: next_line(p, s.y), k: 0, ..s };
    if s.y + 1 < p.v_total() {
        vstd::arithmetic::div_mod::lemma_small_mod((tick_index(p, s) + n) as nat, f as nat);
    } else {
        vstd::arithmetic::div_mod::lemma_mod_self_0(f);
    }
    lemma_position_unique(p, t, expect);
}

/// Running to the end of the frame leaves the link at bit 0 of the first
/// slot of the first line.
pub proof fn lemma_frame_end(p: TimingProfile, s: LinkState, source: spec_fn(int, int) -> Vec3<u8>)
    requires
        p.valid(),
        in_frame(p, s),
    ensures
        ticks_to_frame_end(p, s) > 0,
        ({
            let t = run(p, s, source, ticks_to_frame_end(p, s) as nat);
            t.x == 0 && t.k == 0 && t.y == 0
        }),
{
    let n = ticks_to_frame_end(p, s) as nat;
    let t = run(p, s, source, n);
    let h = p.h_total();
    let v = p.v_total();
    let f = frame_ticks(p);
    lemma_line_offsets(h, v, s.y);
    assert((v - s.y) * h == h * v - s.y * h) by (nonlinear_arith);
    lemma_run_position(p, s, source, n);
    let expect = LinkState { x: 0, y: 0, k: 0, ..s };
    vstd::arithmetic::div_mod::lemma_mod_self_0(f);
    lemma_position_unique(p, t, expect);
}

/// A frame takes ten bit times for each of its symbol slots: after that many
/// the link is at the same place again, and not before.
pub proof fn lemma_frame_period(
    p: TimingProfile,
    s: LinkState,
    source: spec_fn(int, int) -> Vec3<u8>,
    n: nat,
)
    requires
        p.valid(),
        in_frame(p, s),
        0 < n <= frame_ticks(p),
    ensures
        ({
            let t = run(p, s, source, n);
            (t.x == s.x && t.y == s.y && t.k == s.k) <==> n == frame_ticks(p)
        }),
{
    let t = run(p, s, source, n);
    let f = frame_ticks(p);
    let i = tick_index(p, s);
    lemma_run_position(p, s, source, n);
    lemma_step_position(p, s, black());
    if n == f {
        vstd::arithmetic::div_mod::lemma_mod_add_multiples_vanish(i, f);
        vstd::arithmetic::div_mod::lemma_small_mod(i as nat, f as nat);
        lemma_position_unique(p, t, s);
    } else if i + n < f {
        vstd::arithmetic::div_mod::lemma_small_mod((i + n) as nat, f as nat);
    } else {
        vstd::arithmetic::div_mod::lemma_mod_add_multiples_vanish(i + n - f, f);
        vstd::arithmetic::div_mod::lemma_small_mod((i + n - f) as nat, f as nat);
    }
}

/// The levels during bit `i` of a slot whose symbols are `symbols`, where the
/// clock lane stood at `idle` before the slot: each data lane carries bit `i`
/// of its symbol, and the clock lane is away from `idle` for the first five
/// bits and back at it for the last five.
pub open spec fn slot_levels(symbols: LaneSymbols, idle: bool, i: u8) -> LinkLevels {
    LinkLevels {
        red: symbol_bit(symbols.red, i),
        green: symbol_bit(symbols.green, i),
        blue: symbol_bit(symbols.blue, i),
        clock: if i < 5 { !idle } else { idle },
    }
}

/// The link at the end of a slot that began in state `s` with `pixel` on
/// offer.
pub open spec fn after_slot(p: TimingProfile, s: LinkState, pixel: Vec3<u8>) -> LinkState {
    let t = begin_slot(p, s, pixel);
    LinkState {
        x: next_slot(p, s.x, s.y).0,
        y: next_slot(p, s.x, s.y).1,
        k: 0,
        levels: slot_levels(t.symbols, s.levels.clock, 9),
        ..t
    }
}

proof fn lemma_within_slot(p: TimingProfile, s: LinkState, pixel: Vec3<u8>, i: nat)
    requires
        s.k == 0,
        1 <= i <= 10,
    ensures
        run(p, s, constant(pixel), i) == (if i < 10 {
            LinkState {
                k: i as u8,
                levels: slot_levels(begin_slot(p, s, pixel).symbols, s.levels.clock, (i - 1) as u8),
                ..begin_slot(p, s, pixel)
            }
        } else {
            after_slot(p, s, pixel)
        }),
    decreases i,
{
    if i > 1 {
        lemma_within_slot(p, s, pixel, (i - 1) as nat);
    } else {
        assert(run(p, s, constant(pixel), 0) == s);
    }
}

/// One slot, bit by bit: from bit 0, ten bit times with `pixel` on offer
/// carry the slot's symbols bit 0 first, with one full clock cycle, and end
/// at bit 0 of the next slot.
pub proof fn lemma_slot(p: TimingProfile, s: LinkState, pixel: Vec3<u8>)
    requires
        s.k == 0,
    ensures
        run(p, s, constant(pixel), 10) == after_slot(p, s, pixel),
        forall|i: int|
            0 <= i < 10 ==> #[trigger] trace(p, s, constant(pixel), 10)[i] == slot_levels(
                begin_slot(p, s, pixel).symbols,
                s.levels.clock,
                i as u8,
            ),
{
    lemma_within_slot(p, s, pixel, 10);
    assert forall|i: int| 0 <= i < 10 implies #[trigger] trace(p, s, constant(pixel), 10)[i]
        == slot_levels(begin_slot(p, s, pixel).symbols, s.levels.clock, i as u8) by {
        lemma_within_slot(p, s, pixel, (i + 1) as nat);
    }
}

/// The value of one received bit: `1 << i` for a high level.
pub open spec fn bit_value(level: bool, i: u16) -> u16 {
    if level {
        1u16 << i
    } else {
        0
    }
}

/// The symbol that ten levels spell, the first being bit 0.
pub open spec fn gathered(
    b0: bool,
    b1: bool,
    b2: bool,
    b3: bool,
    b4: bool,
    b5: bool,
    b6: bool,
    b7: bool,
    b8: bool,
    b9: bool,
) -> u16 {
    bit_value(b0, 0) | bit_value(b1, 1) | bit_value(b2, 2) | bit_value(b3, 3) | bit_value(b4, 4)
        | bit_value(b5, 5) | bit_value(b6, 6) | bit_value(b7, 7) | bit_value(b8, 8) | bit_value(
        b9,
        9,
    )
}

/// The symbols that the ten bit times from `at` on spell on the three data
/// lanes of a trace.
pub open spec fn received(tr: Seq<LinkLevels>, at: int) -> LaneSymbols {
    LaneSymbols {
        red: gathered(
            tr[at].red,
            tr[at + 1].red,
            tr[at + 2].red,
            tr[at + 3].red,
            tr[at + 4].red,
            tr[at + 5].red,
            tr[at + 6].red,
            tr[at + 7].red,
            tr[at + 8].red,
            tr[at + 9].red,
        ),
        green: gathered(
            tr[at].green,
            tr[at + 1].green,
            tr[at + 2].green,
            tr[at + 3].green,
            tr[at + 4].green,
            tr[at + 5].green,
            tr[at + 6].green,
            tr[at + 7].green,
            tr[at + 8].green,
            tr[at + 9].green,
        ),
        blue: gathered(
            tr[at].blue,
            tr[at + 1].blue,
            tr[at + 2].blue,
            tr[at + 3].blue,
            tr[at + 4].blue,
            tr[at + 5].blue,
            tr[at + 6].blue,
            tr[at + 7].blue,
            tr[at + 8].blue,
            tr[at + 9].blue,
        ),
    }
}

proof fn lemma_gathered(symbol: u16)
    by (bit_vector)
    requires
        symbol < 1024,
    ensures
        gathered(
            symbol_bit(symbol, 0),
            symbol_bit(symbol, 1),
            symbol_bit(symbol, 2),
            symbol_bit(symbol, 3),
            symbol_bit(symbol, 4),
            symbol_bit(symbol, 5),
            symbol_bit(symbol, 6),
            symbol_bit(symbol, 7),
            symbol_bit(symbol, 8),
            symbol_bit(symbol, 9),
        ) == symbol,
{
}

/// Running `a` bit times and then `b` more is running `a + b`.
pub proof fn lemma_run_split(
    p: TimingProfile,
    s: LinkState,
    source: spec_fn(int, int) -> Vec3<u8>,
    a: nat,
    b: nat,
)
    ensures
        run(p, s, source, a + b) == run(p, run(p, s, source, a), source, b),
    decreases b,
{
    if b > 0 {
        lemma_run_split(p, s, source, a, (b - 1) as nat);
    }
}

/// Within one slot the source is asked at one place only: from bit 0, up to
/// ten bit times run as with the pixel of that place on offer throughout.
proof fn lemma_slot_source(
    p: TimingProfile,
    s: LinkState,
    source: spec_fn(int, int) -> Vec3<u8>,
    i: nat,
)
    requires
        s.k == 0,
        i <= 10,
    ensures
        run(p, s, source, i) == run(p, s, constant(source(s.x, s.y)), i),
    decreases i,
{
    if i > 0 {
        lemma_slot_source(p, s, source, (i - 1) as nat);
        if i > 1 {
            lemma_within_slot(p, s, source(s.x, s.y), (i - 1) as nat);
        }
    }
}

/// The levels of a slot inside a longer run: where the run has reached
/// bit 0 of a slot after `at` bit times, the ten that follow carry the
/// slot's symbols bit by bit.
proof fn lemma_slot_in_run(
    p: TimingProfile,
    s: LinkState,
    source: spec_fn(int, int) -> Vec3<u8>,
    at: nat,
    n: nat,
    i: nat,
)
    requires
        run(p, s, source, at).k == 0,
        at + 10 <= n,
        i < 10,
    ensures
        ({
            let here = run(p, s, source, at);
            trace(p, s, source, n)[(at + i) as int] == slot_levels(
                begin_slot(p, here, source(here.x, here.y)).symbols,
                here.levels.clock,
                i as u8,
            )
        }),
{
    let here = run(p, s, source, at);
    lemma_run_split(p, s, source, at, i + 1);
    lemma_slot_source(p, here, source, i + 1);
    lemma_within_slot(p, here, source(here.x, here.y), i + 1);
}

/// Ten levels that carry three symbols bit by bit spell those symbols.
proof fn lemma_received(tr: Seq<LinkLevels>, at: int, symbols: LaneSymbols, idle: bool)
    requires
        symbols.red < 1024,
        symbols.green < 1024,
        symbols.blue < 1024,
        tr[at] == slot_levels(symbols, idle, 0),
        tr[at + 1] == slot_levels(symbols, idle, 1),
        tr[at + 2] == slot_levels(symbols, idle, 2),
        tr[at + 3] == slot_levels(symbols, idle, 3),
        tr[at + 4] == slot_levels(symbols, idle, 4),
        tr[at + 5] == slot_levels(symbols, idle, 5),
        tr[at + 6] == slot_levels(symbols, idle, 6),
        tr[at + 7] == slot_levels(symbols, idle, 7),
        tr[at + 8] == slot_levels(symbols, idle, 8),
        tr[at + 9] == slot_levels(symbols, idle, 9),
    ensures
        received(tr, at) == symbols,
{
    lemma_gathered(symbols.red);
    lemma_gathered(symbols.green);
    lemma_gathered(symbols.blue);
}

/// The symbols of a slot have ten bits each, and decode, in active video,
/// to the channels of the pixel.
proof fn lemma_slot_symbols(p: TimingProfile, s: LinkState, pixel: Vec3<u8>)
    ensures
        ({
            let symbols = begin_slot(p, s, pixel).symbols;
            &&& symbols.red < 1024 && symbols.green < 1024 && symbols.blue < 1024
            &&& p.active(s.x, s.y) ==> decoded(symbols.red) == pixel.x && decoded(symbols.green)
                == pixel.y && decoded(symbols.blue) == pixel.z
            &&& !p.active(s.x, s.y) ==> symbols.red == control_symbol(p.c1(s.y), p.c0(s.x))
                && symbols.green == symbols.red && symbols.blue == symbols.red
        }),
{
    lemma_symbol_range(pixel.x, s.red);
    lemma_symbol_range(pixel.y, s.green);
    lemma_symbol_range(pixel.z, s.blue);
    lemma_round_trip(pixel.x, s.red);
    lemma_round_trip(pixel.y, s.green);
    lemma_round_trip(pixel.z, s.blue);
}

/// What the link sends in one slot of a run: where the run has reached
/// bit 0 of slot `(x, y)` after `at` bit times, the ten that follow spell,
/// in active video, three data symbols that decode to the three channels of
/// the pixel on offer there, and in blanking, on all three lanes, the
/// control symbol for the sync levels of the slot.
pub proof fn lemma_slot_received(
    p: TimingProfile,
    s: LinkState,
    source: spec_fn(int, int) -> Vec3<u8>,
    at: nat,
    n: nat,
)
    requires
        run(p, s, source, at).k == 0,
        at + 10 <= n,
    ensures
        ({
            let here = run(p, s, source, at);
            let got = received(trace(p, s, source, n), at as int);
            let pixel = source(here.x, here.y);
            &&& got == begin_slot(p, here, pixel).symbols
            &&& p.active(here.x, here.y) ==> decoded(got.red) == pixel.x && decoded(got.green)
                == pixel.y && decoded(got.blue) == pixel.z
            &&& !p.active(here.x, here.y) ==> got.red == control_symbol(
                p.c1(here.y),
                p.c0(here.x),
            ) && got.green == got.red && got.blue == got.red
        }),
{
    let here = run(p, s, source, at);
    let pixel = source(here.x, here.y);
    let symbols = begin_slot(p, here, pixel).symbols;
    let tr = trace(p, s, source, n);
    lemma_slot_in_run(p, s, source, at, n, 0);
    lemma_slot_in_run(p, s, source, at, n, 1);
    lemma_slot_in_run(p, s, source, at, n, 2);
    lemma_slot_in_run(p, s, source, at, n, 3);
    lemma_slot_in_run(p, s, source, at, n, 4);
    lemma_slot_in_run(p, s, source, at, n, 5);
    lemma_slot_in_run(p, s, source, at, n, 6);
    lemma_slot_in_run(p, s, source, at, n, 7);
    lemma_slot_in_run(p, s, source, at, n, 8);
    lemma_slot_in_run(p, s, source, at, n, 9);
    lemma_slot_symbols(p, here, pixel);
    lemma_received(tr, at as int, symbols, here.levels.clock);
}

/// The bit time of a frame at which slot `(x, y)` begins.
pub open spec fn slot_tick(p: TimingProfile, x: int, y: int) -> int {
    10 * (y * p.h_total() + x)
}

/// What slot `(x, y)` must carry where `pixel` is on offer there: in active
/// video, data symbols that decode to the channels of `pixel`; in blanking,
/// on all three lanes, the control symbol for the sync levels of the slot.
pub open spec fn carries(
    p: TimingProfile,
    x: int,
    y: int,
    pixel: Vec3<u8>,
    got: LaneSymbols,
) -> bool {
    if p.active(x, y) {
        decoded(got.red) == pixel.x && decoded(got.green) == pixel.y && decoded(got.blue)
            == pixel.z
    } else {
        got.red == control_symbol(p.c1(y), p.c0(x)) && got.green == got.red && got.blue
            == got.red
    }
}

/// What the link sends in a frame: from the first bit of a frame, the ten
/// bit times from `slot_tick(x, y)` on belong to slot `(x, y)`, and spell
/// what that slot must carry.
pub proof fn lemma_frame_received(
    p: TimingProfile,
    s: LinkState,
    source: spec_fn(int, int) -> Vec3<u8>,
    x: int,
    y: int,
)
    requires
        p.valid(),
        s.x == 0 && s.y == 0 && s.k == 0,
        0 <= x < p.h_total(),
        0 <= y < p.v_total(),
    ensures
        0 <= slot_tick(p, x, y),
        slot_tick(p, x, y) + 10 <= frame_ticks(p),
        carries(
            p,
            x,
            y,
            source(x, y),
            received(trace(p, s, source, frame_ticks(p) as nat), slot_tick(p, x, y)),
        ),
{
    let h = p.h_total();
    let at = 10 * (y * h + x);
    let f = frame_ticks(p);
    lemma_line_offsets(h, p.v_total(), y);
    let here = run(p, s, source, at as nat);
    let expect = LinkState { x: x, y: y, k: 0, ..s };
    lemma_run_position(p, s, source, at as nat);
    vstd::arithmetic::div_mod::lemma_small_mod(at as nat, f as nat);
    lemma_position_unique(p, here, expect);
    lemma_slot_received(p, s, source, at as nat, f as nat);
}

/// The running disparity of each data lane is even and within 8 of zero.
pub open spec fn lanes_balanced(s: LinkState) -> bool {
    balanced(s.red) && balanced(s.green) && balanced(s.blue)
}

/// DC balance on the link: lanes that are balanced stay balanced over any
/// number of bit times, whatever pixels are on offer.
pub proof fn lemma_run_balanced(
    p: TimingProfile,
    s: LinkState,
    source: spec_fn(int, int) -> Vec3<u8>,
    n: nat,
)
    requires
        lanes_balanced(s),
    ensures
        lanes_balanced(run(p, s, source, n)),
    decreases n,
{
    if n > 0 {
        let before = run(p, s, source, (n - 1) as nat);
        let pixel = source(before.x, before.y);
        lemma_run_balanced(p, s, source, (n - 1) as nat);
        lemma_balance_kept(pixel.x, before.red);
        lemma_balance_kept(pixel.y, before.green);
        lemma_balance_kept(pixel.z, before.blue);
    }
}

/// From the first bit of a frame, the rest of the frame is the whole frame:
/// ten bit times for each of its symbol slots.
pub proof fn lemma_whole_frame(p: TimingProfile, s: LinkState)
    requires
        s.x == 0 && s.y == 0 && s.k == 0,
    ensures
        ticks_to_frame_end(p, s) == frame_ticks(p),
{
    assert(p.v_total() * p.h_total() == p.h_total() * p.v_total()) by (nonlinear_arith);
}

/// Sending a scene pixel by pixel offers what sending its rendered frame
/// offers: at every place, the scene of the placed model is the raster of
/// the rendering, where a frame holds the whole raster.
pub proof fn lemma_scene_is_rendering<const W: usize, const H: usize>(
    camera: Camera<W, H>,
    object: Model,
    model_transform: Mat4<Fixed>,
    x: int,
    y: int,
)
    ensures
        raster(camera.rendering(&object, model_transform), W as int, H as int)(x, y) == scene(
            object.triangles(),
            object.vertices().map_values(
                |v: Vertex| placed(model_transform, camera.view, camera.proj, v),
            ),
            camera.texture,
            W as int,
            H as int,
        )(x, y),
{
    if 0 <= x < W && 0 <= y < H {
        assert(0 <= y * W + x < W * H) by (nonlinear_arith)
            requires
                0 <= x < W,
                0 <= y < H,
        ;
        vstd::arithmetic::div_mod::lemma_fundamental_div_mod_converse(y * W + x, W as int, y, x);
    }
}

/// A pixel is taken up only at bit 0 of a slot in active video: at any other
/// bit time the link moves on alike whatever is on offer.
pub proof fn lemma_pixel_ignored(p: TimingProfile, s: LinkState, a: Vec3<u8>, b: Vec3<u8>)
    requires
        s.k != 0 || !p.active(s.x, s.y),
    ensures
        step(p, s, a) == step(p, s, b),
{
}

/// Represents a single set of three TMDS pairs with their clock pair, and
/// the place in the frame that goes out next.
pub struct DviInterface {
    pub red_link: TMDS,
    pub green_link: TMDS,
    pub blue_link: TMDS,
    pub clock: TMDS,
    profile: TimingProfile,
    x: u32,
    y: u32,
    k: u8,
    symbols: LaneSymbols,
}

impl View for DviInterface {
    type V = LinkState;

    closed spec fn view(&self) -> LinkState {
        LinkState {
            x: self.x as int,
            y: self.y as int,
            k: self.k,
            red: self.red_link.disparity(),
            green: self.green_link.disparity(),
            blue: self.blue_link.disparity(),
            symbols: self.symbols,
            levels: LinkLevels {
                red: self.red_link.positive(),
                green: self.green_link.positive(),
                blue: self.blue_link.positive(),
                clock: self.clock.positive(),
            },
        }
    }
}

impl DviInterface {
    /// The timing profile that the link runs.
    pub closed spec fn profile(&self) -> TimingProfile {
        self.profile
    }

    /// On each of the four pairs the negative pin carries the complement of
    /// the positive pin.
    pub closed spec fn differential(&self) -> bool {
        self.red_link.negative() != self.red_link.positive() && self.green_link.negative()
            != self.green_link.positive() && self.blue_link.negative() != self.blue_link.positive()
            && self.clock.negative() != self.clock.positive()
    }

    /// The profile is valid and the place that goes out next lies inside its
    /// frame.
    pub open spec fn wf(&self) -> bool {
        self.profile().valid() && in_frame(self.profile(), self@)
    }

    /// A link at the first bit of the first slot of a frame, with the data
    /// lanes low, the clock lane idle high, and no disparity. A profile that
    /// is not valid is refused with the reason.
    pub fn new(profile: TimingProfile) -> (result: Result<DviInterface, ConfigError>)
        ensures
            result is Ok <==> profile.valid(),
            result is Err ==> Err::<(), ConfigError>(result->Err_0) == profile.check_spec(),
            result is Ok ==> {
                let link = result->Ok_0;
                &&& link.wf()
                &&& link.differential()
                &&& link.profile() == profile
                &&& link@.x == 0 && link@.y == 0 && link@.k == 0
                &&& link@.red == 0 && link@.green == 0 && link@.blue == 0
                &&& lanes_balanced(link@)
                &&& link@.levels == (LinkLevels {
                    red: false,
                    green: false,
                    blue: false,
                    clock: true,
                })
            },
    {
        match profile.check() {
            Err(e) => Err(e),
            Ok(()) => {
                let mut red_link = TMDS::new();
                let mut green_link = TMDS::new();
                let mut blue_link = TMDS::new();
                let mut clock = TMDS::new();
                red_link.set_bit(false);
                green_link.set_bit(false);
                blue_link.set_bit(false);
                clock.set_bit(true);
                Ok(
                    DviInterface {
                        red_link,
                        green_link,
                        blue_link,
                        clock,
                        profile,
                        x: 0,
                        y: 0,
                        k: 0,
                        symbols: LaneSymbols { red: 0, green: 0, blue: 0 },
                    },
                )
            },
        }
    }

    /// The column of the slot that goes out next.
    pub fn x(&self) -> (x: u32)
        ensures
            x == self@.x,
    {
        self.x
    }

    /// The line of the slot that goes out next.
    pub fn y(&self) -> (y: u32)
        ensures
            y == self@.y,
    {
        self.y
    }

    /// The bit of the slot that goes out next.
    pub fn k(&self) -> (k: u8)
        ensures
            k == self@.k,
    {
        self.k
    }

    /// The timing profile that the link runs.
    pub fn timing(&self) -> (profile: TimingProfile)
        ensures
            profile == self.profile(),
    {
        self.profile
    }

    /// The symbols of the slot in progress.
    pub fn symbols(&self) -> (symbols: LaneSymbols)
        ensures
            symbols == self@.symbols,
    {
        self.symbols
    }

    /// The running disparities of the red, the green and the blue lane.
    pub fn disparities(&self) -> (d: (i32, i32, i32))
        ensures
            d.0 == self@.red,
            d.1 == self@.green,
            d.2 == self@.blue,
    {
        (
            self.red_link.running_disparity(),
            self.green_link.running_disparity(),
            self.blue_link.running_disparity(),
        )
    }

    /// The levels on the positive pins.
    pub fn levels(&self) -> (levels: LinkLevels)
        ensures
            levels == self@.levels,
    {
        LinkLevels {
            red: self.red_link.level(),
            green: self.green_link.level(),
            blue: self.blue_link.level(),
            clock: self.clock.level(),
        }
    }

    /// Whether the slot that goes out next carries a pixel.
    pub fn in_active_video(&self) -> (b: bool)
        ensures
            b == self.profile().active(self@.x, self@.y),
    {
        self.profile.is_active(self.x, self.y)
    }

    /// Sends one bit time: returns the levels now on the pins. `pixel` is
    /// taken up only at bit 0 of a slot in active video.
    pub fn tick(&mut self, pixel: Vec3<u8>) -> (levels: LinkLevels)
        requires
            old(self).wf(),
        ensures
            final(self).wf(),
            final(self).profile() == old(self).profile(),
            final(self)@ == step(old(self).profile(), old(self)@, pixel),
            levels == final(self)@.levels,
            old(self).differential() ==> final(self).differential(),
            lanes_balanced(old(self)@) ==> lanes_balanced(final(self)@),
    {
        if self.k == 0 {
            if self.profile.is_active(self.x, self.y) {
                let red: u16 = self.red_link.encode_tmds(pixel.x);
                let green: u16 = self.green_link.encode_tmds(pixel.y);
                let blue: u16 = self.blue_link.encode_tmds(pixel.z);
                self.symbols = LaneSymbols { red, green, blue };
            } else {
                let c0: bool = self.profile.is_h_sync(self.x) != self.profile.hsync_polarity;
                let c1: bool = self.profile.is_v_sync(self.y) != self.profile.vsync_polarity;
                let red: u16 = self.red_link.encode_control(c0, c1);
                let green: u16 = self.green_link.encode_control(c0, c1);
                let blue: u16 = self.blue_link.encode_control(c0, c1);
                self.symbols = LaneSymbols { red, green, blue };
            }
            self.clock.toggle();
        }
        let k: u8 = self.k;
        self.red_link.set_bit((self.symbols.red >> k) & 1 == 1);
        self.green_link.set_bit((self.symbols.green >> k) & 1 == 1);
        self.blue_link.set_bit((self.symbols.blue >> k) & 1 == 1);
        if k == 5 {
            self.clock.toggle();
        }
        if k < 9 {
            self.k = k + 1;
        } else {
            self.k = 0;
            if self.x + 1 < self.profile.line_length() {
                self.x = self.x + 1;
            } else {
                self.x = 0;
                if self.y + 1 < self.profile.frame_lines() {
                    self.y = self.y + 1;
                } else {
                    self.y = 0;
                }
            }
        }
        self.levels()
    }

    /// The bit times left until the next frame begins.
    fn frame_rest(&self) -> (n: u64)
        requires
            self.wf(),
        ensures
            n == ticks_to_frame_end(self.profile(), self@),
    {
        let lines: u64 = self.profile.frame_lines() as u64 - self.y as u64;
        let width: u64 = self.profile.line_length() as u64;
        assert(lines * width <= 0x4_0000 * 0x4_0000) by (nonlinear_arith)
            requires
                0 <= lines <= 0x4_0000,
                0 <= width <= 0x4_0000,
        ;
        assert(lines * width >= width) by (nonlinear_arith)
            requires
                lines >= 1,
                width >= 0,
        ;
        (lines * width - self.x as u64) * 10 - self.k as u64
    }

    /// Sends one bit time of a frame: as `tick`, with the pixel of `frame`
    /// at the slot that is up on offer, and black outside its raster.
    pub fn tick_frame<const W: usize, const H: usize>(&mut self, frame: &FrameBuffer<W, H>) -> (levels:
        LinkLevels)
        requires
            old(self).wf(),
        ensures
            final(self).wf(),
            final(self).profile() == old(self).profile(),
            final(self)@ == step(
                old(self).profile(),
                old(self)@,
                raster(frame.pixels(), W as int, H as int)(old(self)@.x, old(self)@.y),
            ),
            levels == final(self)@.levels,
            old(self).differential() ==> final(self).differential(),
            lanes_balanced(old(self)@) ==> lanes_balanced(final(self)@),
    {
        let x: usize = self.x as usize;
        let y: usize = self.y as usize;
        let mut pixel: Vec3<u8> = Vec3 { x: 0, y: 0, z: 0 };
        if self.k == 0 && self.profile.is_active(self.x, self.y) && x < W && y < H {
            assert(0 <= y * W <= 0xffff_ffff * 0xffff_ffff_ffff_ffff) by (nonlinear_arith)
                requires
                    0 <= y <= 0xffff_ffff,
                    0 <= W <= 0xffff_ffff_ffff_ffff,
            ;
            let place: u128 = (y as u128) * (W as u128) + (x as u128);
            if place < frame.len() as u128 {
                pixel = frame.get(x, y);
            }
        }
        proof {
            let offered = raster(frame.pixels(), W as int, H as int)(self@.x, self@.y);
            if offered != pixel {
                lemma_pixel_ignored(self.profile(), self@, offered, pixel);
            }
        }
        self.tick(pixel)
    }

    /// Sends one bit time of a scene: as `tick`, with the colour that the
    /// camera sees of the placed model at the slot that is up on offer, and
    /// black outside the camera's raster. The colour is worked out as the
    /// slot begins; no frame is held.
    pub fn tick_scene<const W: usize, const H: usize>(
        &mut self,
        camera: &Camera<W, H>,
        local: &Model,
    ) -> (levels: LinkLevels)
        requires
            old(self).wf(),
            local.wf(),
        ensures
            final(self).wf(),
            final(self).profile() == old(self).profile(),
            final(self)@ == step(
                old(self).profile(),
                old(self)@,
                scene(
                    local.triangles(),
                    local.vertices(),
                    camera.texture,
                    W as int,
                    H as int,
                )(old(self)@.x, old(self)@.y),
            ),
            levels == final(self)@.levels,
            old(self).differential() ==> final(self).differential(),
            lanes_balanced(old(self)@) ==> lanes_balanced(final(self)@),
    {
        let x: usize = self.x as usize;
        let y: usize = self.y as usize;
        let mut pixel: Vec3<u8> = Vec3 { x: 0, y: 0, z: 0 };
        if self.k == 0 && self.profile.is_active(self.x, self.y) && x < W && y < H {
            pixel = camera.colour_at(local, x, y);
        }
        proof {
            let offered = scene(
                local.triangles(),
                local.vertices(),
                camera.texture,
                W as int,
                H as int,
            )(self@.x, self@.y);
            if offered != pixel {
                lemma_pixel_ignored(self.profile(), self@, offered, pixel);
            }
        }
        self.tick(pixel)
    }

    /// Sends `n` bit times that are all offered `pixel`, and appends the
    /// levels after each to `out`.
    fn send(&mut self, pixel: Vec3<u8>, n: u64, out: &mut Vec<LinkLevels>)
        requires
            old(self).wf(),
        ensures
            final(self).wf(),
            final(self).profile() == old(self).profile(),
            final(self)@ == run(old(self).profile(), old(self)@, constant(pixel), n as nat),
            final(out)@ == old(out)@ + trace(
                old(self).profile(),
                old(self)@,
                constant(pixel),
                n as nat,
            ),
            old(self).differential() ==> final(self).differential(),
    {
        let ghost start = self@;
        let ghost p = self.profile();
        let ghost before = out@;
        let mut i: u64 = 0;
        while i < n
            invariant
                i <= n,
                self.wf(),
                self.profile() == p,
                self@ == run(p, start, constant(pixel), i as nat),
                out@ == before + trace(p, start, constant(pixel), i as nat),
                old(self).differential() ==> self.differential(),
            decreases n - i,
        {
            let levels = self.tick(pixel);
            out.push(levels);
            i = i + 1;
        }
    }

    /// Sends the ten bit times of one slot with `pixel` on offer, and returns
    /// the levels after each. In active video, from bit 0, that is the
    /// pixel's three data symbols, bit 0 first.
    pub fn render_pixel(&mut self, pixel: Vec3<u8>) -> (out: Vec<LinkLevels>)
        requires
            old(self).wf(),
        ensures
            final(self).wf(),
            final(self).profile() == old(self).profile(),
            final(self)@ == run(old(self).profile(), old(self)@, constant(pixel), 10),
            out@ == trace(old(self).profile(), old(self)@, constant(pixel), 10),
            out@.len() == 10,
            old(self)@.k == 0 ==> final(self)@ == after_slot(
                old(self).profile(),
                old(self)@,
                pixel,
            ),
            old(self)@.k == 0 ==> forall|i: int|
                0 <= i < 10 ==> #[trigger] out@[i] == slot_levels(
                    begin_slot(old(self).profile(), old(self)@, pixel).symbols,
                    old(self)@.levels.clock,
                    i as u8,
                ),
            old(self).differential() ==> final(self).differential(),
    {
        proof {
            if self@.k == 0 {
                lemma_slot(self.profile(), self@, pixel);
            }
        }
        let mut out: Vec<LinkLevels> = Vec::new();
        self.send(pixel, 10, &mut out);
        out
    }

    /// Sends the rest of the current frame with the pixels of `frame` in its
    /// active slots, and returns the levels after each bit time. Called at
    /// the start of a frame, that is one whole frame: every line of pixels
    /// with its horizontal blanking, and then the vertical blanking. Slots
    /// outside the raster of `frame` get black.
    pub fn send_frame<const W: usize, const H: usize>(&mut self, frame: &FrameBuffer<W, H>) -> (out:
        Vec<LinkLevels>)
        requires
            old(self).wf(),
        ensures
            final(self).wf(),
            final(self).profile() == old(self).profile(),
            final(self)@ == run(
                old(self).profile(),
                old(self)@,
                raster(frame.pixels(), W as int, H as int),
                ticks_to_frame_end(old(self).profile(), old(self)@) as nat,
            ),
            out@ == trace(
                old(self).profile(),
                old(self)@,
                raster(frame.pixels(), W as int, H as int),
                ticks_to_frame_end(old(self).profile(), old(self)@) as nat,
            ),
            out@.len() == ticks_to_frame_end(old(self).profile(), old(self)@),
            old(self)@.x == 0 && old(self)@.y == 0 && old(self)@.k == 0 ==> out@.len()
                == frame_ticks(old(self).profile()),
            old(self)@.x == 0 && old(self)@.y == 0 && old(self)@.k == 0 ==> forall|x: int, y: int|
                0 <= x < old(self).profile().h_total() && 0 <= y < old(self).profile().v_total()
                    ==> carries(
                    old(self).profile(),
                    x,
                    y,
                    raster(frame.pixels(), W as int, H as int)(x, y),
                    #[trigger] received(out@, slot_tick(old(self).profile(), x, y)),
                ),
            final(self)@.x == 0 && final(self)@.y == 0 && final(self)@.k == 0,
            old(self).differential() ==> final(self).differential(),
            lanes_balanced(old(self)@) ==> lanes_balanced(final(self)@),
    {
        let ghost source = raster(frame.pixels(), W as int, H as int);
        proof {
            if self@.x == 0 && self@.y == 0 && self@.k == 0 {
                lemma_whole_frame(self.profile(), self@);
                assert forall|x: int, y: int|
                    0 <= x < self.profile().h_total() && 0 <= y < self.profile().v_total() implies carries(
                    self.profile(),
                    x,
                    y,
                    source(x, y),
                    #[trigger] received(
                        trace(self.profile(), self@, source, frame_ticks(self.profile()) as nat),
                        slot_tick(self.profile(), x, y),
                    ),
                ) by {
                    lemma_frame_received(self.profile(), self@, source, x, y);
                }
            }
            if lanes_balanced(self@) {
                lemma_run_balanced(
                    self.profile(),
                    self@,
                    source,
                    ticks_to_frame_end(self.profile(), self@) as nat,
                );
            }
        }
        let ghost start = self@;
        let ghost p = self.profile();
        proof {
            lemma_frame_end(p, start, source);
        }
        let n: u64 = self.frame_rest();
        let mut out: Vec<LinkLevels> = Vec::new();
        let mut i: u64 = 0;
        while i < n
            invariant
                i <= n,
                self.wf(),
                self.profile() == p,
                source == raster(frame.pixels(), W as int, H as int),
                self@ == run(p, start, source, i as nat),
                out@ == trace(p, start, source, i as nat),
                old(self).differential() ==> self.differential(),
            decreases n - i,
        {
            let levels = self.tick_frame(frame);
            out.push(levels);
            i = i + 1;
        }
        out
    }

    /// Sends the rest of the current line, and returns the levels after each
    /// bit time. Called after the last pixel of a line, that is the
    /// horizontal blanking: front porch, sync pulse and back porch.
    pub fn end_row(&mut self) -> (out: Vec<LinkLevels>)
        requires
            old(self).wf(),
        ensures
            final(self).wf(),
            final(self).profile() == old(self).profile(),
            final(self)@ == run(
                old(self).profile(),
                old(self)@,
                constant(black()),
                ticks_to_line_end(old(self).profile(), old(self)@) as nat,
            ),
            out@ == trace(
                old(self).profile(),
                old(self)@,
                constant(black()),
                ticks_to_line_end(old(self).profile(), old(self)@) as nat,
            ),
            out@.len() == ticks_to_line_end(old(self).profile(), old(self)@),
            final(self)@.x == 0 && final(self)@.k == 0,
            final(self)@.y == next_line(old(self).profile(), old(self)@.y),
            old(self).differential() ==> final(self).differential(),
    {
        proof {
            lemma_line_end(self.profile(), self@, constant(black()));
        }
        let n: u64 = (self.profile.line_length() as u64 - self.x as u64) * 10 - self.k as u64;
        let mut out: Vec<LinkLevels> = Vec::new();
        self.send(Vec3 { x: 0, y: 0, z: 0 }, n, &mut out);
        out
    }

    /// Sends as many bit times as one line has, and returns the levels after
    /// each. Called at the start of a line of the vertical blanking, that is
    /// one blank line.
    pub fn end_line(&mut self) -> (out: Vec<LinkLevels>)
        requires
            old(self).wf(),
        ensures
            final(self).wf(),
            final(self).profile() == old(self).profile(),
            final(self)@ == run(
                old(self).profile(),
                old(self)@,
                constant(black()),
                (10 * old(self).profile().h_total()) as nat,
            ),
            out@ == trace(
                old(self).profile(),
                old(self)@,
                constant(black()),
                (10 * old(self).profile().h_total()) as nat,
            ),
            out@.len() == 10 * old(self).profile().h_total(),
            final(self)@.x == old(self)@.x && final(self)@.k == old(self)@.k,
            final(self)@.y == next_line(old(self).profile(), old(self)@.y),
            old(self).differential() ==> final(self).differential(),
    {
        proof {
            lemma_line_period(self.profile(), self@, constant(black()));
        }
        let n: u64 = self.profile.line_length() as u64 * 10;
        let mut out: Vec<LinkLevels> = Vec::new();
        self.send(Vec3 { x: 0, y: 0, z: 0 }, n, &mut out);
        out
    }

    /// Sends the rest of the current frame, and returns the levels after
    /// each bit time. Called after the last active line, that is the
    /// vertical blanking: front porch, sync pulse and back porch.
    pub fn end_frame(&mut self) -> (out: Vec<LinkLevels>)
        requires
            old(self).wf(),
        ensures
            final(self).wf(),
            final(self).profile() == old(self).profile(),
            final(self)@ == run(
                old(self).profile(),
                old(self)@,
                constant(black()),
                ticks_to_frame_end(old(self).profile(), old(self)@) as nat,
            ),
            out@ == trace(
                old(self).profile(),
                old(self)@,
                constant(black()),
                ticks_to_frame_end(old(self).profile(), old(self)@) as nat,
            ),
            out@.len() == ticks_to_frame_end(old(self).profile(), old(self)@),
            final(self)@.x == 0 && final(self)@.y == 0 && final(self)@.k == 0,
            old(self).differential() ==> final(self).differential(),
    {
        proof {
            lemma_frame_end(self.profile(), self@, constant(black()));
        }
        let n: u64 = self.frame_rest();
        let mut out: Vec<LinkLevels> = Vec::new();
        self.send(Vec3 { x: 0, y: 0, z: 0 }, n, &mut out);
        out
    }
}

} // verus!
