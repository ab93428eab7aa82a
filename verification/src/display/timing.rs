//! Video timing: the geometry of a mode, the regions of its frame, and how
//! many slots of a frame fall in each.

use vstd::prelude::*;

verus! {

/// The geometry of a video mode, in pixel clocks per line and lines per
/// frame, with the sync polarities and the pixel clock.
#[derive(Debug, Copy, Clone, PartialEq, Eq, Structural)]
pub struct TimingProfile {
    pub h_active: u16,
    pub h_front: u16,
    pub h_sync: u16,
    pub h_back: u16,
    pub v_active: u16,
    pub v_front: u16,
    pub v_sync: u16,
    pub v_back: u16,
    /// Whether horizontal sync has negative polarity: the level `C0` is low
    /// while the sync is on, and high while it is off. It is XOR-ed with
    /// "horizontal sync is on" to give `C0`.
    pub hsync_polarity: bool,
    /// Whether vertical sync has negative polarity; XOR-ed with "vertical
    /// sync is on" to give the level `C1`.
    pub vsync_polarity: bool,
    pub pixel_clock_hz: u32,
}

/// Why a timing profile is refused.
#[derive(Debug, Copy, Clone, PartialEq, Eq, Structural)]
pub enum ConfigError {
    /// The active area has no columns or no lines.
    EmptyActiveArea,
    /// The pixel clock is zero.
    ZeroPixelClock,
}

impl TimingProfile {
    /// Pixel clocks per scanline.
    pub open spec fn h_total(&self) -> int {
        self.h_active + self.h_front + self.h_sync + self.h_back
    }

    /// Scanlines per frame.
    pub open spec fn v_total(&self) -> int {
        self.v_active + self.v_front + self.v_sync + self.v_back
    }

    /// Symbol slots per frame.
    pub open spec fn frame_slots(&self) -> int {
        self.h_total() * self.v_total()
    }

    /// A profile that the state machine accepts: it has an active area and a
    /// pixel clock.
    pub open spec fn valid(&self) -> bool {
        self.h_active > 0 && self.v_active > 0 && self.pixel_clock_hz > 0
    }

    pub open spec fn in_h_active(&self, x: int) -> bool {
        0 <= x < self.h_active
    }

    pub open spec fn in_v_active(&self, y: int) -> bool {
        0 <= y < self.v_active
    }

    /// Whether slot `(x, y)` carries a pixel.
    pub open spec fn active(&self, x: int, y: int) -> bool {
        self.in_h_active(x) && self.in_v_active(y)
    }

    pub open spec fn h_sync_on(&self, x: int) -> bool {
        self.h_active + self.h_front <= x < self.h_active + self.h_front + self.h_sync
    }

    pub open spec fn v_sync_on(&self, y: int) -> bool {
        self.v_active + self.v_front <= y < self.v_active + self.v_front + self.v_sync
    }

    /// The level `C0` that a blanking slot in column `x` carries.
    pub open spec fn c0(&self, x: int) -> bool {
        self.h_sync_on(x) != self.hsync_polarity
    }

    /// The level `C1` that a blanking slot on line `y` carries.
    pub open spec fn c1(&self, y: int) -> bool {
        self.v_sync_on(y) != self.vsync_polarity
    }

    /// VGA 640x480 at 60 Hz: 800 pixel clocks per line, 525 lines per frame,
    /// 420 000 symbol slots per frame, with negative horizontal and positive
    /// vertical sync.
    pub fn vga_640x480_60() -> (profile: TimingProfile)
        ensures
            profile.valid(),
            profile.h_active == 640 && profile.h_front == 16 && profile.h_sync == 96
                && profile.h_back == 48,
            profile.v_active == 480 && profile.v_front == 10 && profile.v_sync == 2
                && profile.v_back == 33,
            profile.hsync_polarity && !profile.vsync_polarity,
            profile.pixel_clock_hz == 25_175_000,
            profile.h_total() == 800,
            profile.v_total() == 525,
            profile.frame_slots() == 420_000,
            profile.h_active * profile.v_active == 307_200,
    {
        TimingProfile {
            h_active: 640,
            h_front: 16,
            h_sync: 96,
            h_back: 48,
            v_active: 480,
            v_front: 10,
            v_sync: 2,
            v_back: 33,
            hsync_polarity: true,
            vsync_polarity: false,
            pixel_clock_hz: 25_175_000,
        }
    }

    /// What `check` answers: an empty active area is reported first, then a
    /// pixel clock of zero.
    pub open spec fn check_spec(&self) -> Result<(), ConfigError> {
        if self.h_active == 0 || self.v_active == 0 {
            Err(ConfigError::EmptyActiveArea)
        } else if self.pixel_clock_hz == 0 {
            Err(ConfigError::ZeroPixelClock)
        } else {
            Ok(())
        }
    }

    /// Checks the profile: `Ok` exactly when it is valid, else the reason.
    pub fn check(&self) -> (result: Result<(), ConfigError>)
        ensures
            result == self.check_spec(),
            result is Ok <==> self.valid(),
    {
        if self.h_active == 0 || self.v_active == 0 {
            Err(ConfigError::EmptyActiveArea)
        } else if self.pixel_clock_hz == 0 {
            Err(ConfigError::ZeroPixelClock)
        } else {
            Ok(())
        }
    }

    /// Pixel clocks per scanline.
    pub fn line_length(&self) -> (n: u32)
        ensures
            n == self.h_total(),
    {
        self.h_active as u32 + self.h_front as u32 + self.h_sync as u32 + self.h_back as u32
    }

    /// Scanlines per frame.
    pub fn frame_lines(&self) -> (n: u32)
        ensures
            n == self.v_total(),
    {
        self.v_active as u32 + self.v_front as u32 + self.v_sync as u32 + self.v_back as u32
    }

    /// Whether slot `(x, y)` carries a pixel.
    pub fn is_active(&self, x: u32, y: u32) -> (b: bool)
        ensures
            b == self.active(x as int, y as int),
    {
        x < self.h_active as u32 && y < self.v_active as u32
    }

    /// Whether horizontal sync is on in column `x`.
    pub fn is_h_sync(&self, x: u32) -> (b: bool)
        ensures
            b == self.h_sync_on(x as int),
    {
        let start: u32 = self.h_active as u32 + self.h_front as u32;
        start <= x && x < start + self.h_sync as u32
    }

    /// Whether vertical sync is on on line `y`.
    pub fn is_v_sync(&self, y: u32) -> (b: bool)
        ensures
            b == self.v_sync_on(y as int),
    {
        let start: u32 = self.v_active as u32 + self.v_front as u32;
        start <= y && y < start + self.v_sync as u32
    }
}

/// The number of `i` with `0 <= i < n` for which `f(i)` holds.
pub open spec fn count(f: spec_fn(int) -> bool, n: nat) -> nat
    decreases n,
{
    if n == 0 {
        0
    } else {
        count(f, (n - 1) as nat) + (if f(n - 1) { 1nat } else { 0nat })
    }
}

/// Where `f` holds exactly on `lo <= i < hi`, it holds `hi - lo` times
/// below any `n` from `hi` on.
pub proof fn lemma_count_interval(f: spec_fn(int) -> bool, lo: int, hi: int, n: nat)
    requires
        0 <= lo <= hi <= n,
        forall|i: int| 0 <= i < n ==> (#[trigger] f(i) <==> lo <= i < hi),
    ensures
        count(f, n) == hi - lo,
    decreases n,
{
    if n > 0 {
        if hi == n {
            if lo == hi {
                lemma_count_interval(f, (n - 1) as int, (n - 1) as int, (n - 1) as nat);
            } else {
                lemma_count_interval(f, lo, hi - 1, (n - 1) as nat);
            }
        } else {
            lemma_count_interval(f, lo, hi, (n - 1) as nat);
        }
    }
}

/// Counting up to `a + b` is counting up to `a`, and then `b` further from
/// `a` on.
pub proof fn lemma_count_split(f: spec_fn(int) -> bool, g: spec_fn(int) -> bool, a: nat, b: nat)
    requires
        forall|j: int| 0 <= j < b ==> (#[trigger] g(j) <==> f(a + j)),
    ensures
        count(f, a + b) == count(f, a) + count(g, b),
    decreases b,
{
    if b > 0 {
        lemma_count_split(f, g, a, (b - 1) as nat);
    }
}

impl TimingProfile {
    /// Whether the slot with index `i`, counted along the lines from the
    /// start of the frame, carries a pixel.
    pub open spec fn active_slot(&self) -> spec_fn(int) -> bool {
        |i: int| self.active(i % self.h_total(), i / self.h_total())
    }

    /// Horizontal sync is on for `h_sync` pixel clocks of a line, one after
    /// the other from the end of the front porch on, and they all lie on the
    /// line.
    pub proof fn lemma_h_sync_slots(&self)
        ensures
            count(|x: int| self.h_sync_on(x), self.h_total() as nat) == self.h_sync,
            forall|x: int|
                self.h_sync_on(x) <==> self.h_active + self.h_front <= x < self.h_active
                    + self.h_front + self.h_sync,
            forall|x: int| self.h_sync_on(x) ==> 0 <= x < self.h_total(),
    {
        let start = self.h_active + self.h_front;
        lemma_count_interval(
            |x: int| self.h_sync_on(x),
            start,
            start + self.h_sync,
            self.h_total() as nat,
        );
    }

    /// Vertical sync is on for `v_sync` lines of a frame, one after the
    /// other from the end of the front porch on, and they all lie in the
    /// frame.
    pub proof fn lemma_v_sync_lines(&self)
        ensures
            count(|y: int| self.v_sync_on(y), self.v_total() as nat) == self.v_sync,
            forall|y: int|
                self.v_sync_on(y) <==> self.v_active + self.v_front <= y < self.v_active
                    + self.v_front + self.v_sync,
            forall|y: int| self.v_sync_on(y) ==> 0 <= y < self.v_total(),
    {
        let start = self.v_active + self.v_front;
        lemma_count_interval(
            |y: int| self.v_sync_on(y),
            start,
            start + self.v_sync,
            self.v_total() as nat,
        );
    }

    /// Of the slots of the first `lines` lines, `h_active` carry a pixel on
    /// each line that is active.
    proof fn lemma_active_in_lines(&self, lines: nat)
        requires
            self.valid(),
            lines <= self.v_total(),
        ensures
            count(self.active_slot(), (lines * self.h_total()) as nat) == (if lines
                <= self.v_active {
                lines * self.h_active
            } else {
                self.v_active * self.h_active
            }),
        decreases lines,
    {
        let h = self.h_total();
        let f = self.active_slot();
        if lines == 0 {
            assert(0 * h == 0);
        } else {
            let y = (lines - 1) as nat;
            self.lemma_active_in_lines(y);
            let g = |j: int| self.active(j, y as int);
            assert(lines * h == y * h + h) by (nonlinear_arith)
                requires
                    lines == y + 1,
            ;
            assert(0 <= y * h) by (nonlinear_arith)
                requires
                    0 <= y,
                    0 <= h,
            ;
            assert forall|j: int| 0 <= j < h implies (#[trigger] g(j) <==> f(y * h + j)) by {
                vstd::arithmetic::div_mod::lemma_fundamental_div_mod_converse(
                    y * h + j,
                    h,
                    y as int,
                    j,
                );
            }
            lemma_count_split(f, g, (y * h) as nat, h as nat);
            if y < self.v_active {
                lemma_count_interval(g, 0, self.h_active as int, h as nat);
                assert(lines * self.h_active == y * self.h_active + self.h_active)
                    by (nonlinear_arith)
                    requires
                        lines == y + 1,
                ;
            } else {
                lemma_count_interval(g, 0, 0, h as nat);
            }
        }
    }

    /// Of the slots of a frame, `h_active * v_active` carry a pixel.
    pub proof fn lemma_active_slots(&self)
        requires
            self.valid(),
        ensures
            count(self.active_slot(), self.frame_slots() as nat) == self.h_active * self.v_active,
    {
        self.lemma_active_in_lines(self.v_total() as nat);
        assert(self.v_total() * self.h_total() == self.h_total() * self.v_total())
            by (nonlinear_arith);
        assert(self.v_active * self.h_active == self.h_active * self.v_active)
            by (nonlinear_arith);
    }
}

} // verus!
