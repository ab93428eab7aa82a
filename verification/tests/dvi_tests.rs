use bitbang_dvi::display::dvi::{DviInterface, LinkLevels};
use bitbang_dvi::display::timing::{ConfigError, TimingProfile};
use bitbang_dvi::display::tmds::{decode, TMDS};
use bitbang_dvi::types::vector::Vec3;

fn small_profile() -> TimingProfile {
    TimingProfile {
        h_active: 4,
        h_front: 1,
        h_sync: 2,
        h_back: 1,
        v_active: 3,
        v_front: 1,
        v_sync: 1,
        v_back: 1,
        hsync_polarity: false,
        vsync_polarity: false,
        pixel_clock_hz: 1_000_000,
    }
}

fn symbol_of(levels: &[LinkLevels], lane: usize) -> u16 {
    let mut symbol = 0u16;
    for (i, l) in levels.iter().enumerate() {
        let bit = match lane {
            0 => l.red,
            1 => l.green,
            _ => l.blue,
        };
        if bit {
            symbol |= 1 << i;
        }
    }
    symbol
}

#[test]
fn vga_profile_has_the_vesa_numbers() {
    let p = TimingProfile::vga_640x480_60();
    assert_eq!(p.line_length(), 800);
    assert_eq!(p.frame_lines(), 525);
    assert_eq!((p.h_active, p.h_front, p.h_sync, p.h_back), (640, 16, 96, 48));
    assert_eq!((p.v_active, p.v_front, p.v_sync, p.v_back), (480, 10, 2, 33));
    assert_eq!(p.pixel_clock_hz, 25_175_000);
    assert!(p.hsync_polarity);
    assert!(!p.vsync_polarity);
    assert_eq!(p.check(), Ok(()));
}

#[test]
fn sync_levels_low_on_all_three_lanes() {
    // On the VGA profile, with negative horizontal and positive vertical
    // polarity, both levels are low during a horizontal sync pulse outside
    // the vertical sync.
    let p = TimingProfile::vga_640x480_60();
    let mut link = DviInterface::new(p).unwrap();
    let mut levels = Vec::new();
    for _ in 0..657 {
        levels = link.render_pixel(Vec3 { x: 0xaa, y: 0x55, z: 0x0f });
    }
    assert_eq!(link.x(), 657);
    assert!(p.is_h_sync(656) && !p.is_v_sync(0));
    assert_eq!(levels.len(), 10);
    for lane in 0..3 {
        assert_eq!(symbol_of(&levels, lane), 0b0010101011);
    }
    assert_eq!(link.red_link.running_disparity(), 0);
    assert_eq!(link.green_link.running_disparity(), 0);
    assert_eq!(link.blue_link.running_disparity(), 0);
}

#[test]
fn vga_control_symbols_by_region() {
    let p = TimingProfile::vga_640x480_60();
    let mut link = DviInterface::new(p).unwrap();
    let symbol_at = |link: &mut DviInterface, x: u32, y: u32| {
        while !(link.x() == x && link.y() == y && link.k() == 0) {
            if link.k() == 0 && link.x() == 0 && link.y() != y {
                link.end_line();
            } else {
                link.tick(Vec3 { x: 0, y: 0, z: 0 });
            }
        }
        link.render_pixel(Vec3 { x: 0, y: 0, z: 0 });
        link.symbols().red
    };
    // front porch of an active line: no sync
    assert_eq!(symbol_at(&mut link, 640, 0), 0b1101010100);
    // horizontal sync pulse
    assert_eq!(symbol_at(&mut link, 700, 0), 0b0010101011);
    // back porch
    assert_eq!(symbol_at(&mut link, 760, 0), 0b1101010100);
    // a line of the vertical sync: outside and inside the horizontal pulse
    assert_eq!(symbol_at(&mut link, 10, 490), 0b1101010101);
    assert_eq!(symbol_at(&mut link, 700, 491), 0b0010101010);
    // vertical back porch
    assert_eq!(symbol_at(&mut link, 0, 492), 0b1101010100);
}

#[test]
fn bad_profiles_are_refused() {
    let mut p = small_profile();
    p.h_active = 0;
    assert_eq!(p.check(), Err(ConfigError::EmptyActiveArea));
    assert!(matches!(DviInterface::new(p), Err(ConfigError::EmptyActiveArea)));
    let mut p = small_profile();
    p.v_active = 0;
    assert_eq!(p.check(), Err(ConfigError::EmptyActiveArea));
    let mut p = small_profile();
    p.pixel_clock_hz = 0;
    assert_eq!(p.check(), Err(ConfigError::ZeroPixelClock));
    assert!(matches!(DviInterface::new(p), Err(ConfigError::ZeroPixelClock)));
}

#[test]
fn link_starts_at_the_first_bit_with_clock_high() {
    let link = DviInterface::new(small_profile()).unwrap();
    assert_eq!((link.x(), link.y(), link.k()), (0, 0, 0));
    assert_eq!(
        link.levels(),
        LinkLevels { red: false, green: false, blue: false, clock: true }
    );
    assert!(link.in_active_video());
    assert!(link.clock.level() != link.clock.level_inv());
    assert!(link.red_link.level() != link.red_link.level_inv());
}

#[test]
fn frame_timing_of_vga() {
    let p = TimingProfile::vga_640x480_60();
    let mut link = DviInterface::new(p).unwrap();
    let mut slots: u64 = 0;
    let mut active: u64 = 0;
    let mut hsync_in_line_zero: u32 = 0;
    let mut hsync_run_start: Option<u32> = None;
    let mut vsync_lines: u32 = 0;
    let mut first_vsync_line: Option<u32> = None;
    let mut ticks: u64 = 0;
    loop {
        if link.k() == 0 {
            slots += 1;
            if link.in_active_video() {
                active += 1;
            }
            if link.y() == 0 && p.is_h_sync(link.x()) {
                if hsync_run_start.is_none() {
                    hsync_run_start = Some(link.x());
                }
                assert_eq!(link.x(), hsync_run_start.unwrap() + hsync_in_line_zero);
                hsync_in_line_zero += 1;
            }
            if link.x() == 0 && p.is_v_sync(link.y()) {
                if first_vsync_line.is_none() {
                    first_vsync_line = Some(link.y());
                }
                assert_eq!(link.y(), first_vsync_line.unwrap() + vsync_lines);
                vsync_lines += 1;
            }
        }
        link.tick(Vec3 { x: 1, y: 2, z: 3 });
        ticks += 1;
        if link.x() == 0 && link.y() == 0 && link.k() == 0 {
            break;
        }
    }
    assert_eq!(slots, 420_000);
    assert_eq!(active, 307_200);
    assert_eq!(hsync_in_line_zero, 96);
    assert_eq!(hsync_run_start, Some(656));
    assert_eq!(vsync_lines, 2);
    assert_eq!(first_vsync_line, Some(490));
    assert_eq!(ticks, 4_200_000);
}

#[test]
fn scanline_takes_eight_thousand_bits() {
    let mut link = DviInterface::new(TimingProfile::vga_640x480_60()).unwrap();
    let mut ticks = 0u32;
    loop {
        link.tick(Vec3 { x: 0, y: 0, z: 0 });
        ticks += 1;
        if link.x() == 0 && link.k() == 0 {
            break;
        }
    }
    assert_eq!(ticks, 8000);
    assert_eq!(link.y(), 1);
}

#[test]
fn control_symbol_on_all_three_lanes_in_blanking() {
    let mut link = DviInterface::new(small_profile()).unwrap();
    for _ in 0..4 {
        link.render_pixel(Vec3 { x: 0, y: 0, z: 0 });
    }
    assert!(!link.in_active_video());
    assert_ne!(link.red_link.running_disparity(), 0);
    // column 4 is front porch: neither sync is on, and neither polarity inverts
    let levels = link.render_pixel(Vec3 { x: 9, y: 9, z: 9 });
    assert_eq!(levels.len(), 10);
    for lane in 0..3 {
        assert_eq!(symbol_of(&levels, lane), 0b0010101011);
    }
    assert_eq!(link.symbols().red, 0b0010101011);
    assert_eq!(link.symbols().green, 0b0010101011);
    assert_eq!(link.symbols().blue, 0b0010101011);
    assert_eq!(link.red_link.running_disparity(), 0);
    assert_eq!(link.green_link.running_disparity(), 0);
    assert_eq!(link.blue_link.running_disparity(), 0);
}

#[test]
fn sync_levels_pick_the_control_symbol() {
    let mut p = small_profile();
    let mut link = DviInterface::new(p).unwrap();
    for _ in 0..4 {
        link.render_pixel(Vec3 { x: 0, y: 0, z: 0 });
    }
    link.render_pixel(Vec3 { x: 0, y: 0, z: 0 });
    // columns 5 and 6 carry horizontal sync
    let levels = link.render_pixel(Vec3 { x: 0, y: 0, z: 0 });
    assert_eq!(symbol_of(&levels, 0), TMDS::encode_control_signal(true, false));
    // with both polarities negative, the levels are inverted
    p.hsync_polarity = true;
    p.vsync_polarity = true;
    let mut link = DviInterface::new(p).unwrap();
    for _ in 0..5 {
        link.render_pixel(Vec3 { x: 0, y: 0, z: 0 });
    }
    assert_eq!(link.symbols().red, TMDS::encode_control_signal(true, true));
    link.render_pixel(Vec3 { x: 0, y: 0, z: 0 });
    assert_eq!(link.symbols().red, TMDS::encode_control_signal(false, true));
}

#[test]
fn vertical_sync_line_carries_c1() {
    let p = small_profile();
    let mut link = DviInterface::new(p).unwrap();
    for _ in 0..4 {
        link.end_line();
    }
    assert_eq!((link.x(), link.y(), link.k()), (0, 4, 0));
    assert!(p.is_v_sync(4));
    link.render_pixel(Vec3 { x: 0, y: 0, z: 0 });
    assert_eq!(link.symbols().red, TMDS::encode_control_signal(false, true));
    for _ in 0..4 {
        link.render_pixel(Vec3 { x: 0, y: 0, z: 0 });
    }
    link.render_pixel(Vec3 { x: 0, y: 0, z: 0 });
    assert_eq!(link.symbols().blue, TMDS::encode_control_signal(true, true));
}

#[test]
fn render_pixel_sends_the_three_channels_bit_zero_first() {
    let mut link = DviInterface::new(small_profile()).unwrap();
    let levels = link.render_pixel(Vec3 { x: 0x12, y: 0xab, z: 0xff });
    assert_eq!(levels.len(), 10);
    assert_eq!(decode(symbol_of(&levels, 0)), 0x12);
    assert_eq!(decode(symbol_of(&levels, 1)), 0xab);
    assert_eq!(decode(symbol_of(&levels, 2)), 0xff);
    assert_eq!(symbol_of(&levels, 2), 0b10_0000_0000);
    assert_eq!((link.x(), link.y(), link.k()), (1, 0, 0));
    assert_eq!(link.levels(), levels[9]);
}

#[test]
fn clock_makes_one_cycle_per_pixel() {
    let mut link = DviInterface::new(small_profile()).unwrap();
    for _ in 0..3 {
        let levels = link.render_pixel(Vec3 { x: 7, y: 7, z: 7 });
        for (i, l) in levels.iter().enumerate() {
            assert_eq!(l.clock, i >= 5);
        }
    }
}

#[test]
fn link_hands_out_its_disparities() {
    let mut link = DviInterface::new(small_profile()).unwrap();
    assert_eq!(link.disparities(), (0, 0, 0));
    link.render_pixel(Vec3 { x: 0x00, y: 0xff, z: 0x55 });
    assert_eq!(link.disparities(), (-8, -8, 0));
    assert_eq!(link.disparities().0, link.red_link.running_disparity());
    for _ in 0..3 {
        link.render_pixel(Vec3 { x: 0x00, y: 0xff, z: 0x55 });
    }
    // the first blanking slot resets all three
    link.render_pixel(Vec3 { x: 0x00, y: 0xff, z: 0x55 });
    assert_eq!(link.disparities(), (0, 0, 0));
}

#[test]
fn tick_goes_through_the_bits_of_a_slot() {
    let mut link = DviInterface::new(small_profile()).unwrap();
    for k in 0..10u8 {
        assert_eq!(link.k(), k);
        assert_eq!(link.x(), 0);
        link.tick(Vec3 { x: 0, y: 0, z: 0 });
    }
    assert_eq!((link.x(), link.k()), (1, 0));
}

#[test]
fn end_row_sends_the_rest_of_the_line() {
    let mut link = DviInterface::new(small_profile()).unwrap();
    for _ in 0..4 {
        link.render_pixel(Vec3 { x: 1, y: 1, z: 1 });
    }
    let levels = link.end_row();
    assert_eq!(levels.len(), 40);
    assert_eq!((link.x(), link.y(), link.k()), (0, 1, 0));
    assert_eq!(symbol_of(&levels[0..10], 0), TMDS::encode_control_signal(false, false));
    assert_eq!(symbol_of(&levels[10..20], 1), TMDS::encode_control_signal(true, false));
    assert_eq!(symbol_of(&levels[20..30], 2), TMDS::encode_control_signal(true, false));
    assert_eq!(symbol_of(&levels[30..40], 0), TMDS::encode_control_signal(false, false));
}

#[test]
fn end_row_from_the_middle_of_a_slot() {
    let mut link = DviInterface::new(small_profile()).unwrap();
    for _ in 0..3 {
        link.tick(Vec3 { x: 0, y: 0, z: 0 });
    }
    let levels = link.end_row();
    assert_eq!(levels.len(), 77);
    assert_eq!((link.x(), link.y(), link.k()), (0, 1, 0));
}

#[test]
fn end_line_sends_one_line() {
    let mut link = DviInterface::new(small_profile()).unwrap();
    link.render_pixel(Vec3 { x: 0, y: 0, z: 0 });
    let levels = link.end_line();
    assert_eq!(levels.len(), 80);
    assert_eq!((link.x(), link.y(), link.k()), (1, 1, 0));
}

#[test]
fn end_frame_sends_the_rest_of_the_frame() {
    let mut link = DviInterface::new(small_profile()).unwrap();
    for _ in 0..3 {
        for _ in 0..4 {
            link.render_pixel(Vec3 { x: 0, y: 0, z: 0 });
        }
        link.end_row();
    }
    assert_eq!((link.x(), link.y(), link.k()), (0, 3, 0));
    let levels = link.end_frame();
    assert_eq!(levels.len(), 3 * 8 * 10);
    assert_eq!((link.x(), link.y(), link.k()), (0, 0, 0));
}

#[test]
fn frame_wraps_from_the_last_line() {
    let mut link = DviInterface::new(small_profile()).unwrap();
    for _ in 0..5 {
        link.end_line();
    }
    assert_eq!(link.y(), 5);
    link.end_line();
    assert_eq!((link.x(), link.y(), link.k()), (0, 0, 0));
}
