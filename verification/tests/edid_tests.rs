use bitbang_dvi::display::edid::{
    find_signature, read_103, read_104, read_display_params_103, read_display_params_104,
    read_edid, read_header, read_mfn, AnalogInput, BitDepth, ColourEncoding, DisplayType,
    EdidDetails, EdidError, Gamma, ScreenSize, SyncLevels, VideoInput, VideoInterface,
    EDID_BUFFER_LEN,
};

fn block(offset: usize) -> [u8; 256] {
    let mut long = [0u8; 512];
    fill(&mut long[offset..]);
    let mut buf = [0u8; 256];
    buf.copy_from_slice(&long[..256]);
    buf
}

fn fill(b: &mut [u8]) {
    b[0] = 0;
    for i in 1..7 {
        b[i] = 0xff;
    }
    b[7] = 0;
    // manufacturer "del": d = 4, e = 5, l = 12
    let mf: u16 = (4 << 10) | (5 << 5) | 12;
    b[8] = (mf >> 8) as u8;
    b[9] = (mf & 0xff) as u8;
    b[10] = 0x34;
    b[11] = 0x12;
    b[12] = 0x78;
    b[13] = 0x56;
    b[14] = 0x34;
    b[15] = 0x12;
    b[16] = 7;
    b[17] = 30;
    b[18] = 1;
    b[19] = 3;
    b[20] = 0b1000_0001;
    b[21] = 52;
    b[22] = 32;
    b[23] = 120;
    b[24] = 0b1110_1110;
    b[0x23] = 0b0010_0000;
}

#[test]
fn buffer_length() {
    assert_eq!(EDID_BUFFER_LEN, 256);
}

#[test]
fn manufacturer_letters() {
    assert_eq!(read_mfn((4 << 10) | (5 << 5) | 12).as_str(), "del");
    assert_eq!(read_mfn((1 << 10) | (1 << 5) | 1).as_str(), "aaa");
    assert_eq!(read_mfn((26 << 10) | (25 << 5) | 24).as_str(), "zyx");
    assert_eq!(read_mfn(0).as_str(), "```");
    assert_eq!(read_mfn(0x8000).as_str(), "```");
}

#[test]
fn no_signature_no_report() {
    assert_eq!(read_edid([0u8; 256]), Err(EdidError::SignatureNotFound));
    assert_eq!(read_edid([0xffu8; 256]), Err(EdidError::SignatureNotFound));
    let mut almost = block(0);
    almost[7] = 1;
    assert_eq!(read_edid(almost), Err(EdidError::SignatureNotFound));
    assert_eq!(find_signature(&almost), None);
}

#[test]
fn signature_is_found_where_it_stands() {
    assert_eq!(find_signature(&block(0)), Some(0));
    assert_eq!(find_signature(&block(1)), Some(1));
    assert_eq!(find_signature(&block(100)), Some(100));
    let mut at_the_end = [0u8; 256];
    for i in 249..255 {
        at_the_end[i] = 0xff;
    }
    assert_eq!(find_signature(&at_the_end), Some(248));
    // a signature that does not fit is none
    let mut cut = [0u8; 256];
    for i in 250..256 {
        cut[i] = 0xff;
    }
    assert_eq!(find_signature(&cut), None);
}

#[test]
fn last_signature_wins() {
    let mut buf = block(0);
    let second = block(128);
    buf[128..].copy_from_slice(&second[128..]);
    buf[128 + 16] = 9;
    let report = read_edid(buf).unwrap();
    assert_eq!(report.offset, 128);
    assert_eq!(report.header.week, 9);
}

#[test]
fn header_fields() {
    let report = read_edid(block(0)).unwrap();
    assert_eq!(report.offset, 0);
    let h = report.header;
    assert_eq!(h.manufacturer_id, (4 << 10) | (5 << 5) | 12);
    assert_eq!(h.product_code, 0x1234);
    assert_eq!(h.serial_number, 0x1234_5678);
    assert_eq!(h.week, 7);
    assert_eq!(h.year, 2020);
    assert_eq!((h.version, h.revision), (1, 3));
    assert_eq!(read_header(&block(0)), h);
}

#[test]
fn block_at_an_offset_is_padded_with_zeroes() {
    let report = read_edid(block(240)).unwrap();
    assert_eq!(report.offset, 240);
    assert_eq!(report.header.product_code, 0x1234);
    assert_eq!(report.header.serial_number, 0x1234_5678);
    // bytes 16 and up lie beyond the buffer
    assert_eq!(report.header.week, 0);
    assert_eq!(report.header.year, 1990);
    assert_eq!(report.details, EdidDetails::Unsupported);
}

#[test]
fn release_1_3_digital() {
    let report = read_edid(block(3)).unwrap();
    match report.details {
        EdidDetails::V13 { params, supports_640x480_60 } => {
            assert!(supports_640x480_60);
            assert_eq!(
                params.input,
                VideoInput::DigitalDfp {
                    dfp_compatible: true,
                    encoding: ColourEncoding::Rgb444YCrCb444
                }
            );
            assert_eq!(params.size, ScreenSize::Centimetres(52, 32));
            assert_eq!(params.gamma, Gamma::Hundredths(220));
            assert!(params.dpms_standby && params.dpms_suspend && params.dpms_active_off);
            assert!(params.srgb);
            assert!(params.preferred_timing);
            assert!(!params.continuous_timing);
        }
        _ => panic!("release 1.3 expected"),
    }
}

#[test]
fn release_1_3_analog() {
    let mut buf = block(0);
    buf[20] = 0b0101_0110;
    buf[24] = 0b0001_0001;
    buf[0x23] = 0;
    let details = read_103(&buf);
    match details {
        EdidDetails::V13 { params, supports_640x480_60 } => {
            assert!(!supports_640x480_60);
            assert_eq!(
                params.input,
                VideoInput::Analog(AnalogInput {
                    levels: SyncLevels::Plus1000Minus400,
                    blank_to_black: true,
                    separate_sync: false,
                    composite_sync: true,
                    sync_on_green: true,
                    serrated_vsync: false,
                    display_type: DisplayType::NonRgb,
                })
            );
            assert!(!params.dpms_standby && !params.dpms_suspend && !params.dpms_active_off);
            assert!(!params.srgb && !params.preferred_timing);
            assert!(params.continuous_timing);
        }
        _ => panic!("release 1.3 expected"),
    }
    assert_eq!(read_display_params_103(&buf), match details {
        EdidDetails::V13 { params, .. } => params,
        _ => unreachable!(),
    });
}

#[test]
fn release_1_4_digital() {
    let mut buf = block(0);
    buf[19] = 4;
    buf[20] = 0b1010_0001;
    buf[24] = 0b0001_0000;
    let report = read_edid(buf).unwrap();
    match report.details {
        EdidDetails::V14 { params } => {
            assert_eq!(
                params.input,
                VideoInput::Digital {
                    depth: BitDepth::Eight,
                    interface: VideoInterface::Dvi,
                    encoding: ColourEncoding::Rgb444YCrCb422,
                }
            );
            assert_eq!(params, read_display_params_104(&buf));
        }
        _ => panic!("release 1.4 expected"),
    }
    assert_eq!(read_104(&buf), report.details);
}

#[test]
fn release_1_4_codes() {
    let mut buf = block(0);
    buf[19] = 4;
    let depth_of = |code: u8| {
        let mut b = buf;
        b[20] = 0x80 | (code << 4);
        match read_display_params_104(&b).input {
            VideoInput::Digital { depth, .. } => depth,
            _ => panic!("digital expected"),
        }
    };
    assert_eq!(depth_of(0), BitDepth::Undefined);
    assert_eq!(depth_of(1), BitDepth::Six);
    assert_eq!(depth_of(2), BitDepth::Eight);
    assert_eq!(depth_of(3), BitDepth::Ten);
    assert_eq!(depth_of(4), BitDepth::Twelve);
    assert_eq!(depth_of(5), BitDepth::Fourteen);
    assert_eq!(depth_of(6), BitDepth::Sixteen);
    assert_eq!(depth_of(7), BitDepth::Reserved);
    let interface_of = |code: u8| {
        let mut b = buf;
        b[20] = 0x80 | code;
        match read_display_params_104(&b).input {
            VideoInput::Digital { interface, .. } => interface,
            _ => panic!("digital expected"),
        }
    };
    assert_eq!(interface_of(0), VideoInterface::Undefined);
    assert_eq!(interface_of(1), VideoInterface::Dvi);
    assert_eq!(interface_of(2), VideoInterface::HdmiA);
    assert_eq!(interface_of(3), VideoInterface::HdmiB);
    assert_eq!(interface_of(4), VideoInterface::Mddi);
    assert_eq!(interface_of(5), VideoInterface::DisplayPort);
    assert_eq!(interface_of(9), VideoInterface::Invalid(9));
}

#[test]
fn analog_codes() {
    let buf = block(0);
    let input_of = |b20: u8, b24: u8| {
        let mut b = buf;
        b[20] = b20;
        b[24] = b24;
        match read_display_params_104(&b).input {
            VideoInput::Analog(a) => a,
            _ => panic!("analog expected"),
        }
    };
    assert_eq!(input_of(0b0000_0000, 0).levels, SyncLevels::Plus700Minus300);
    assert_eq!(input_of(0b0010_0000, 0).levels, SyncLevels::Plus714Minus286);
    assert_eq!(input_of(0b0100_0000, 0).levels, SyncLevels::Plus1000Minus400);
    assert_eq!(input_of(0b0110_0000, 0).levels, SyncLevels::Plus700Zero);
    assert_eq!(input_of(0, 0b0000_0000).display_type, DisplayType::Monochrome);
    assert_eq!(input_of(0, 0b0000_1000).display_type, DisplayType::Rgb);
    assert_eq!(input_of(0, 0b0001_0000).display_type, DisplayType::NonRgb);
    assert_eq!(input_of(0, 0b0001_1000).display_type, DisplayType::Undefined);
    assert!(input_of(0b0000_1000, 0).separate_sync);
    assert!(input_of(0b0000_0001, 0).serrated_vsync);
}

#[test]
fn screen_size_and_gamma() {
    let buf = block(0);
    let with = |h: u8, v: u8, g: u8| {
        let mut b = buf;
        b[21] = h;
        b[22] = v;
        b[23] = g;
        let p = read_display_params_103(&b);
        (p.size, p.gamma)
    };
    assert_eq!(with(0, 0, 255), (ScreenSize::Undefined, Gamma::InExtension));
    assert_eq!(with(0, 79, 0), (ScreenSize::Portrait(178), Gamma::Hundredths(100)));
    assert_eq!(with(79, 0, 254), (ScreenSize::Landscape(178), Gamma::Hundredths(354)));
    assert_eq!(with(255, 255, 120), (ScreenSize::Centimetres(255, 255), Gamma::Hundredths(220)));
}

#[test]
fn other_releases_give_the_header_only() {
    let mut buf = block(0);
    buf[19] = 2;
    let report = read_edid(buf).unwrap();
    assert_eq!(report.details, EdidDetails::Unsupported);
    assert_eq!(report.header.revision, 2);
    buf[18] = 2;
    buf[19] = 3;
    assert_eq!(read_edid(buf).unwrap().details, EdidDetails::Unsupported);
}
