//! Reading a display's EDID block: finding the block in what the DDC read
//! brought, and decoding its header and its basic display parameters.
//!
//! Field layout after VESA E-EDID, releases 1.3 and 1.4.

use crate::collections::{text_new, text_of, text_push};
use vstd::prelude::*;

verus! {

/// Bytes that one DDC read brings.
pub const EDID_BUFFER_LEN: usize = 256;

/// What one DDC read brings.
pub type EdidBuffer = [u8; EDID_BUFFER_LEN];

/// White and sync levels of an analog input, in volts above and below blank.
#[derive(Debug, Copy, Clone, PartialEq, Eq, Structural)]
pub enum SyncLevels {
    /// +0.7 / -0.3 V
    Plus700Minus300,
    /// +0.714 / -0.286 V
    Plus714Minus286,
    /// +1.0 / -0.4 V
    Plus1000Minus400,
    /// +0.7 / 0 V (EVC)
    Plus700Zero,
}

/// What kind of picture an analog display shows.
#[derive(Debug, Copy, Clone, PartialEq, Eq, Structural)]
pub enum DisplayType {
    Monochrome,
    Rgb,
    NonRgb,
    Undefined,
}

/// The colour encodings that a digital display takes.
#[derive(Debug, Copy, Clone, PartialEq, Eq, Structural)]
pub enum ColourEncoding {
    Rgb444,
    Rgb444YCrCb444,
    Rgb444YCrCb422,
    Rgb444YCrCb444YCrCb422,
}

/// Bits per primary colour of a digital input (release 1.4).
#[derive(Debug, Copy, Clone, PartialEq, Eq, Structural)]
pub enum BitDepth {
    Undefined,
    Six,
    Eight,
    Ten,
    Twelve,
    Fourteen,
    Sixteen,
    Reserved,
}

/// The digital interface of the display (release 1.4).
#[derive(Debug, Copy, Clone, PartialEq, Eq, Structural)]
pub enum VideoInterface {
    Undefined,
    Dvi,
    HdmiA,
    HdmiB,
    Mddi,
    DisplayPort,
    /// A code that the release does not define.
    Invalid(u8),
}

/// An analog video input.
#[derive(Debug, Copy, Clone, PartialEq, Eq, Structural)]
pub struct AnalogInput {
    pub levels: SyncLevels,
    pub blank_to_black: bool,
    pub separate_sync: bool,
    pub composite_sync: bool,
    pub sync_on_green: bool,
    pub serrated_vsync: bool,
    pub display_type: DisplayType,
}

/// The video input definition.
#[derive(Debug, Copy, Clone, PartialEq, Eq, Structural)]
pub enum VideoInput {
    Analog(AnalogInput),
    /// A digital input as release 1.3 describes it.
    DigitalDfp { dfp_compatible: bool, encoding: ColourEncoding },
    /// A digital input as release 1.4 describes it.
    Digital { depth: BitDepth, interface: VideoInterface, encoding: ColourEncoding },
}

/// The size of the screen, or its aspect ratio where the size is not given.
#[derive(Debug, Copy, Clone, PartialEq, Eq, Structural)]
pub enum ScreenSize {
    /// Neither is given (a projector).
    Undefined,
    /// Portrait: the aspect ratio is 100 over this number.
    Portrait(u16),
    /// Landscape: the aspect ratio is this number over 100.
    Landscape(u16),
    /// Width and height in centimetres.
    Centimetres(u8, u8),
}

/// The display's gamma.
#[derive(Debug, Copy, Clone, PartialEq, Eq, Structural)]
pub enum Gamma {
    /// The gamma is given in an extension block.
    InExtension,
    /// The gamma in hundredths.
    Hundredths(u16),
}

/// The basic display parameters: bytes 20 to 24 of the block.
#[derive(Debug, Copy, Clone, PartialEq, Eq, Structural)]
pub struct DisplayParams {
    pub input: VideoInput,
    pub size: ScreenSize,
    pub gamma: Gamma,
    pub dpms_standby: bool,
    pub dpms_suspend: bool,
    pub dpms_active_off: bool,
    pub srgb: bool,
    pub preferred_timing: bool,
    pub continuous_timing: bool,
}

/// The header of the block: bytes 8 to 19.
#[derive(Debug, Copy, Clone, PartialEq, Eq, Structural)]
pub struct EdidHeader {
    pub manufacturer_id: u16,
    pub product_code: u16,
    pub serial_number: u32,
    pub week: u8,
    pub year: u16,
    pub version: u8,
    pub revision: u8,
}

/// What follows the header, by release.
#[derive(Debug, Copy, Clone, PartialEq, Eq, Structural)]
pub enum EdidDetails {
    V13 { params: DisplayParams, supports_640x480_60: bool },
    V14 { params: DisplayParams },
    /// A release other than 1.3 and 1.4: only the header is decoded.
    Unsupported,
}

/// What a read of the display's EDID brought.
#[derive(Debug, Copy, Clone, PartialEq, Eq, Structural)]
pub struct EdidReport {
    /// Where in the buffer the block starts.
    pub offset: usize,
    pub header: EdidHeader,
    pub details: EdidDetails,
}

/// Why no report can be given.
#[derive(Debug, Copy, Clone, PartialEq, Eq, Structural)]
pub enum EdidError {
    /// The buffer holds no EDID signature.
    SignatureNotFound,
}

/// Whether the eight bytes of the EDID signature, `00 FF FF FF FF FF FF 00`,
/// stand at offset `i` of `buf`.
pub open spec fn signature_at(buf: Seq<u8>, i: int) -> bool {
    &&& 0 <= i
    &&& i + 8 <= buf.len()
    &&& buf[i] == 0
    &&& buf[i + 1] == 255
    &&& buf[i + 2] == 255
    &&& buf[i + 3] == 255
    &&& buf[i + 4] == 255
    &&& buf[i + 5] == 255
    &&& buf[i + 6] == 255
    &&& buf[i + 7] == 0
}

/// Whether `i` is the last offset of `buf` at which a signature stands.
pub open spec fn last_signature(buf: Seq<u8>, i: int) -> bool {
    signature_at(buf, i) && forall|j: int| i < j ==> !signature_at(buf, j)
}

/// Whether `buf` holds a signature anywhere.
pub open spec fn has_signature(buf: Seq<u8>) -> bool {
    exists|i: int| signature_at(buf, i)
}

/// The block that starts at offset `i` of `buf`: what the buffer holds from
/// there on, and zeroes after its end.
pub open spec fn block_at(buf: Seq<u8>, i: int) -> Seq<u8> {
    Seq::new(256, |j: int| if i + j < buf.len() { buf[i + j] } else { 0u8 })
}

/// Reads the three 5-bit letters of a manufacturer id, most significant
/// first; the letter value 1 stands for `a`.
pub open spec fn mfn_letters(mf: u16) -> Seq<char> {
    seq![
        mfn_letter((mf >> 10) & 0b11111),
        mfn_letter((mf >> 5) & 0b11111),
        mfn_letter(mf & 0b11111),
    ]
}

/// The character for one 5-bit letter value.
pub open spec fn mfn_letter(value: u16) -> char {
    (96 + value) as u8 as char
}

pub open spec fn header_of(block: Seq<u8>) -> EdidHeader {
    EdidHeader {
        manufacturer_id: (block[8] * 256 + block[9]) as u16,
        product_code: (block[11] * 256 + block[10]) as u16,
        serial_number: (block[15] * 0x100_0000 + block[14] * 0x1_0000 + block[13] * 0x100
            + block[12]) as u32,
        week: block[16],
        year: (1990 + block[17]) as u16,
        version: block[18],
        revision: block[19],
    }
}

pub open spec fn sync_levels(b20: u8) -> SyncLevels {
    let code = (b20 & 0b1100000) >> 5;
    if code == 0 {
        SyncLevels::Plus700Minus300
    } else if code == 1 {
        SyncLevels::Plus714Minus286
    } else if code == 2 {
        SyncLevels::Plus1000Minus400
    } else {
        SyncLevels::Plus700Zero
    }
}

pub open spec fn display_type(b24: u8) -> DisplayType {
    let code = (b24 & 0b11000) >> 3;
    if code == 0 {
        DisplayType::Monochrome
    } else if code == 1 {
        DisplayType::Rgb
    } else if code == 2 {
        DisplayType::NonRgb
    } else {
        DisplayType::Undefined
    }
}

pub open spec fn colour_encoding(b24: u8) -> ColourEncoding {
    let code = (b24 & 0b11000) >> 3;
    if code == 0 {
        ColourEncoding::Rgb444
    } else if code == 1 {
        ColourEncoding::Rgb444YCrCb444
    } else if code == 2 {
        ColourEncoding::Rgb444YCrCb422
    } else {
        ColourEncoding::Rgb444YCrCb444YCrCb422
    }
}

pub open spec fn bit_depth(b20: u8) -> BitDepth {
    let code = (b20 & 0b1110000) >> 4;
    if code == 0 {
        BitDepth::Undefined
    } else if code == 1 {
        BitDepth::Six
    } else if code == 2 {
        BitDepth::Eight
    } else if code == 3 {
        BitDepth::Ten
    } else if code == 4 {
        BitDepth::Twelve
    } else if code == 5 {
        BitDepth::Fourteen
    } else if code == 6 {
        BitDepth::Sixteen
    } else {
        BitDepth::Reserved
    }
}

pub open spec fn video_interface(b20: u8) -> VideoInterface {
    let code = b20 & 0b1111;
    if code == 0 {
        VideoInterface::Undefined
    } else if code == 1 {
        VideoInterface::Dvi
    } else if code == 2 {
        VideoInterface::HdmiA
    } else if code == 3 {
        VideoInterface::HdmiB
    } else if code == 4 {
        VideoInterface::Mddi
    } else if code == 5 {
        VideoInterface::DisplayPort
    } else {
        VideoInterface::Invalid(code)
    }
}

pub open spec fn analog_input(b20: u8, b24: u8) -> AnalogInput {
    AnalogInput {
        levels: sync_levels(b20),
        blank_to_black: b20 & 0b10000 != 0,
        separate_sync: b20 & 0b1000 != 0,
        composite_sync: b20 & 0b100 != 0,
        sync_on_green: b20 & 0b10 != 0,
        serrated_vsync: b20 & 0b1 != 0,
        display_type: display_type(b24),
    }
}

/// The video input as release 1.3 lays it out.
pub open spec fn video_input_103(b20: u8, b24: u8) -> VideoInput {
    if b20 & 0b10000000 != 0 {
        VideoInput::DigitalDfp { dfp_compatible: b20 & 0b1 != 0, encoding: colour_encoding(b24) }
    } else {
        VideoInput::Analog(analog_input(b20, b24))
    }
}

/// The video input as release 1.4 lays it out.
pub open spec fn video_input_104(b20: u8, b24: u8) -> VideoInput {
    if b20 & 0b10000000 != 0 {
        VideoInput::Digital {
            depth: bit_depth(b20),
            interface: video_interface(b20),
            encoding: colour_encoding(b24),
        }
    } else {
        VideoInput::Analog(analog_input(b20, b24))
    }
}

pub open spec fn screen_size(horizontal: u8, vertical: u8) -> ScreenSize {
    if horizontal == 0 && vertical == 0 {
        ScreenSize::Undefined
    } else if horizontal == 0 {
        ScreenSize::Portrait((vertical + 99) as u16)
    } else if vertical == 0 {
        ScreenSize::Landscape((horizontal + 99) as u16)
    } else {
        ScreenSize::Centimetres(horizontal, vertical)
    }
}

pub open spec fn gamma_of(b23: u8) -> Gamma {
    if b23 == 255 {
        Gamma::InExtension
    } else {
        Gamma::Hundredths((b23 + 100) as u16)
    }
}

/// The display parameters of a block, with the video input decoded by
/// `input`.
pub open spec fn params_of(block: Seq<u8>, input: VideoInput) -> DisplayParams {
    DisplayParams {
        input: input,
        size: screen_size(block[21], block[22]),
        gamma: gamma_of(block[23]),
        dpms_standby: block[24] & 0b10000000 != 0,
        dpms_suspend: block[24] & 0b1000000 != 0,
        dpms_active_off: block[24] & 0b100000 != 0,
        srgb: block[24] & 0b100 != 0,
        preferred_timing: block[24] & 0b10 != 0,
        continuous_timing: block[24] & 0b1 != 0,
    }
}

pub open spec fn params_103(block: Seq<u8>) -> DisplayParams {
    params_of(block, video_input_103(block[20], block[24]))
}

pub open spec fn params_104(block: Seq<u8>) -> DisplayParams {
    params_of(block, video_input_104(block[20], block[24]))
}

/// What follows the header of a block, by the release that the header names.
pub open spec fn details_of(block: Seq<u8>) -> EdidDetails {
    if block[18] == 1 && block[19] == 3 {
        EdidDetails::V13 {
            params: params_103(block),
            supports_640x480_60: block[0x23] & 0b100000 != 0,
        }
    } else if block[18] == 1 && block[19] == 4 {
        EdidDetails::V14 { params: params_104(block) }
    } else {
        EdidDetails::Unsupported
    }
}

/// The report on the block that starts at `offset` of `buf`.
pub open spec fn report_at(buf: Seq<u8>, offset: int) -> EdidReport {
    EdidReport {
        offset: offset as usize,
        header: header_of(block_at(buf, offset)),
        details: details_of(block_at(buf, offset)),
    }
}

/// Reads the three 5-bit letters making the manufacturer name.
pub fn read_mfn(mf: u16) -> (mfn: heapless::String<3>)
    ensures
        text_of(mfn) == mfn_letters(mf),
{
    let first: u16 = (mf >> 10) & 0b11111;
    let second: u16 = (mf >> 5) & 0b11111;
    let third: u16 = mf & 0b11111;
    assert(((mf >> 10) & 0b11111) <= 31 && ((mf >> 5) & 0b11111) <= 31 && (mf & 0b11111) <= 31)
        by (bit_vector);
    let a: char = ((96 + first) as u8) as char;
    let b: char = ((96 + second) as u8) as char;
    let c: char = ((96 + third) as u8) as char;
    let mut mfn = text_new();
    let _ = text_push(&mut mfn, a);
    let _ = text_push(&mut mfn, b);
    let _ = text_push(&mut mfn, c);
    mfn
}

/// Finds the last offset of `buf` at which the EDID signature stands.
pub fn find_signature(buf: &EdidBuffer) -> (found: Option<usize>)
    ensures
        match found {
            Some(i) => last_signature(buf@, i as int),
            None => !has_signature(buf@),
        },
{
    let mut found: Option<usize> = None;
    let mut i: usize = 0;
    while i + 8 <= EDID_BUFFER_LEN
        invariant
            i <= 249,
            match found {
                Some(at) => at < i && signature_at(buf@, at as int) && forall|j: int|
                    at < j < i ==> !signature_at(buf@, j),
                None => forall|j: int| j < i ==> !signature_at(buf@, j),
            },
        decreases 249 - i,
    {
        if buf[i] == 0 && buf[i + 1] == 255 && buf[i + 2] == 255 && buf[i + 3] == 255 && buf[i + 4]
            == 255 && buf[i + 5] == 255 && buf[i + 6] == 255 && buf[i + 7] == 0 {
            found = Some(i);
        }
        i = i + 1;
    }
    found
}

/// Copies the block that starts at `offset` of `buf`, with zeroes after the
/// end of the buffer.
pub fn copy_block(buf: &EdidBuffer, offset: usize) -> (block: EdidBuffer)
    requires
        offset <= 256,
    ensures
        block@ == block_at(buf@, offset as int),
{
    let mut block: EdidBuffer = [0; EDID_BUFFER_LEN];
    let mut j: usize = 0;
    while offset + j < EDID_BUFFER_LEN
        invariant
            offset + j <= 256,
            forall|n: int| 0 <= n < j ==> block@[n] == buf@[offset + n],
            forall|n: int| j <= n < 256 ==> block@[n] == 0,
        decreases 256 - j,
    {
        block[j] = buf[offset + j];
        j = j + 1;
    }
    block
}

/// Reads the header of a block.
pub fn read_header(block: &EdidBuffer) -> (header: EdidHeader)
    ensures
        header == header_of(block@),
{
    EdidHeader {
        manufacturer_id: (block[8] as u16) * 256 + (block[9] as u16),
        product_code: (block[11] as u16) * 256 + (block[10] as u16),
        serial_number: (block[15] as u32) * 0x100_0000 + (block[14] as u32) * 0x1_0000 + (
        block[13] as u32) * 0x100 + (block[12] as u32),
        week: block[16],
        year: 1990 + (block[17] as u16),
        version: block[18],
        revision: block[19],
    }
}

fn read_analog_input(b20: u8, b24: u8) -> (input: AnalogInput)
    ensures
        input == analog_input(b20, b24),
{
    let levels = match (b20 & 0b1100000) >> 5 {
        0b00 => SyncLevels::Plus700Minus300,
        0b01 => SyncLevels::Plus714Minus286,
        0b10 => SyncLevels::Plus1000Minus400,
        _ => SyncLevels::Plus700Zero,
    };
    let display_type = match (b24 & 0b11000) >> 3 {
        0b00 => DisplayType::Monochrome,
        0b01 => DisplayType::Rgb,
        0b10 => DisplayType::NonRgb,
        _ => DisplayType::Undefined,
    };
    AnalogInput {
        levels,
        blank_to_black: b20 & 0b10000 != 0,
        separate_sync: b20 & 0b1000 != 0,
        composite_sync: b20 & 0b100 != 0,
        sync_on_green: b20 & 0b10 != 0,
        serrated_vsync: b20 & 0b1 != 0,
        display_type,
    }
}

fn read_colour_encoding(b24: u8) -> (encoding: ColourEncoding)
    ensures
        encoding == colour_encoding(b24),
{
    match (b24 & 0b11000) >> 3 {
        0b00 => ColourEncoding::Rgb444,
        0b01 => ColourEncoding::Rgb444YCrCb444,
        0b10 => ColourEncoding::Rgb444YCrCb422,
        _ => ColourEncoding::Rgb444YCrCb444YCrCb422,
    }
}

/// Reads what the two releases lay out alike: size, gamma and features.
fn read_common_params(block: &EdidBuffer, input: VideoInput) -> (params: DisplayParams)
    ensures
        params == params_of(block@, input),
{
    let horizontal: u8 = block[21];
    let vertical: u8 = block[22];
    let size = if horizontal == 0 && vertical == 0 {
        ScreenSize::Undefined
    } else if horizontal == 0 {
        ScreenSize::Portrait(vertical as u16 + 99)
    } else if vertical == 0 {
        ScreenSize::Landscape(horizontal as u16 + 99)
    } else {
        ScreenSize::Centimetres(horizontal, vertical)
    };
    let gamma = if block[23] == 255 {
        Gamma::InExtension
    } else {
        Gamma::Hundredths(block[23] as u16 + 100)
    };
    DisplayParams {
        input,
        size,
        gamma,
        dpms_standby: block[24] & 0b10000000 != 0,
        dpms_suspend: block[24] & 0b1000000 != 0,
        dpms_active_off: block[24] & 0b100000 != 0,
        srgb: block[24] & 0b100 != 0,
        preferred_timing: block[24] & 0b10 != 0,
        continuous_timing: block[24] & 0b1 != 0,
    }
}

/// Reads the basic display parameters of a release 1.3 block.
pub fn read_display_params_103(block: &EdidBuffer) -> (params: DisplayParams)
    ensures
        params == params_103(block@),
{
    let b20: u8 = block[20];
    let b24: u8 = block[24];
    let input = if b20 & 0b10000000 != 0 {
        VideoInput::DigitalDfp {
            dfp_compatible: b20 & 0b1 != 0,
            encoding: read_colour_encoding(b24),
        }
    } else {
        VideoInput::Analog(read_analog_input(b20, b24))
    };
    read_common_params(block, input)
}

/// Reads the basic display parameters of a release 1.4 block.
pub fn read_display_params_104(block: &EdidBuffer) -> (params: DisplayParams)
    ensures
        params == params_104(block@),
{
    let b20: u8 = block[20];
    let b24: u8 = block[24];
    let input = if b20 & 0b10000000 != 0 {
        let depth = match (b20 & 0b1110000) >> 4 {
            0b000 => BitDepth::Undefined,
            0b001 => BitDepth::Six,
            0b010 => BitDepth::Eight,
            0b011 => BitDepth::Ten,
            0b100 => BitDepth::Twelve,
            0b101 => BitDepth::Fourteen,
            0b110 => BitDepth::Sixteen,
            _ => BitDepth::Reserved,
        };
        let code: u8 = b20 & 0b1111;
        let interface = match code {
            0b0000 => VideoInterface::Undefined,
            0b0001 => VideoInterface::Dvi,
            0b0010 => VideoInterface::HdmiA,
            0b0011 => VideoInterface::HdmiB,
            0b0100 => VideoInterface::Mddi,
            0b0101 => VideoInterface::DisplayPort,
            _ => VideoInterface::Invalid(code),
        };
        VideoInput::Digital { depth, interface, encoding: read_colour_encoding(b24) }
    } else {
        VideoInput::Analog(read_analog_input(b20, b24))
    };
    read_common_params(block, input)
}

/// Reads past the header of a release 1.3 block: the display parameters,
/// and whether 640x480 at 60 Hz is among the established timings.
pub fn read_103(block: &EdidBuffer) -> (details: EdidDetails)
    ensures
        details == (EdidDetails::V13 {
            params: params_103(block@),
            supports_640x480_60: block@[0x23] & 0b100000 != 0,
        }),
{
    EdidDetails::V13 {
        params: read_display_params_103(block),
        supports_640x480_60: block[0x23] & 0b100000 != 0,
    }
}

/// Reads past the header of a release 1.4 block: the display parameters.
pub fn read_104(block: &EdidBuffer) -> (details: EdidDetails)
    ensures
        details == (EdidDetails::V14 { params: params_104(block@) }),
{
    EdidDetails::V14 { params: read_display_params_104(block) }
}

/// Parses what a DDC read brought: finds the last EDID signature, and
/// decodes the header and, for releases 1.3 and 1.4, the display parameters
/// of the block that starts there. Without a signature there is no report.
pub fn read_edid(buf: EdidBuffer) -> (result: Result<EdidReport, EdidError>)
    ensures
        result is Err <==> !has_signature(buf@),
        result is Ok ==> last_signature(buf@, result->Ok_0.offset as int),
        result is Ok ==> result->Ok_0 == report_at(buf@, result->Ok_0.offset as int),
{
    match find_signature(&buf) {
        None => Err(EdidError::SignatureNotFound),
        Some(offset) => {
            let block = copy_block(&buf, offset);
            let header = read_header(&block);
            let details = if header.version == 1 && header.revision == 3 {
                read_103(&block)
            } else if header.version == 1 && header.revision == 4 {
                read_104(&block)
            } else {
                EdidDetails::Unsupported
            };
            Ok(EdidReport { offset, header, details })
        },
    }
}

} // verus!
