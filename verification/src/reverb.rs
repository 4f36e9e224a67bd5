//! The reverb of the console's sound unit.
//!
//! A preset is thirty-two 16-bit words: offsets and addresses into the
//! reverb work area, taken as they are, and volumes, taken as signed. The
//! unit keeps a ring of past samples for each channel and, at every step,
//! reads and writes it at the preset's addresses, counted from where it
//! stands in the ring.

use vstd::prelude::*;

verus! {

/// The coefficients of one reverb preset.
#[derive(Debug, Clone, Copy, PartialEq, Eq, Structural)]
pub struct ReverbPreset {
    /// All-pass filter 1 offset.
    pub d_apf1: u16,
    /// All-pass filter 2 offset.
    pub d_apf2: u16,
    /// Reflection filter volume.
    pub v_iir: i16,
    /// Comb filter volumes.
    pub v_comb1: i16,
    pub v_comb2: i16,
    pub v_comb3: i16,
    pub v_comb4: i16,
    /// Wall reflection volume.
    pub v_wall: i16,
    /// All-pass filter volumes.
    pub v_apf1: i16,
    pub v_apf2: i16,
    /// Same-side reflection addresses, left and right.
    pub m_l_same: u16,
    pub m_r_same: u16,
    /// Comb filter 1 addresses.
    pub m_l_comb1: u16,
    pub m_r_comb1: u16,
    /// Comb filter 2 addresses.
    pub m_l_comb2: u16,
    pub m_r_comb2: u16,
    /// Same-side reflection source addresses.
    pub d_l_same: u16,
    pub d_r_same: u16,
    /// Different-side reflection addresses.
    pub m_l_diff: u16,
    pub m_r_diff: u16,
    /// Comb filter 3 addresses.
    pub m_l_comb3: u16,
    pub m_r_comb3: u16,
    /// Comb filter 4 addresses.
    pub m_l_comb4: u16,
    pub m_r_comb4: u16,
    /// Different-side reflection source addresses.
    pub d_l_diff: u16,
    pub d_r_diff: u16,
    /// All-pass filter 1 addresses.
    pub m_l_apf1: u16,
    pub m_r_apf1: u16,
    /// All-pass filter 2 addresses.
    pub m_l_apf2: u16,
    pub m_r_apf2: u16,
    /// Input volumes.
    pub v_l_in: i16,
    pub v_r_in: i16,
}

/// A word read as a signed volume: the upper half of the range stands for
/// the negative numbers.
pub open spec fn signed_word(w: u16) -> int {
    if w < 0x8000 {
        w as int
    } else {
        w - 0x1_0000
    }
}

fn to_signed(w: u16) -> (v: i16)
    ensures
        v == signed_word(w),
{
    assert(w as i16 == (if w < 0x8000 {
        w as int
    } else {
        w - 0x1_0000
    })) by (bit_vector);
    w as i16
}

impl ReverbPreset {
    /// The preset that thirty-two words spell out.
    pub open spec fn from_words(data: Seq<u16>) -> ReverbPreset {
        ReverbPreset {
            d_apf1: data[0],
            d_apf2: data[1],
            v_iir: signed_word(data[2]) as i16,
            v_comb1: signed_word(data[3]) as i16,
            v_comb2: signed_word(data[4]) as i16,
            v_comb3: signed_word(data[5]) as i16,
            v_comb4: signed_word(data[6]) as i16,
            v_wall: signed_word(data[7]) as i16,
            v_apf1: signed_word(data[8]) as i16,
            v_apf2: signed_word(data[9]) as i16,
            m_l_same: data[10],
            m_r_same: data[11],
            m_l_comb1: data[12],
            m_r_comb1: data[13],
            m_l_comb2: data[14],
            m_r_comb2: data[15],
            d_l_same: data[16],
            d_r_same: data[17],
            m_l_diff: data[18],
            m_r_diff: data[19],
            m_l_comb3: data[20],
            m_r_comb3: data[21],
            m_l_comb4: data[22],
            m_r_comb4: data[23],
            d_l_diff: data[24],
            d_r_diff: data[25],
            m_l_apf1: data[26],
            m_r_apf1: data[27],
            m_l_apf2: data[28],
            m_r_apf2: data[29],
            v_l_in: signed_word(data[30]) as i16,
            v_r_in: signed_word(data[31]) as i16,
        }
    }

    /// Builds a preset from its thirty-two words.
    pub fn new(data: [u16; 32]) -> (p: ReverbPreset)
        ensures
            p == ReverbPreset::from_words(data@),
    {
        ReverbPreset {
            d_apf1: data[0],
            d_apf2: data[1],
            v_iir: to_signed(data[2]),
            v_comb1: to_signed(data[3]),
            v_comb2: to_signed(data[4]),
            v_comb3: to_signed(data[5]),
            v_comb4: to_signed(data[6]),
            v_wall: to_signed(data[7]),
            v_apf1: to_signed(data[8]),
            v_apf2: to_signed(data[9]),
            m_l_same: data[10],
            m_r_same: data[11],
            m_l_comb1: data[12],
            m_r_comb1: data[13],
            m_l_comb2: data[14],
            m_r_comb2: data[15],
            d_l_same: data[16],
            d_r_same: data[17],
            m_l_diff: data[18],
            m_r_diff: data[19],
            m_l_comb3: data[20],
            m_r_comb3: data[21],
            m_l_comb4: data[22],
            m_r_comb4: data[23],
            d_l_diff: data[24],
            d_r_diff: data[25],
            m_l_apf1: data[26],
            m_r_apf1: data[27],
            m_l_apf2: data[28],
            m_r_apf2: data[29],
            v_l_in: to_signed(data[30]),
            v_r_in: to_signed(data[31]),
        }
    }
}

/// The presets that can be chosen.
#[derive(Debug, Clone, Copy, PartialEq, Eq, Structural, Default)]
pub enum ReverbType {
    #[default]
    Off,
    Room,
    StudioSmall,
    StudioMedium,
    StudioLarge,
    Hall,
    HalfEcho,
    SpaceEcho,
    ChaosEcho,
    Delay,
}

impl ReverbType {
    /// The words of each preset.
    pub open spec fn words(self) -> Seq<u16> {
        match self {
            ReverbType::Off => seq![
                0x0000, 0x0000, 0x0000, 0x0000, 0x0000, 0x0000, 0x0000, 0x0000,
                0x0000, 0x0000, 0x0001, 0x0001, 0x0001, 0x0001, 0x0001, 0x0001,
                0x0000, 0x0000, 0x0001, 0x0001, 0x0001, 0x0001, 0x0001, 0x0001,
                0x0000, 0x0000, 0x0001, 0x0001, 0x0001, 0x0001, 0x0000, 0x0000,
            ],
            ReverbType::Room => seq![
                0x007D, 0x005B, 0x6D80, 0x54B8, 0xBED0, 0x0000, 0x0000, 0xBA80,
                0x5800, 0x5300, 0x04D6, 0x0333, 0x03F0, 0x0227, 0x0374, 0x01EF,
                0x0334, 0x01B5, 0x0000, 0x0000, 0x0000, 0x0000, 0x0000, 0x0000,
                0x0000, 0x0000, 0x01B4, 0x0136, 0x00B8, 0x005C, 0x8000, 0x8000,
            ],
            ReverbType::StudioSmall => seq![
                0x0033, 0x0025, 0x70F0, 0x4FA8, 0xBCE0, 0x4410, 0xC0F0, 0x9C00,
                0x5280, 0x4EC0, 0x03E4, 0x031B, 0x03A4, 0x02AF, 0x0372, 0x0266,
                0x031C, 0x025D, 0x025C, 0x018E, 0x022F, 0x0135, 0x01D2, 0x00B7,
                0x018F, 0x00B5, 0x00B4, 0x0080, 0x004C, 0x0026, 0x8000, 0x8000,
            ],
            ReverbType::StudioMedium => seq![
                0x00B1, 0x007F, 0x70F0, 0x4FA8, 0xBCE0, 0x4510, 0xBEF0, 0xB4C0,
                0x5280, 0x4EC0, 0x0904, 0x076B, 0x0824, 0x065F, 0x07A2, 0x0616,
                0x076C, 0x05ED, 0x05EC, 0x042E, 0x050F, 0x0305, 0x0462, 0x02B7,
                0x042F, 0x0265, 0x0264, 0x01B2, 0x0100, 0x0080, 0x8000, 0x8000,
            ],
            ReverbType::StudioLarge => seq![
                0x00E3, 0x00A9, 0x6F60, 0x4FA8, 0xBCE0, 0x4510, 0xBEF0, 0xA680,
                0x5680, 0x52C0, 0x0DFB, 0x0B58, 0x0D09, 0x0A3C, 0x0BD9, 0x0973,
                0x0B59, 0x08DA, 0x08D9, 0x05E9, 0x07EC, 0x04B0, 0x06EF, 0x03D2,
                0x05EA, 0x031D, 0x031C, 0x0238, 0x0154, 0x00AA, 0x8000, 0x8000,
            ],
            ReverbType::Hall => seq![
                0x01A5, 0x0139, 0x6000, 0x5000, 0x4C00, 0xB800, 0xBC00, 0xC000,
                0x6000, 0x5C00, 0x15BA, 0x11BB, 0x14C2, 0x10BD, 0x11BC, 0x0DC1,
                0x11C0, 0x0DC3, 0x0DC0, 0x09C1, 0x0BC4, 0x07C1, 0x0A00, 0x06CD,
                0x09C2, 0x05C1, 0x05C0, 0x041A, 0x0274, 0x013A, 0x8000, 0x8000,
            ],
            ReverbType::HalfEcho => seq![
                0x0017, 0x0013, 0x70F0, 0x4FA8, 0xBCE0, 0x4510, 0xBEF0, 0x8500,
                0x5F80, 0x54C0, 0x0371, 0x02AF, 0x02E5, 0x01DF, 0x02B0, 0x01D7,
                0x0358, 0x026A, 0x01D6, 0x011E, 0x012D, 0x00B1, 0x011F, 0x0059,
                0x01A0, 0x00E3, 0x0058, 0x0040, 0x0028, 0x0014, 0x8000, 0x8000,
            ],
            ReverbType::SpaceEcho => seq![
                0x033D, 0x0231, 0x7E00, 0x5000, 0xB400, 0xB000, 0x4C00, 0xB000,
                0x6000, 0x5400, 0x1ED6, 0x1A31, 0x1D14, 0x183B, 0x1BC2, 0x16B2,
                0x1A32, 0x15EF, 0x15EE, 0x1055, 0x1334, 0x0F2D, 0x11F6, 0x0C5D,
                0x1056, 0x0AE1, 0x0AE0, 0x07A2, 0x0464, 0x0232, 0x8000, 0x8000,
            ],
            ReverbType::ChaosEcho => seq![
                0x0001, 0x0001, 0x7FFF, 0x7FFF, 0x0000, 0x0000, 0x0000, 0x8100,
                0x0000, 0x0000, 0x1FFF, 0x0FFF, 0x1005, 0x0005, 0x0000, 0x0000,
                0x1005, 0x0005, 0x0000, 0x0000, 0x0000, 0x0000, 0x0000, 0x0000,
                0x0000, 0x0000, 0x1004, 0x1002, 0x0004, 0x0002, 0x8000, 0x8000,
            ],
            ReverbType::Delay => seq![
                0x0001, 0x0001, 0x7FFF, 0x7FFF, 0x0000, 0x0000, 0x0000, 0x0000,
                0x0000, 0x0000, 0x1FFF, 0x0FFF, 0x1005, 0x0005, 0x0000, 0x0000,
                0x1005, 0x0005, 0x0000, 0x0000, 0x0000, 0x0000, 0x0000, 0x0000,
                0x0000, 0x0000, 0x1004, 0x1002, 0x0004, 0x0002, 0x8000, 0x8000,
            ],
        }
    }

    /// The name of each preset, as shown to a user.
    pub open spec fn label(self) -> Seq<char> {
        match self {
            ReverbType::Off => "Off"@,
            ReverbType::Room => "Room"@,
            ReverbType::StudioSmall => "Studio Small"@,
            ReverbType::StudioMedium => "Studio Medium"@,
            ReverbType::StudioLarge => "Studio Large"@,
            ReverbType::Hall => "Hall"@,
            ReverbType::HalfEcho => "Half Echo"@,
            ReverbType::SpaceEcho => "Space Echo"@,
            ReverbType::ChaosEcho => "Chaos Echo"@,
            ReverbType::Delay => "Delay"@,
        }
    }

    /// All presets, `Off` first.
    pub fn all() -> (list: [ReverbType; 10])
        ensures
            list@ == seq![
                ReverbType::Off,
                ReverbType::Room,
                ReverbType::StudioSmall,
                ReverbType::StudioMedium,
                ReverbType::StudioLarge,
                ReverbType::Hall,
                ReverbType::HalfEcho,
                ReverbType::SpaceEcho,
                ReverbType::ChaosEcho,
                ReverbType::Delay,
            ],
    {
        let list: [ReverbType; 10] = [
            ReverbType::Off,
            ReverbType::Room,
            ReverbType::StudioSmall,
            ReverbType::StudioMedium,
            ReverbType::StudioLarge,
            ReverbType::Hall,
            ReverbType::HalfEcho,
            ReverbType::SpaceEcho,
            ReverbType::ChaosEcho,
            ReverbType::Delay,
        ];
        assert(list@ =~= seq![
            ReverbType::Off,
            ReverbType::Room,
            ReverbType::StudioSmall,
            ReverbType::StudioMedium,
            ReverbType::StudioLarge,
            ReverbType::Hall,
            ReverbType::HalfEcho,
            ReverbType::SpaceEcho,
            ReverbType::ChaosEcho,
            ReverbType::Delay,
        ]);
        list
    }

    pub fn name(&self) -> (s: &'static str)
        ensures
            s@ == self.label(),
    {
        match self {
            ReverbType::Off => "Off",
            ReverbType::Room => "Room",
            ReverbType::StudioSmall => "Studio Small",
            ReverbType::StudioMedium => "Studio Medium",
            ReverbType::StudioLarge => "Studio Large",
            ReverbType::Hall => "Hall",
            ReverbType::HalfEcho => "Half Echo",
            ReverbType::SpaceEcho => "Space Echo",
            ReverbType::ChaosEcho => "Chaos Echo",
            ReverbType::Delay => "Delay",
        }
    }

    /// The coefficients of the preset.
    pub fn preset(&self) -> (p: ReverbPreset)
        ensures
            p == ReverbPreset::from_words(self.words()),
    {
        let data: [u16; 32] = match self {
            ReverbType::Off => [
                0x0000, 0x0000, 0x0000, 0x0000, 0x0000, 0x0000, 0x0000, 0x0000,
                0x0000, 0x0000, 0x0001, 0x0001, 0x0001, 0x0001, 0x0001, 0x0001,
                0x0000, 0x0000, 0x0001, 0x0001, 0x0001, 0x0001, 0x0001, 0x0001,
                0x0000, 0x0000, 0x0001, 0x0001, 0x0001, 0x0001, 0x0000, 0x0000,
            ],
            ReverbType::Room => [
                0x007D, 0x005B, 0x6D80, 0x54B8, 0xBED0, 0x0000, 0x0000, 0xBA80,
                0x5800, 0x5300, 0x04D6, 0x0333, 0x03F0, 0x0227, 0x0374, 0x01EF,
                0x0334, 0x01B5, 0x0000, 0x0000, 0x0000, 0x0000, 0x0000, 0x0000,
                0x0000, 0x0000, 0x01B4, 0x0136, 0x00B8, 0x005C, 0x8000, 0x8000,
            ],
            ReverbType::StudioSmall => [
                0x0033, 0x0025, 0x70F0, 0x4FA8, 0xBCE0, 0x4410, 0xC0F0, 0x9C00,
                0x5280, 0x4EC0, 0x03E4, 0x031B, 0x03A4, 0x02AF, 0x0372, 0x0266,
                0x031C, 0x025D, 0x025C, 0x018E, 0x022F, 0x0135, 0x01D2, 0x00B7,
                0x018F, 0x00B5, 0x00B4, 0x0080, 0x004C, 0x0026, 0x8000, 0x8000,
            ],
            ReverbType::StudioMedium => [
                0x00B1, 0x007F, 0x70F0, 0x4FA8, 0xBCE0, 0x4510, 0xBEF0, 0xB4C0,
                0x5280, 0x4EC0, 0x0904, 0x076B, 0x0824, 0x065F, 0x07A2, 0x0616,
                0x076C, 0x05ED, 0x05EC, 0x042E, 0x050F, 0x0305, 0x0462, 0x02B7,
                0x042F, 0x0265, 0x0264, 0x01B2, 0x0100, 0x0080, 0x8000, 0x8000,
            ],
            ReverbType::StudioLarge => [
                0x00E3, 0x00A9, 0x6F60, 0x4FA8, 0xBCE0, 0x4510, 0xBEF0, 0xA680,
                0x5680, 0x52C0, 0x0DFB, 0x0B58, 0x0D09, 0x0A3C, 0x0BD9, 0x0973,
                0x0B59, 0x08DA, 0x08D9, 0x05E9, 0x07EC, 0x04B0, 0x06EF, 0x03D2,
                0x05EA, 0x031D, 0x031C, 0x0238, 0x0154, 0x00AA, 0x8000, 0x8000,
            ],
            ReverbType::Hall => [
                0x01A5, 0x0139, 0x6000, 0x5000, 0x4C00, 0xB800, 0xBC00, 0xC000,
                0x6000, 0x5C00, 0x15BA, 0x11BB, 0x14C2, 0x10BD, 0x11BC, 0x0DC1,
                0x11C0, 0x0DC3, 0x0DC0, 0x09C1, 0x0BC4, 0x07C1, 0x0A00, 0x06CD,
                0x09C2, 0x05C1, 0x05C0, 0x041A, 0x0274, 0x013A, 0x8000, 0x8000,
            ],
            ReverbType::HalfEcho => [
                0x0017, 0x0013, 0x70F0, 0x4FA8, 0xBCE0, 0x4510, 0xBEF0, 0x8500,
                0x5F80, 0x54C0, 0x0371, 0x02AF, 0x02E5, 0x01DF, 0x02B0, 0x01D7,
                0x0358, 0x026A, 0x01D6, 0x011E, 0x012D, 0x00B1, 0x011F, 0x0059,
                0x01A0, 0x00E3, 0x0058, 0x0040, 0x0028, 0x0014, 0x8000, 0x8000,
            ],
            ReverbType::SpaceEcho => [
                0x033D, 0x0231, 0x7E00, 0x5000, 0xB400, 0xB000, 0x4C00, 0xB000,
                0x6000, 0x5400, 0x1ED6, 0x1A31, 0x1D14, 0x183B, 0x1BC2, 0x16B2,
                0x1A32, 0x15EF, 0x15EE, 0x1055, 0x1334, 0x0F2D, 0x11F6, 0x0C5D,
                0x1056, 0x0AE1, 0x0AE0, 0x07A2, 0x0464, 0x0232, 0x8000, 0x8000,
            ],
            ReverbType::ChaosEcho => [
                0x0001, 0x0001, 0x7FFF, 0x7FFF, 0x0000, 0x0000, 0x0000, 0x8100,
                0x0000, 0x0000, 0x1FFF, 0x0FFF, 0x1005, 0x0005, 0x0000, 0x0000,
                0x1005, 0x0005, 0x0000, 0x0000, 0x0000, 0x0000, 0x0000, 0x0000,
                0x0000, 0x0000, 0x1004, 0x1002, 0x0004, 0x0002, 0x8000, 0x8000,
            ],
            ReverbType::Delay => [
                0x0001, 0x0001, 0x7FFF, 0x7FFF, 0x0000, 0x0000, 0x0000, 0x0000,
                0x0000, 0x0000, 0x1FFF, 0x0FFF, 0x1005, 0x0005, 0x0000, 0x0000,
                0x1005, 0x0005, 0x0000, 0x0000, 0x0000, 0x0000, 0x0000, 0x0000,
                0x0000, 0x0000, 0x1004, 0x1002, 0x0004, 0x0002, 0x8000, 0x8000,
            ],
        };
        assert(data@ =~= self.words());
        ReverbPreset::new(data)
    }
}

/// The number of samples that each channel's work area holds.
pub const REVERB_BUFFER_SIZE: usize = 0x20000;

/// A value held to the range of a 16-bit sample.
pub open spec fn clamp16(v: int) -> int {
    if v < -0x8000 {
        -0x8000
    } else if v > 0x7FFF {
        0x7FFF
    } else {
        v
    }
}

/// A sample scaled by a volume, in which 0x8000 stands for one: the
/// product over 0x8000, rounded down and held to the range of a sample.
pub open spec fn mul_vol(sample: int, volume: int) -> int {
    clamp16((sample * volume) / 0x8000)
}

/// The place in a work area that lies `offset` samples after `pos`; the
/// area is a ring.
pub open spec fn slot(pos: int, offset: u16) -> int {
    (pos + offset) % (REVERB_BUFFER_SIZE as int)
}

/// An offset moved back by `by`, wrapping within 16 bits.
pub open spec fn back(offset: u16, by: u16) -> u16 {
    if offset >= by {
        (offset - by) as u16
    } else {
        (offset - by + 0x1_0000) as u16
    }
}

/// One reflection off a wall, through a one-pole filter: the new sample at
/// a reflection address, from the input, the `delayed` sample that comes
/// back off the wall, and the sample `prev` two places before the address.
pub open spec fn reflected(input: int, delayed: int, prev: int, wall: int, iir: int) -> int {
    clamp16(mul_vol(input + mul_vol(delayed, wall) - prev, iir) + prev)
}

/// What a reverb unit holds.
pub struct ReverbState {
    pub preset: ReverbPreset,
    pub reverb_type: ReverbType,
    /// The left channel's work area.
    pub left: Seq<i16>,
    /// The right channel's work area.
    pub right: Seq<i16>,
    /// Where in the ring the unit stands.
    pub pos: int,
    pub enabled: bool,
}

/// What one all-pass stage does to one channel: the sample `feed` that it
/// stores at its address, and the sample that it passes on.
pub open spec fn all_pass(input: int, delayed: int, volume: int) -> (int, int) {
    let feed = input - mul_vol(delayed, volume);
    (feed, mul_vol(feed, volume) + delayed)
}

impl ReverbState {
    pub open spec fn wf(self) -> bool {
        &&& self.left.len() == REVERB_BUFFER_SIZE
        &&& self.right.len() == REVERB_BUFFER_SIZE
        &&& 0 <= self.pos < REVERB_BUFFER_SIZE
    }

    /// A silent unit: no preset chosen, both work areas empty.
    pub open spec fn silent() -> ReverbState {
        ReverbState {
            preset: ReverbPreset::from_words(ReverbType::Off.words()),
            reverb_type: ReverbType::Off,
            left: Seq::new(REVERB_BUFFER_SIZE as nat, |i: int| 0i16),
            right: Seq::new(REVERB_BUFFER_SIZE as nat, |i: int| 0i16),
            pos: 0,
            enabled: false,
        }
    }

    /// The unit after a preset has been chosen: the work areas are emptied,
    /// the place in the ring stays.
    pub open spec fn with_preset(self, reverb_type: ReverbType) -> ReverbState {
        ReverbState {
            preset: ReverbPreset::from_words(reverb_type.words()),
            reverb_type,
            left: Seq::new(REVERB_BUFFER_SIZE as nat, |i: int| 0i16),
            right: Seq::new(REVERB_BUFFER_SIZE as nat, |i: int| 0i16),
            pos: self.pos,
            enabled: reverb_type != ReverbType::Off,
        }
    }

    /// The unit with both work areas emptied and the ring at its start.
    pub open spec fn cleared(self) -> ReverbState {
        ReverbState {
            left: Seq::new(REVERB_BUFFER_SIZE as nat, |i: int| 0i16),
            right: Seq::new(REVERB_BUFFER_SIZE as nat, |i: int| 0i16),
            pos: 0,
            ..self
        }
    }

    /// The work areas after the four wall reflections of one step: same
    /// side left, same side right, then across from right to left and from
    /// left to right, each seeing what the ones before it have stored.
    pub open spec fn after_reflections(self, left_in: i16, right_in: i16) -> (Seq<i16>, Seq<i16>) {
        let p = self.preset;
        let at = |offset: u16| slot(self.pos, offset);
        let l_in = mul_vol(left_in as int, p.v_l_in as int);
        let r_in = mul_vol(right_in as int, p.v_r_in as int);
        let l1 = self.left.update(
            at(p.m_l_same),
            reflected(
                l_in,
                self.left[at(p.d_l_same)] as int,
                self.left[at(back(p.m_l_same, 2))] as int,
                p.v_wall as int,
                p.v_iir as int,
            ) as i16,
        );
        let r1 = self.right.update(
            at(p.m_r_same),
            reflected(
                r_in,
                self.right[at(p.d_r_same)] as int,
                self.right[at(back(p.m_r_same, 2))] as int,
                p.v_wall as int,
                p.v_iir as int,
            ) as i16,
        );
        let l2 = l1.update(
            at(p.m_l_diff),
            reflected(
                l_in,
                r1[at(p.d_r_diff)] as int,
                l1[at(back(p.m_l_diff, 2))] as int,
                p.v_wall as int,
                p.v_iir as int,
            ) as i16,
        );
        let r2 = r1.update(
            at(p.m_r_diff),
            reflected(
                r_in,
                l2[at(p.d_l_diff)] as int,
                r1[at(back(p.m_r_diff, 2))] as int,
                p.v_wall as int,
                p.v_iir as int,
            ) as i16,
        );
        (l2, r2)
    }

    /// One channel after the reflections: through the four comb filters and
    /// the two all-pass stages. It gives the work area as the stages leave
    /// it and the sample that comes out, not yet held to 16 bits.
    pub open spec fn through_filters(
        self,
        buffer: Seq<i16>,
        comb: (u16, u16, u16, u16),
        apf1: u16,
        apf2: u16,
    ) -> (Seq<i16>, int) {
        let p = self.preset;
        let at = |offset: u16| slot(self.pos, offset);
        let mixed = mul_vol(buffer[at(comb.0)] as int, p.v_comb1 as int) + mul_vol(
            buffer[at(comb.1)] as int,
            p.v_comb2 as int,
        ) + mul_vol(buffer[at(comb.2)] as int, p.v_comb3 as int) + mul_vol(
            buffer[at(comb.3)] as int,
            p.v_comb4 as int,
        );
        let first = all_pass(mixed, buffer[at(back(apf1, p.d_apf1))] as int, p.v_apf1 as int);
        let stored = buffer.update(at(apf1), clamp16(first.0) as i16);
        let second = all_pass(first.1, stored[at(back(apf2, p.d_apf2))] as int, p.v_apf2 as int);
        (stored.update(at(apf2), clamp16(second.0) as i16), second.1)
    }

    /// The unit after one step, with the two samples that come out of it.
    pub open spec fn step(self, left_in: i16, right_in: i16) -> (ReverbState, i16, i16) {
        let p = self.preset;
        let (l2, r2) = self.after_reflections(left_in, right_in);
        let (l4, l_out) = self.through_filters(
            l2,
            (p.m_l_comb1, p.m_l_comb2, p.m_l_comb3, p.m_l_comb4),
            p.m_l_apf1,
            p.m_l_apf2,
        );
        let (r4, r_out) = self.through_filters(
            r2,
            (p.m_r_comb1, p.m_r_comb2, p.m_r_comb3, p.m_r_comb4),
            p.m_r_apf1,
            p.m_r_apf2,
        );
        (
            ReverbState {
                left: l4,
                right: r4,
                pos: (self.pos + 1) % (REVERB_BUFFER_SIZE as int),
                ..self
            },
            clamp16(l_out) as i16,
            clamp16(r_out) as i16,
        )
    }
}

fn clamp_sample(v: i64) -> (c: i16)
    ensures
        c == clamp16(v as int),
{
    if v < -0x8000 {
        -0x8000
    } else if v > 0x7FFF {
        0x7FFF
    } else {
        v as i16
    }
}

fn scale(sample: i64, volume: i16) -> (v: i64)
    requires
        -0x10_0000 <= sample <= 0x10_0000,
    ensures
        v == mul_vol(sample as int, volume as int),
        -0x8000 <= v <= 0x7FFF,
{
    assert(-0x10_0000 * 0x8000 <= sample * volume <= 0x10_0000 * 0x8000) by (nonlinear_arith)
        requires
            -0x10_0000 <= sample <= 0x10_0000,
            -0x8000 <= volume <= 0x7FFF,
    ;
    let product: i64 = sample * volume as i64;
    let shifted: i64 = if product >= 0 {
        product / 0x8000
    } else {
        -((0x7FFF - product) / 0x8000)
    };
    clamp_sample(shifted) as i64
}

fn move_back(offset: u16, by: u16) -> (r: u16)
    ensures
        r == back(offset, by),
{
    if offset >= by {
        offset - by
    } else {
        (offset as u32 + 0x1_0000 - by as u32) as u16
    }
}

fn read(buffer: &Vec<i16>, pos: usize, offset: u16) -> (v: i64)
    requires
        buffer@.len() == REVERB_BUFFER_SIZE,
        pos < REVERB_BUFFER_SIZE,
    ensures
        v == buffer@[slot(pos as int, offset)],
        0 <= slot(pos as int, offset) < REVERB_BUFFER_SIZE,
{
    buffer[(pos + offset as usize) % REVERB_BUFFER_SIZE] as i64
}

/// The place in the ring that lies `offset` samples after `pos`.
fn place(pos: usize, offset: u16) -> (idx: usize)
    requires
        pos < REVERB_BUFFER_SIZE,
    ensures
        idx == slot(pos as int, offset),
        idx < REVERB_BUFFER_SIZE,
{
    (pos + offset as usize) % REVERB_BUFFER_SIZE
}

/// The sample that one wall reflection stores at `address` in `target`.
fn reflection(
    target: &Vec<i16>,
    pos: usize,
    input: i64,
    delayed: i64,
    address: u16,
    wall: i16,
    iir: i16,
) -> (value: i16)
    requires
        target@.len() == REVERB_BUFFER_SIZE,
        pos < REVERB_BUFFER_SIZE,
        -0x8000 <= input <= 0x7FFF,
        -0x8000 <= delayed <= 0x7FFF,
    ensures
        value == reflected(
            input as int,
            delayed as int,
            target@[slot(pos as int, back(address, 2))] as int,
            wall as int,
            iir as int,
        ),
{
    let prev = read(target, pos, move_back(address, 2));
    let fed = input + scale(delayed, wall);
    clamp_sample(scale(fed - prev, iir) + prev)
}

/// The four comb filters of one channel, mixed.
fn combed(buffer: &Vec<i16>, pos: usize, preset: &ReverbPreset, comb: (u16, u16, u16, u16)) -> (mixed:
    i64)
    requires
        buffer@.len() == REVERB_BUFFER_SIZE,
        pos < REVERB_BUFFER_SIZE,
    ensures
        mixed == mul_vol(buffer@[slot(pos as int, comb.0)] as int, preset.v_comb1 as int) + mul_vol(
            buffer@[slot(pos as int, comb.1)] as int,
            preset.v_comb2 as int,
        ) + mul_vol(buffer@[slot(pos as int, comb.2)] as int, preset.v_comb3 as int) + mul_vol(
            buffer@[slot(pos as int, comb.3)] as int,
            preset.v_comb4 as int,
        ),
        -0x2_0000 <= mixed <= 0x2_0000,
{
    scale(read(buffer, pos, comb.0), preset.v_comb1) + scale(
        read(buffer, pos, comb.1),
        preset.v_comb2,
    ) + scale(read(buffer, pos, comb.2), preset.v_comb3) + scale(
        read(buffer, pos, comb.3),
        preset.v_comb4,
    )
}

/// One all-pass stage of one channel: what it stores and what it passes
/// on.
fn all_pass_stage(
    buffer: &Vec<i16>,
    pos: usize,
    input: i64,
    address: u16,
    delay: u16,
    volume: i16,
) -> (r: (i64, i64))
    requires
        buffer@.len() == REVERB_BUFFER_SIZE,
        pos < REVERB_BUFFER_SIZE,
        -0x4_0000 <= input <= 0x4_0000,
    ensures
        r.0 == all_pass(
            input as int,
            buffer@[slot(pos as int, back(address, delay))] as int,
            volume as int,
        ).0,
        r.1 == all_pass(
            input as int,
            buffer@[slot(pos as int, back(address, delay))] as int,
            volume as int,
        ).1,
        -0x8_0000 <= r.0 <= 0x8_0000,
        -0x1_0000 <= r.1 <= 0x1_0000,
{
    let delayed = read(buffer, pos, move_back(address, delay));
    let feed = input - scale(delayed, volume);
    (feed, scale(feed, volume) + delayed)
}

/// The reverb of the console's sound unit: wall reflections through
/// one-pole filters, four comb filters and two all-pass stages per channel,
/// over a ring of past samples.
pub struct PsxReverb {
    preset: ReverbPreset,
    reverb_type: ReverbType,
    buffer_l: Vec<i16>,
    buffer_r: Vec<i16>,
    buffer_pos: usize,
    enabled: bool,
}

impl View for PsxReverb {
    type V = ReverbState;

    closed spec fn view(&self) -> ReverbState {
        ReverbState {
            preset: self.preset,
            reverb_type: self.reverb_type,
            left: self.buffer_l@,
            right: self.buffer_r@,
            pos: self.buffer_pos as int,
            enabled: self.enabled,
        }
    }
}

impl PsxReverb {
    #[verifier::type_invariant]
    spec fn wf(&self) -> bool {
        &&& self.buffer_l@.len() == REVERB_BUFFER_SIZE
        &&& self.buffer_r@.len() == REVERB_BUFFER_SIZE
        &&& self.buffer_pos < REVERB_BUFFER_SIZE
    }

    /// A silent unit with no preset chosen.
    pub fn new() -> (reverb: PsxReverb)
        ensures
            reverb@ == ReverbState::silent(),
            reverb@.wf(),
    {
        let reverb = PsxReverb {
            preset: ReverbType::Off.preset(),
            reverb_type: ReverbType::Off,
            buffer_l: vec![0i16; REVERB_BUFFER_SIZE],
            buffer_r: vec![0i16; REVERB_BUFFER_SIZE],
            buffer_pos: 0,
            enabled: false,
        };
        assert(reverb@.left =~= ReverbState::silent().left);
        assert(reverb@.right =~= ReverbState::silent().right);
        reverb
    }

    /// Chooses a preset and empties the work areas, so that nothing held
    /// under the old preset sounds under the new one. Every preset but
    /// `Off` enables the unit.
    pub fn set_preset(&mut self, reverb_type: ReverbType)
        ensures
            final(self)@ == old(self)@.with_preset(reverb_type),
            final(self)@.wf(),
    {
        proof {
            use_type_invariant(&*self);
        }
        let pos = self.buffer_pos;
        *self = PsxReverb {
            preset: reverb_type.preset(),
            reverb_type,
            buffer_l: vec![0i16; REVERB_BUFFER_SIZE],
            buffer_r: vec![0i16; REVERB_BUFFER_SIZE],
            buffer_pos: pos,
            enabled: reverb_type != ReverbType::Off,
        };
        assert(self@.left =~= old(self)@.with_preset(reverb_type).left);
        assert(self@.right =~= old(self)@.with_preset(reverb_type).right);
    }

    pub fn reverb_type(&self) -> (t: ReverbType)
        ensures
            t == self@.reverb_type,
    {
        self.reverb_type
    }

    pub fn is_enabled(&self) -> (enabled: bool)
        ensures
            enabled == self@.enabled,
    {
        self.enabled
    }

    /// Empties the work areas and goes back to the start of the ring.
    pub fn clear(&mut self)
        ensures
            final(self)@ == old(self)@.cleared(),
            final(self)@.wf(),
    {
        *self = PsxReverb {
            preset: self.preset,
            reverb_type: self.reverb_type,
            buffer_l: vec![0i16; REVERB_BUFFER_SIZE],
            buffer_r: vec![0i16; REVERB_BUFFER_SIZE],
            buffer_pos: 0,
            enabled: self.enabled,
        };
        assert(self@.left =~= old(self)@.cleared().left);
        assert(self@.right =~= old(self)@.cleared().right);
    }

    /// Takes one pair of samples through the reverb and moves one place on
    /// in the ring. Products are taken at full width and every stored or
    /// returned sample is held to 16 bits.
    pub fn process_sample_22k(&mut self, left_in: i16, right_in: i16) -> (out: (i16, i16))
        ensures
            final(self)@ == old(self)@.step(left_in, right_in).0,
            out.0 == old(self)@.step(left_in, right_in).1,
            out.1 == old(self)@.step(left_in, right_in).2,
            final(self)@.wf(),
    {
        proof {
            use_type_invariant(&*self);
        }
        let p: ReverbPreset = self.preset;
        let pos: usize = self.buffer_pos;
        let ghost before = old(self)@;

        let l_in = scale(left_in as i64, p.v_l_in);
        let r_in = scale(right_in as i64, p.v_r_in);
        let d_l_same = read(&self.buffer_l, pos, p.d_l_same);
        let l_same = reflection(&self.buffer_l, pos, l_in, d_l_same, p.m_l_same, p.v_wall, p.v_iir);
        self.buffer_l[place(pos, p.m_l_same)] = l_same;
        let d_r_same = read(&self.buffer_r, pos, p.d_r_same);
        let r_same = reflection(&self.buffer_r, pos, r_in, d_r_same, p.m_r_same, p.v_wall, p.v_iir);
        self.buffer_r[place(pos, p.m_r_same)] = r_same;
        let d_r_diff = read(&self.buffer_r, pos, p.d_r_diff);
        let l_diff = reflection(&self.buffer_l, pos, l_in, d_r_diff, p.m_l_diff, p.v_wall, p.v_iir);
        self.buffer_l[place(pos, p.m_l_diff)] = l_diff;
        let d_l_diff = read(&self.buffer_l, pos, p.d_l_diff);
        let r_diff = reflection(&self.buffer_r, pos, r_in, d_l_diff, p.m_r_diff, p.v_wall, p.v_iir);
        self.buffer_r[place(pos, p.m_r_diff)] = r_diff;
        proof {
            assert(self.buffer_l@ == before.after_reflections(left_in, right_in).0);
            assert(self.buffer_r@ == before.after_reflections(left_in, right_in).1);
        }

        let l_mixed = combed(
            &self.buffer_l,
            pos,
            &p,
            (p.m_l_comb1, p.m_l_comb2, p.m_l_comb3, p.m_l_comb4),
        );
        let l_first = all_pass_stage(&self.buffer_l, pos, l_mixed, p.m_l_apf1, p.d_apf1, p.v_apf1);
        self.buffer_l[place(pos, p.m_l_apf1)] = clamp_sample(l_first.0);
        let l_second = all_pass_stage(&self.buffer_l, pos, l_first.1, p.m_l_apf2, p.d_apf2, p.v_apf2);
        self.buffer_l[place(pos, p.m_l_apf2)] = clamp_sample(l_second.0);
        let l_out = l_second.1;

        let r_mixed = combed(
            &self.buffer_r,
            pos,
            &p,
            (p.m_r_comb1, p.m_r_comb2, p.m_r_comb3, p.m_r_comb4),
        );
        let r_first = all_pass_stage(&self.buffer_r, pos, r_mixed, p.m_r_apf1, p.d_apf1, p.v_apf1);
        self.buffer_r[place(pos, p.m_r_apf1)] = clamp_sample(r_first.0);
        let r_second = all_pass_stage(&self.buffer_r, pos, r_first.1, p.m_r_apf2, p.d_apf2, p.v_apf2);
        self.buffer_r[place(pos, p.m_r_apf2)] = clamp_sample(r_second.0);
        let r_out = r_second.1;
        self.buffer_pos = (pos + 1) % REVERB_BUFFER_SIZE;
        (clamp_sample(l_out), clamp_sample(r_out))
    }
}

} // verus!
