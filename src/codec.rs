//! Control-bus protocol of the audio codecs: which register words bring the
//! codec out of reset with its output muted, which word later enables the
//! output, and how a word is packed into the two bytes sent on the bus.
use vstd::prelude::*;
use crate::audio::Fs;

verus! {

/// Two-wire bus address of the WM8731 (chip-select pin low).
pub const WM8731_BUS_ADDRESS: u8 = 0x1a;
/// Pause, in microseconds, the codec needs after each register write.
pub const SETTLE_MICROS: u64 = 10;

/// WM8731 register addresses.
pub const LEFT_LINE_IN: u8 = 0;
pub const ANALOG_AUDIO_PATH: u8 = 4;
pub const DIGITAL_AUDIO_PATH: u8 = 5;
pub const POWER_DOWN: u8 = 6;
pub const DIGITAL_AUDIO_INTERFACE_FORMAT: u8 = 7;
pub const SAMPLING: u8 = 8;
pub const ACTIVE: u8 = 9;
pub const RESET: u8 = 15;

/// A codec register word: a 7-bit address and a 9-bit value.
#[derive(Clone, Copy, Debug, PartialEq, Eq, Structural)]
pub struct CodecRegister {
    pub address: u8,
    pub value: u16,
}

/// The codecs the boards carry.
#[derive(Clone, Copy, Debug, PartialEq, Eq, Structural)]
pub enum CodecModel {
    /// Configured over the two-wire bus.
    Wm8731,
    /// Configured by its pins ("hardware mode"): no register writes.
    Pcm3060,
}

/// First byte on the bus: the address shifted left, with the value's ninth bit.
pub open spec fn first_byte(r: CodecRegister) -> u8 {
    (((r.address << 1u8) & 0xFEu8) | ((r.value >> 8u16) & 0x01u16) as u8) as u8
}

/// Second byte on the bus: the value's low eight bits.
pub open spec fn second_byte(r: CodecRegister) -> u8 {
    (r.value & 0xFFu16) as u8
}

// Bits of the power-down register (a set bit powers the part off).
pub const PD_MIC: u16 = 1 << 1;
pub const PD_OUTPUT: u16 = 1 << 4;
pub const PD_OSCILLATOR: u16 = 1 << 5;
pub const PD_CLOCK_OUTPUT: u16 = 1 << 6;

/// The power-down word of normal operation: line input, ADC and DAC powered,
/// microphone, oscillator and clock output off, output powered if `output_on`.
pub open spec fn power_down_register(output_on: bool) -> CodecRegister {
    CodecRegister {
        address: POWER_DOWN,
        value: if output_on { 0x62 } else { 0x72 },
    }
}

/// Sample-rate field (bits 2 to 5) of the sampling register in normal mode
/// with a 256 fs core clock: the same rate for the ADC and the DAC.
pub open spec fn sample_rate_bits(fs: Fs) -> u16 {
    match fs {
        Fs::Fs8000 => 0b0011,
        Fs::Fs32000 => 0b0110,
        Fs::Fs44100 => 0b1000,
        Fs::Fs48000 => 0b0000,
        Fs::Fs88200 => 0b1111,
        Fs::Fs96000 => 0b0111,
    }
}

/// The WM8731 set-up, in the order the device needs: reset; power with the
/// output off; line input at 0 dB, unmuted, both channels; DAC to the output,
/// line input to the ADC, microphone muted; DAC unmuted with 48 kHz
/// de-emphasis; slave, 24-bit, left-justified interface; sampling rate;
/// interface active.
pub open spec fn wm8731_setup(fs: Fs) -> Seq<CodecRegister> {
    seq![
        CodecRegister { address: RESET, value: 0 },
        power_down_register(false),
        CodecRegister { address: LEFT_LINE_IN, value: 0x117 },
        CodecRegister { address: ANALOG_AUDIO_PATH, value: 0x12 },
        CodecRegister { address: DIGITAL_AUDIO_PATH, value: 0x06 },
        CodecRegister { address: DIGITAL_AUDIO_INTERFACE_FORMAT, value: 0x09 },
        CodecRegister { address: SAMPLING, value: (sample_rate_bits(fs) << 2u16) as u16 },
        CodecRegister { address: ACTIVE, value: 1 },
    ]
}

/// Relies on wm8731::WM8731::reset: the reset register, address 15, value 0.
#[verifier::external_body]
fn reset_register() -> (r: CodecRegister)
    ensures
        r == (CodecRegister { address: RESET, value: 0 }),
{
    let r = wm8731::WM8731::reset();
    CodecRegister { address: r.address, value: r.value }
}

/// Relies on wm8731::WM8731::active and wm8731::active::Active::active: the
/// active control register, address 9, with value 1.
#[verifier::external_body]
fn active_register() -> (r: CodecRegister)
    ensures
        r == (CodecRegister { address: ACTIVE, value: 1 }),
{
    let r = wm8731::WM8731::active().active();
    CodecRegister { address: r.address, value: r.value }
}

/// Unit type of the WM8731 register protocol.
pub struct Codec;

impl Codec {
    /// The two bytes that carry register word `r` on the bus.
    pub fn write_wm8731_reg(r: CodecRegister) -> (bytes: [u8; 2])
        ensures
            bytes@[0] == first_byte(r),
            bytes@[1] == second_byte(r),
    {
        let byte1: u8 = ((r.address << 1u8) & 0b1111_1110u8) | (((r.value >> 8u16) & 0b0000_0001u16) as u8);
        let byte2: u8 = (r.value & 0b1111_1111u16) as u8;
        [byte1, byte2]
    }

    /// The power-down word; the output stays off until `output_on`.
    pub fn power_down(output_on: bool) -> (r: CodecRegister)
        ensures
            r == power_down_register(output_on),
    {
        let off: u16 = PD_MIC | PD_OSCILLATOR | PD_CLOCK_OUTPUT;
        let value: u16 = if output_on { off } else { off | PD_OUTPUT };
        assert(PD_MIC | PD_OSCILLATOR | PD_CLOCK_OUTPUT == 0x62u16) by (bit_vector);
        assert(0x62u16 | PD_OUTPUT == 0x72u16) by (bit_vector);
        CodecRegister { address: POWER_DOWN, value }
    }

    /// The power-down word written once the sample clocks run: everything of
    /// normal operation powered, the output included.
    pub fn final_power_settings() -> (r: CodecRegister)
        ensures
            r == power_down_register(true),
    {
        Codec::power_down(true)
    }

    /// The register words that bring the WM8731 up with its output muted.
    pub fn setup_wm8731(fs: Fs) -> (regs: Vec<CodecRegister>)
        ensures
            regs@ == wm8731_setup(fs),
    {
        let rate: u16 = match fs {
            Fs::Fs8000 => 0b0011,
            Fs::Fs32000 => 0b0110,
            Fs::Fs44100 => 0b1000,
            Fs::Fs48000 => 0b0000,
            Fs::Fs88200 => 0b1111,
            Fs::Fs96000 => 0b0111,
        };
        assert(rate <= 0b1111);
        let mut regs: Vec<CodecRegister> = Vec::new();
        regs.push(reset_register());
        regs.push(Codec::power_down(false));
        regs.push(CodecRegister { address: LEFT_LINE_IN, value: 0x117 });
        regs.push(CodecRegister { address: ANALOG_AUDIO_PATH, value: 0x12 });
        regs.push(CodecRegister { address: DIGITAL_AUDIO_PATH, value: 0x06 });
        regs.push(CodecRegister { address: DIGITAL_AUDIO_INTERFACE_FORMAT, value: 0x09 });
        regs.push(CodecRegister { address: SAMPLING, value: rate << 2u16 });
        regs.push(active_register());
        assert(regs@ =~= wm8731_setup(fs));
        regs
    }
}

impl CodecModel {
    /// Register words written before the sample clocks start.
    pub fn setup(&self, fs: Fs) -> (regs: Vec<CodecRegister>)
        ensures
            regs@ == match *self {
                CodecModel::Wm8731 => wm8731_setup(fs),
                CodecModel::Pcm3060 => Seq::empty(),
            },
    {
        match *self {
            CodecModel::Wm8731 => Codec::setup_wm8731(fs),
            CodecModel::Pcm3060 => Vec::new(),
        }
    }

    /// Register words written after the sample clocks start, to enable the
    /// output without a click.
    pub fn enable_output(&self) -> (regs: Vec<CodecRegister>)
        ensures
            regs@ == match *self {
                CodecModel::Wm8731 => seq![power_down_register(true)],
                CodecModel::Pcm3060 => Seq::empty(),
            },
    {
        let mut regs: Vec<CodecRegister> = Vec::new();
        match *self {
            CodecModel::Wm8731 => {
                regs.push(Codec::final_power_settings());
                assert(regs@ =~= seq![power_down_register(true)]);
            },
            CodecModel::Pcm3060 => {},
        }
        regs
    }
}

/// Packing keeps the whole word: for a 7-bit address and a 9-bit value the
/// two bytes give back both.
pub proof fn lemma_packing_recovers(r: CodecRegister)
    requires
        r.address < 128,
        r.value < 512,
    ensures
        first_byte(r) >> 1u8 == r.address,
        ((((first_byte(r) & 1u8) as u16) << 8u16) | second_byte(r) as u16) == r.value,
{
    let a = r.address;
    let v = r.value;
    assert((((a << 1u8) & 0xFEu8) | ((v >> 8u16) & 0x01u16) as u8) >> 1u8 == a) by (bit_vector)
        requires
            a < 128,
    ;
    assert(((((((a << 1u8) & 0xFEu8) | ((v >> 8u16) & 0x01u16) as u8) & 1u8) as u16) << 8u16)
        | ((v & 0xFFu16) as u8) as u16 == v) by (bit_vector)
        requires
            v < 512,
    ;
}

} // verus!
