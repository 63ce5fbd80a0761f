//! Audio streaming: sample rates, clock dividers, serial-audio configuration
//! and the block-exchange state machine.
//!
//! The state machine decides; the code owning the serial-audio peripheral
//! awaits the DMA events, hands each outcome to it, runs the processing step
//! and performs what it is told.
use vstd::prelude::*;
use crate::codec::{CodecModel, CodecRegister, wm8731_setup, power_down_register, SETTLE_MICROS};

verus! {

/// Stereo frames in one block.
pub const BLOCK_LENGTH: usize = 32;
/// Words in one interleaved block (two channels).
pub const HALF_DMA_BUFFER_LENGTH: usize = 64;
/// Words in one DMA ring: two blocks.
pub const DMA_BUFFER_LENGTH: usize = 128;
/// Master clock to sample clock ratio (no oversampling).
pub const CLOCK_RATIO: u32 = 256;

/// One block of interleaved samples (left, right, left, right, ...), each in
/// the low bits of a 32-bit word.
pub type InterleavedBlock = [u32; HALF_DMA_BUFFER_LENGTH];

/// Sample rates the interface runs at.
#[derive(Clone, Copy, Debug, PartialEq, Eq, Structural)]
pub enum Fs {
    Fs8000,
    Fs32000,
    Fs44100,
    Fs48000,
    Fs88200,
    Fs96000,
}

/// The rate in samples per second.
pub open spec fn fs_hz(fs: Fs) -> u32 {
    match fs {
        Fs::Fs8000 => 8000,
        Fs::Fs32000 => 32000,
        Fs::Fs44100 => 44100,
        Fs::Fs48000 => 48000,
        Fs::Fs88200 => 88200,
        Fs::Fs96000 => 96000,
    }
}

/// The master clock divider for `fs` from a peripheral kernel clock of
/// `kernel_clock_hz`: the whole number of 256 fs periods in a kernel period.
pub open spec fn divider_for(fs: Fs, kernel_clock_hz: u32) -> int {
    kernel_clock_hz as int / (fs_hz(fs) as int * CLOCK_RATIO as int)
}

/// A master clock divider the peripheral accepts: 1 to 63.
#[derive(Clone, Copy, Debug)]
pub struct MasterClockDivider {
    divider: u8,
}

impl View for MasterClockDivider {
    type V = u8;

    closed spec fn view(&self) -> u8 {
        self.divider
    }
}

impl MasterClockDivider {
    #[verifier::type_invariant]
    spec fn in_range(self) -> bool {
        1 <= self.divider <= 63
    }

    /// The division factor.
    pub fn divider(&self) -> (r: u8)
        ensures
            r == self@,
            1 <= r <= 63,
    {
        proof {
            use_type_invariant(self);
        }
        self.divider
    }
}

/// The divider dividing by `v`.
pub fn mclk_div_from_u8(v: u8) -> (d: MasterClockDivider)
    requires
        1 <= v <= 63,
    ensures
        d@ == v,
{
    MasterClockDivider { divider: v }
}

impl Fs {
    /// The rate in samples per second.
    pub fn hz(self) -> (r: u32)
        ensures
            r == fs_hz(self),
    {
        match self {
            Fs::Fs8000 => 8000,
            Fs::Fs32000 => 32000,
            Fs::Fs44100 => 44100,
            Fs::Fs48000 => 48000,
            Fs::Fs88200 => 88200,
            Fs::Fs96000 => 96000,
        }
    }

    /// The divider that derives a 256 fs master clock from the kernel clock.
    pub fn into_clock_divider(self, kernel_clock_hz: u32) -> (d: MasterClockDivider)
        requires
            1 <= divider_for(self, kernel_clock_hz) <= 63,
        ensures
            d@ == divider_for(self, kernel_clock_hz),
    {
        let fs = self.hz();
        let quotient = kernel_clock_hz / (fs * CLOCK_RATIO);
        mclk_div_from_u8(quotient as u8)
    }
}

/// A higher sample rate never gets a larger divider from the same kernel clock.
pub proof fn lemma_divider_monotonic(a: Fs, b: Fs, kernel_clock_hz: u32)
    requires
        fs_hz(a) <= fs_hz(b),
    ensures
        divider_for(a, kernel_clock_hz) >= divider_for(b, kernel_clock_hz),
{
    vstd::arithmetic::div_mod::lemma_div_is_ordered_by_denominator(
        kernel_clock_hz as int,
        fs_hz(a) as int * CLOCK_RATIO as int,
        fs_hz(b) as int * CLOCK_RATIO as int,
    );
}

/// User-facing settings of the audio interface.
pub struct AudioConfig {
    pub fs: Fs,
}

impl Default for AudioConfig {
    fn default() -> (r: AudioConfig)
        ensures
            r.fs == Fs::Fs48000,
    {
        AudioConfig { fs: Fs::Fs48000 }
    }
}

// ---------------------------------------------------------------------------
// Serial-audio block configuration.

/// Board revisions: they differ in codec and in which sub-block drives the clocks.
#[derive(Clone, Copy, Debug, PartialEq, Eq, Structural)]
pub enum BoardRevision {
    /// WM8731 codec; the receiver is the clock master.
    Seed11,
    /// PCM3060 codec; the transmitter is the clock master.
    Seed12,
}

pub open spec fn codec_of(revision: BoardRevision) -> CodecModel {
    match revision {
        BoardRevision::Seed11 => CodecModel::Wm8731,
        BoardRevision::Seed12 => CodecModel::Pcm3060,
    }
}

impl BoardRevision {
    /// The codec the revision carries.
    pub fn codec(self) -> (c: CodecModel)
        ensures
            c == codec_of(self),
    {
        match self {
            BoardRevision::Seed11 => CodecModel::Wm8731,
            BoardRevision::Seed12 => CodecModel::Pcm3060,
        }
    }
}

#[derive(Clone, Copy, Debug, PartialEq, Eq, Structural)]
pub enum SaiMode {
    Master,
    Slave,
}

#[derive(Clone, Copy, Debug, PartialEq, Eq, Structural)]
pub enum TxRx {
    Transmitter,
    Receiver,
}

#[derive(Clone, Copy, Debug, PartialEq, Eq, Structural)]
pub enum ClockStrobe {
    Rising,
    Falling,
}

#[derive(Clone, Copy, Debug, PartialEq, Eq, Structural)]
pub enum FifoThreshold {
    Empty,
    Quarter,
    Half,
    ThreeQuarters,
    Full,
}

/// Settings of one serial-audio sub-block (the rest keep the peripheral's defaults).
#[derive(Clone, Copy, Debug, PartialEq, Eq, Structural)]
pub struct SaiConfig {
    pub mode: SaiMode,
    pub tx_rx: TxRx,
    /// Drives its frame sync to the other sub-block.
    pub sync_output: bool,
    /// Takes its frame sync from the other sub-block.
    pub sync_input_internal: bool,
    pub clock_strobe: ClockStrobe,
    pub master_clock_divider: u8,
    pub stereo: bool,
    pub data_size_bits: u8,
    pub msb_first: bool,
    pub frame_sync_active_high: bool,
    pub frame_sync_on_first_bit: bool,
    pub frame_length: u8,
    pub frame_sync_active_level_length: u8,
    pub fifo_threshold: FifoThreshold,
}

/// The clock-master sub-block: stereo 24-bit MSB-first words in 64-bit
/// frames, frame sync high for 32 bits from the first bit.
pub open spec fn master_config(tx_rx: TxRx, divider: u8) -> SaiConfig {
    SaiConfig {
        mode: SaiMode::Master,
        tx_rx,
        sync_output: true,
        sync_input_internal: false,
        clock_strobe: ClockStrobe::Falling,
        master_clock_divider: divider,
        stereo: true,
        data_size_bits: 24,
        msb_first: true,
        frame_sync_active_high: true,
        frame_sync_on_first_bit: true,
        frame_length: 64,
        frame_sync_active_level_length: 32,
        fifo_threshold: FifoThreshold::Quarter,
    }
}

/// The other sub-block: the master's frame format, synchronised to it.
pub open spec fn slave_of(master: SaiConfig, tx_rx: TxRx) -> SaiConfig {
    SaiConfig {
        mode: SaiMode::Slave,
        tx_rx,
        sync_output: false,
        sync_input_internal: true,
        clock_strobe: ClockStrobe::Rising,
        ..master
    }
}

fn master_sai_config(tx_rx: TxRx, divider: &MasterClockDivider) -> (c: SaiConfig)
    ensures
        c == master_config(tx_rx, divider@),
{
    SaiConfig {
        mode: SaiMode::Master,
        tx_rx,
        sync_output: true,
        sync_input_internal: false,
        clock_strobe: ClockStrobe::Falling,
        master_clock_divider: divider.divider(),
        stereo: true,
        data_size_bits: 24,
        msb_first: true,
        frame_sync_active_high: true,
        frame_sync_on_first_bit: true,
        frame_length: 64,
        frame_sync_active_level_length: 32,
        fifo_threshold: FifoThreshold::Quarter,
    }
}

fn slave_sai_config(master: &SaiConfig, tx_rx: TxRx) -> (c: SaiConfig)
    ensures
        c == slave_of(*master, tx_rx),
{
    let mut c = *master;
    c.mode = SaiMode::Slave;
    c.tx_rx = tx_rx;
    c.sync_output = false;
    c.sync_input_internal = true;
    c.clock_strobe = ClockStrobe::Rising;
    c
}

/// The receiver and transmitter settings of `revision`, as `(rx, tx)`.
pub open spec fn sai_configs_of(revision: BoardRevision, divider: u8) -> (SaiConfig, SaiConfig) {
    match revision {
        BoardRevision::Seed11 => {
            let rx = master_config(TxRx::Receiver, divider);
            (rx, slave_of(rx, TxRx::Transmitter))
        },
        BoardRevision::Seed12 => {
            let tx = master_config(TxRx::Transmitter, divider);
            (slave_of(tx, TxRx::Receiver), tx)
        },
    }
}

/// The receiver and transmitter settings, as `(rx, tx)`: one sub-block is
/// the clock master, the other runs synchronously with it.
pub fn prepare_sai_configs(revision: BoardRevision, divider: &MasterClockDivider) -> (r: (SaiConfig, SaiConfig))
    ensures
        r == sai_configs_of(revision, divider@),
{
    match revision {
        BoardRevision::Seed11 => {
            let rx = master_sai_config(TxRx::Receiver, divider);
            let tx = slave_sai_config(&rx, TxRx::Transmitter);
            (rx, tx)
        },
        BoardRevision::Seed12 => {
            let tx = master_sai_config(TxRx::Transmitter, divider);
            let rx = slave_sai_config(&tx, TxRx::Receiver);
            (rx, tx)
        },
    }
}

// ---------------------------------------------------------------------------
// Block exchange.

/// What to do when the processing step falls behind the DMA: stop, or note
/// it and go on with the block already held.
#[derive(Clone, Copy, Debug, PartialEq, Eq, Structural)]
pub enum OverrunPolicy {
    Fatal,
    LogAndContinue,
}

/// Outcome of one awaited block transfer, as the peripheral reports it.
#[derive(Clone, Copy, Debug, PartialEq, Eq, Structural)]
pub enum TransferStatus {
    Complete,
    Overrun,
    Failed,
}

/// What the loop does with a transfer outcome.
#[derive(Clone, Copy, Debug, PartialEq, Eq, Structural)]
pub enum Verdict {
    Proceed,
    /// Proceed, after logging the overrun.
    ProceedAfterOverrun,
    /// Stop the process: the failure cannot be recovered.
    Abort,
}

pub open spec fn verdict_of(policy: OverrunPolicy, status: TransferStatus) -> Verdict {
    match status {
        TransferStatus::Complete => Verdict::Proceed,
        TransferStatus::Overrun => match policy {
            OverrunPolicy::Fatal => Verdict::Abort,
            OverrunPolicy::LogAndContinue => Verdict::ProceedAfterOverrun,
        },
        TransferStatus::Failed => Verdict::Abort,
    }
}

/// The verdict `policy` gives a transfer outcome.
pub fn transfer_verdict(policy: OverrunPolicy, status: TransferStatus) -> (v: Verdict)
    ensures
        v == verdict_of(policy, status),
{
    match status {
        TransferStatus::Complete => Verdict::Proceed,
        TransferStatus::Overrun => match policy {
            OverrunPolicy::Fatal => Verdict::Abort,
            OverrunPolicy::LogAndContinue => Verdict::ProceedAfterOverrun,
        },
        TransferStatus::Failed => Verdict::Abort,
    }
}

/// Life cycle of the interface.
#[derive(Clone, Copy, Debug, PartialEq, Eq, Structural)]
pub enum StreamState {
    /// Built; no clocks running.
    Unconfigured,
    /// Codec set up with its output muted.
    Configured,
    /// Clocks running, blocks exchanged.
    Streaming,
    /// A transfer failed in a way the policy does not tolerate.
    Halted,
}

/// Where a streaming period stands.
#[derive(Clone, Copy, Debug, PartialEq, Eq, Structural)]
pub enum Stage {
    /// Waiting for the DMA to fill a receive block.
    AwaitReceive,
    /// The received block is with the processing step.
    Process,
    /// Waiting for a free transmit block to take the processed one.
    AwaitTransmit,
}

/// The interface as the contracts see it.
pub struct InterfaceView {
    pub state: StreamState,
    pub stage: Stage,
    pub policy: OverrunPolicy,
    pub codec: CodecModel,
    pub fs: Fs,
    pub rx_config: SaiConfig,
    pub tx_config: SaiConfig,
    /// The block handed to the processing step in the current or last period.
    pub input: Seq<u32>,
    /// The block for transmission: zeroed when a period's receive goes on,
    /// for the processing step to fill, then the block it submitted.
    pub output: Seq<u32>,
    pub overruns: u64,
    /// Every block handed to the processing step, one per period.
    pub delivered: Seq<Seq<u32>>,
    /// Every block given for transmission, one per period.
    pub queued: Seq<Seq<u32>>,
}

/// The invariant of the interface: blocks keep their length, and period by
/// period a block is delivered before the block of that period is queued.
pub open spec fn wf(v: InterfaceView) -> bool {
    &&& v.input.len() == HALF_DMA_BUFFER_LENGTH
    &&& v.output.len() == HALF_DMA_BUFFER_LENGTH
    &&& forall|i: int| 0 <= i < v.delivered.len() ==> #[trigger] v.delivered[i].len() == HALF_DMA_BUFFER_LENGTH
    &&& forall|i: int| 0 <= i < v.queued.len() ==> #[trigger] v.queued[i].len() == HALF_DMA_BUFFER_LENGTH
    &&& v.delivered.len() == v.queued.len() + if v.stage == Stage::Process { 1int } else { 0int }
    &&& v.state != StreamState::Streaming && v.state != StreamState::Halted ==> {
        &&& v.stage == Stage::AwaitReceive
        &&& v.delivered.len() == 0
    }
}

/// A block of silence.
pub open spec fn silent_block() -> Seq<u32> {
    Seq::new(HALF_DMA_BUFFER_LENGTH as nat, |_i: int| 0u32)
}

/// One more overrun, the count stopping at its maximum.
pub open spec fn count_overrun(n: u64) -> u64 {
    if n < u64::MAX {
        (n + 1) as u64
    } else {
        n
    }
}

/// A receive outcome: on `Complete` the new block goes to the processing
/// step; on a tolerated overrun the block already held goes again; either
/// way the processing step gets an empty output block. Otherwise the
/// interface halts.
pub open spec fn receive_next(v: InterfaceView, status: TransferStatus, block: Seq<u32>) -> InterfaceView {
    match verdict_of(v.policy, status) {
        Verdict::Abort => InterfaceView { state: StreamState::Halted, ..v },
        _ => {
            let input = if status == TransferStatus::Complete {
                block
            } else {
                v.input
            };
            InterfaceView {
                stage: Stage::Process,
                input,
                output: silent_block(),
                overruns: if status == TransferStatus::Overrun {
                    count_overrun(v.overruns)
                } else {
                    v.overruns
                },
                delivered: v.delivered.push(input),
                ..v
            }
        },
    }
}

/// The processing step hands back the block to transmit.
pub open spec fn submit_next(v: InterfaceView, block: Seq<u32>) -> InterfaceView {
    InterfaceView { stage: Stage::AwaitTransmit, output: block, queued: v.queued.push(block), ..v }
}

/// A transmit outcome: the period ends, or the interface halts.
pub open spec fn transmit_next(v: InterfaceView, status: TransferStatus) -> InterfaceView {
    match verdict_of(v.policy, status) {
        Verdict::Abort => InterfaceView { state: StreamState::Halted, ..v },
        _ => InterfaceView {
            stage: Stage::AwaitReceive,
            overruns: if status == TransferStatus::Overrun {
                count_overrun(v.overruns)
            } else {
                v.overruns
            },
            ..v
        },
    }
}

/// One step of bringing the stream up.
#[derive(Clone, Copy, Debug, PartialEq, Eq, Structural)]
pub enum AudioStep {
    /// Send a register word to the codec.
    WriteCodec(CodecRegister),
    /// Wait at least `micros` microseconds.
    Wait { micros: u64 },
    /// Start the transmitting sub-block.
    StartTransmitter,
    /// Start the receiving sub-block.
    StartReceiver,
}

/// Each of `regs` written, in order, and followed by the codec's settle time.
pub open spec fn settled_writes(regs: Seq<CodecRegister>) -> Seq<AudioStep> {
    Seq::new(
        2 * regs.len(),
        |i: int|
            if i % 2 == 0 {
                AudioStep::WriteCodec(regs[i / 2])
            } else {
                AudioStep::Wait { micros: SETTLE_MICROS }
            },
    )
}

fn append_settled_writes(regs: &Vec<CodecRegister>, steps: &mut Vec<AudioStep>)
    ensures
        final(steps)@ == old(steps)@ + settled_writes(regs@),
{
    let ghost start = steps@;
    let mut i: usize = 0;
    while i < regs.len()
        invariant
            i <= regs@.len(),
            steps@.len() == start.len() + 2 * i,
            forall|j: int| 0 <= j < start.len() ==> steps@[j] == start[j],
            forall|k: int| 0 <= k < i ==> {
                &&& steps@[start.len() + 2 * k] == AudioStep::WriteCodec(#[trigger] regs@[k])
                &&& steps@[start.len() + 2 * k + 1] == AudioStep::Wait { micros: SETTLE_MICROS }
            },
        decreases regs@.len() - i,
    {
        let ghost prev = steps@;
        steps.push(AudioStep::WriteCodec(regs[i]));
        steps.push(AudioStep::Wait { micros: SETTLE_MICROS });
        proof {
            assert(steps@ == prev.push(AudioStep::WriteCodec(regs@[i as int])).push(
                AudioStep::Wait { micros: SETTLE_MICROS },
            ));
            assert forall|k: int| 0 <= k < i + 1 implies {
                &&& steps@[start.len() + 2 * k] == AudioStep::WriteCodec(#[trigger] regs@[k])
                &&& steps@[start.len() + 2 * k + 1] == AudioStep::Wait { micros: SETTLE_MICROS }
            } by {
                if k < i {
                    assert(prev[start.len() + 2 * k] == AudioStep::WriteCodec(regs@[k]));
                }
            }
        }
        i = i + 1;
    }
    let ghost target = start + settled_writes(regs@);
    assert forall|j: int| 0 <= j < target.len() implies #[trigger] steps@[j] == target[j] by {
        if j >= start.len() {
            let m = j - start.len();
            let k = m / 2;
            assert(m == 2 * k || m == 2 * k + 1);
            assert(steps@[start.len() + 2 * k] == AudioStep::WriteCodec(regs@[k]));
            assert(target[j] == settled_writes(regs@)[m]);
        }
    }
    assert(steps@ =~= target);
}

/// The full-duplex block exchange between the serial-audio peripheral and a
/// processing step.
pub struct Interface {
    state: StreamState,
    stage: Stage,
    policy: OverrunPolicy,
    codec: CodecModel,
    fs: Fs,
    rx_config: SaiConfig,
    tx_config: SaiConfig,
    input: InterleavedBlock,
    output: InterleavedBlock,
    overruns: u64,
    delivered: Ghost<Seq<Seq<u32>>>,
    queued: Ghost<Seq<Seq<u32>>>,
}

impl View for Interface {
    type V = InterfaceView;

    closed spec fn view(&self) -> InterfaceView {
        InterfaceView {
            state: self.state,
            stage: self.stage,
            policy: self.policy,
            codec: self.codec,
            fs: self.fs,
            rx_config: self.rx_config,
            tx_config: self.tx_config,
            input: self.input@,
            output: self.output@,
            overruns: self.overruns,
            delivered: self.delivered@,
            queued: self.queued@,
        }
    }
}

impl Interface {
    /// An interface for `revision` at `config.fs`, its serial-audio
    /// sub-blocks clocked from `kernel_clock_hz`; both blocks start silent.
    pub fn new(
        revision: BoardRevision,
        config: AudioConfig,
        kernel_clock_hz: u32,
        policy: OverrunPolicy,
    ) -> (r: Interface)
        requires
            1 <= divider_for(config.fs, kernel_clock_hz) <= 63,
        ensures
            wf(r@),
            r@.state == StreamState::Unconfigured,
            r@.stage == Stage::AwaitReceive,
            r@.policy == policy,
            r@.codec == codec_of(revision),
            r@.fs == config.fs,
            (r@.rx_config, r@.tx_config) == sai_configs_of(revision, divider_for(config.fs, kernel_clock_hz) as u8),
            r@.input == silent_block(),
            r@.output == silent_block(),
            r@.overruns == 0,
            r@.delivered.len() == 0,
            r@.queued.len() == 0,
    {
        let divider = config.fs.into_clock_divider(kernel_clock_hz);
        let (rx_config, tx_config) = prepare_sai_configs(revision, &divider);
        let r = Interface {
            state: StreamState::Unconfigured,
            stage: Stage::AwaitReceive,
            policy,
            codec: revision.codec(),
            fs: config.fs,
            rx_config,
            tx_config,
            input: [0u32; HALF_DMA_BUFFER_LENGTH],
            output: [0u32; HALF_DMA_BUFFER_LENGTH],
            overruns: 0,
            delivered: Ghost(Seq::empty()),
            queued: Ghost(Seq::empty()),
        };
        assert(r@.input =~= silent_block());
        assert(r@.output =~= silent_block());
        r
    }

    /// Moves to `Configured`, returning what brings the codec up with its
    /// output muted: a settle wait, then each register word followed by the
    /// codec's settle time.
    pub fn configure(&mut self) -> (steps: Vec<AudioStep>)
        requires
            wf(old(self)@),
            old(self)@.state == StreamState::Unconfigured,
        ensures
            wf(final(self)@),
            final(self)@ == (InterfaceView { state: StreamState::Configured, ..old(self)@ }),
            steps@ == match old(self)@.codec {
                CodecModel::Wm8731 => seq![AudioStep::Wait { micros: SETTLE_MICROS }] + settled_writes(
                    wm8731_setup(old(self)@.fs),
                ),
                CodecModel::Pcm3060 => Seq::<AudioStep>::empty(),
            },
    {
        self.state = StreamState::Configured;
        let regs = self.codec.setup(self.fs);
        let mut steps: Vec<AudioStep> = Vec::new();
        if regs.len() > 0 {
            steps.push(AudioStep::Wait { micros: SETTLE_MICROS });
        }
        append_settled_writes(&regs, &mut steps);
        proof {
            if self.codec == CodecModel::Pcm3060 {
                assert(steps@ =~= Seq::<AudioStep>::empty());
            }
        }
        steps
    }

    /// Moves to `Streaming`, returning what starts the stream: the codec
    /// words that enable its output, each followed by the settle time, then
    /// starting the transmitter, then the receiver.
    pub fn start(&mut self) -> (steps: Vec<AudioStep>)
        requires
            wf(old(self)@),
            old(self)@.state == StreamState::Configured,
        ensures
            wf(final(self)@),
            final(self)@ == (InterfaceView { state: StreamState::Streaming, ..old(self)@ }),
            steps@ == settled_writes(
                match old(self)@.codec {
                    CodecModel::Wm8731 => seq![power_down_register(true)],
                    CodecModel::Pcm3060 => Seq::<CodecRegister>::empty(),
                },
            ) + seq![AudioStep::StartTransmitter, AudioStep::StartReceiver],
    {
        self.state = StreamState::Streaming;
        let regs = self.codec.enable_output();
        let mut steps: Vec<AudioStep> = Vec::new();
        append_settled_writes(&regs, &mut steps);
        let ghost writes = steps@;
        steps.push(AudioStep::StartTransmitter);
        steps.push(AudioStep::StartReceiver);
        assert(steps@ =~= writes + seq![AudioStep::StartTransmitter, AudioStep::StartReceiver]);
        steps
    }

    /// Takes the outcome of awaiting a receive block, and the block.
    pub fn receive(&mut self, status: TransferStatus, block: &InterleavedBlock) -> (v: Verdict)
        requires
            wf(old(self)@),
            old(self)@.state == StreamState::Streaming,
            old(self)@.stage == Stage::AwaitReceive,
        ensures
            wf(final(self)@),
            v == verdict_of(old(self)@.policy, status),
            final(self)@ == receive_next(old(self)@, status, block@),
    {
        let v = transfer_verdict(self.policy, status);
        match v {
            Verdict::Abort => {
                self.state = StreamState::Halted;
            },
            _ => {
                if status == TransferStatus::Complete {
                    self.input = *block;
                } else {
                    self.overruns = if self.overruns < u64::MAX { self.overruns + 1 } else { self.overruns };
                }
                self.output = [0u32; HALF_DMA_BUFFER_LENGTH];
                assert(self.output@ =~= silent_block());
                self.stage = Stage::Process;
                self.delivered = Ghost(self.delivered@.push(self.input@));
            },
        }
        proof {
            let w = self@;
            assert forall|i: int| 0 <= i < w.delivered.len() implies #[trigger] w.delivered[i].len() == HALF_DMA_BUFFER_LENGTH by {
                if i < old(self)@.delivered.len() {
                    assert(w.delivered[i] == old(self)@.delivered[i]);
                }
            }
        }
        v
    }

    /// The block for the processing step.
    pub fn input(&self) -> (b: &InterleavedBlock)
        ensures
            b@ == self@.input,
    {
        &self.input
    }

    /// Takes the block the processing step produced for this period.
    pub fn submit(&mut self, block: &InterleavedBlock)
        requires
            wf(old(self)@),
            old(self)@.state == StreamState::Streaming,
            old(self)@.stage == Stage::Process,
        ensures
            wf(final(self)@),
            final(self)@ == submit_next(old(self)@, block@),
    {
        self.output = *block;
        self.stage = Stage::AwaitTransmit;
        self.queued = Ghost(self.queued@.push(self.output@));
        proof {
            let w = self@;
            assert forall|i: int| 0 <= i < w.queued.len() implies #[trigger] w.queued[i].len() == HALF_DMA_BUFFER_LENGTH by {
                if i < old(self)@.queued.len() {
                    assert(w.queued[i] == old(self)@.queued[i]);
                }
            }
        }
    }

    /// During processing, the empty block the processing step fills; once
    /// submitted, the block to copy into the free transmit half.
    pub fn output(&self) -> (b: &InterleavedBlock)
        ensures
            b@ == self@.output,
    {
        &self.output
    }

    /// Takes the outcome of handing the output block to the transmitter.
    pub fn transmitted(&mut self, status: TransferStatus) -> (v: Verdict)
        requires
            wf(old(self)@),
            old(self)@.state == StreamState::Streaming,
            old(self)@.stage == Stage::AwaitTransmit,
        ensures
            wf(final(self)@),
            v == verdict_of(old(self)@.policy, status),
            final(self)@ == transmit_next(old(self)@, status),
    {
        let v = transfer_verdict(self.policy, status);
        match v {
            Verdict::Abort => {
                self.state = StreamState::Halted;
            },
            _ => {
                if status == TransferStatus::Overrun {
                    self.overruns = if self.overruns < u64::MAX { self.overruns + 1 } else { self.overruns };
                }
                self.stage = Stage::AwaitReceive;
            },
        }
        v
    }

    /// Where the interface is in its life cycle.
    pub fn state(&self) -> (s: StreamState)
        ensures
            s == self@.state,
    {
        self.state
    }

    /// Where the current period stands.
    pub fn stage(&self) -> (s: Stage)
        ensures
            s == self@.stage,
    {
        self.stage
    }

    /// Overruns tolerated so far.
    pub fn overruns(&self) -> (n: u64)
        ensures
            n == self@.overruns,
    {
        self.overruns
    }

    /// The receiver's settings.
    pub fn sai_rx_config(&self) -> (c: SaiConfig)
        ensures
            c == self@.rx_config,
    {
        self.rx_config
    }

    /// The transmitter's settings.
    pub fn sai_tx_config(&self) -> (c: SaiConfig)
        ensures
            c == self@.tx_config,
    {
        self.tx_config
    }
}

/// One period in which both transfers complete and the processing step hands
/// back the received block unchanged.
pub open spec fn passthrough_period(v: InterfaceView, block: Seq<u32>) -> InterfaceView {
    let r = receive_next(v, TransferStatus::Complete, block);
    transmit_next(submit_next(r, r.input), TransferStatus::Complete)
}

/// Consecutive passthrough periods receiving `blocks`, in order.
pub open spec fn passthrough_run(v: InterfaceView, blocks: Seq<Seq<u32>>) -> InterfaceView
    decreases blocks.len(),
{
    if blocks.len() == 0 {
        v
    } else {
        passthrough_period(passthrough_run(v, blocks.drop_last()), blocks.last())
    }
}

/// Latency: with a passthrough processing step and no overrun, the block
/// queued for transmission in each period is, bit for bit, the block received
/// in that same period, so the output echoes the input one block period later.
pub proof fn lemma_passthrough_echo(v: InterfaceView, blocks: Seq<Seq<u32>>)
    requires
        wf(v),
        v.state == StreamState::Streaming,
        v.stage == Stage::AwaitReceive,
        forall|i: int| 0 <= i < blocks.len() ==> #[trigger] blocks[i].len() == HALF_DMA_BUFFER_LENGTH,
    ensures
        wf(passthrough_run(v, blocks)),
        passthrough_run(v, blocks).state == StreamState::Streaming,
        passthrough_run(v, blocks).stage == Stage::AwaitReceive,
        passthrough_run(v, blocks).delivered == v.delivered + blocks,
        passthrough_run(v, blocks).queued == v.queued + blocks,
        forall|k: int| 0 <= k < blocks.len() ==>
            passthrough_run(v, blocks).queued[v.queued.len() + k] == #[trigger] passthrough_run(v, blocks).delivered[v.delivered.len() + k],
    decreases blocks.len(),
{
    if blocks.len() > 0 {
        let prefix = blocks.drop_last();
        lemma_passthrough_echo(v, prefix);
        let u = passthrough_run(v, prefix);
        let w = passthrough_run(v, blocks);
        assert(u.delivered.push(blocks.last()) =~= v.delivered + blocks);
        assert(u.queued.push(blocks.last()) =~= v.queued + blocks);
        assert forall|i: int| 0 <= i < w.delivered.len() implies #[trigger] w.delivered[i].len() == HALF_DMA_BUFFER_LENGTH by {
            if i < v.delivered.len() {
                assert(w.delivered[i] == v.delivered[i]);
            } else {
                assert(w.delivered[i] == blocks[i - v.delivered.len()]);
            }
        }
        assert forall|i: int| 0 <= i < w.queued.len() implies #[trigger] w.queued[i].len() == HALF_DMA_BUFFER_LENGTH by {
            if i < v.queued.len() {
                assert(w.queued[i] == v.queued[i]);
            } else {
                assert(w.queued[i] == blocks[i - v.queued.len()]);
            }
        }
    } else {
        assert(v.delivered + blocks =~= v.delivered);
        assert(v.queued + blocks =~= v.queued);
    }
}

/// Overrun policy: an overrun halts the interface under `Fatal` and never
/// under `LogAndContinue`, where the period goes on with the block already
/// held, of the same fixed length; no transition changes the policy.
pub proof fn lemma_overrun_policy(v: InterfaceView, block: Seq<u32>)
    requires
        wf(v),
        v.state == StreamState::Streaming,
        block.len() == HALF_DMA_BUFFER_LENGTH,
    ensures
        v.stage == Stage::AwaitReceive ==> {
            let r = receive_next(v, TransferStatus::Overrun, block);
            &&& r.policy == v.policy
            &&& v.policy == OverrunPolicy::Fatal ==> r.state == StreamState::Halted && r.delivered == v.delivered
            &&& v.policy == OverrunPolicy::LogAndContinue ==> {
                &&& wf(r)
                &&& r.state == StreamState::Streaming
                &&& r.stage == Stage::Process
                &&& r.delivered == v.delivered.push(v.input)
                &&& r.delivered.last().len() == HALF_DMA_BUFFER_LENGTH
            }
        },
        v.stage == Stage::AwaitTransmit ==> {
            let t = transmit_next(v, TransferStatus::Overrun);
            &&& t.policy == v.policy
            &&& v.policy == OverrunPolicy::Fatal ==> t.state == StreamState::Halted
            &&& v.policy == OverrunPolicy::LogAndContinue ==> {
                &&& wf(t)
                &&& t.state == StreamState::Streaming
                &&& t.stage == Stage::AwaitReceive
                &&& t.queued == v.queued
            }
        },
{
    if v.stage == Stage::AwaitReceive && v.policy == OverrunPolicy::LogAndContinue {
        let r = receive_next(v, TransferStatus::Overrun, block);
        assert forall|i: int| 0 <= i < r.delivered.len() implies #[trigger] r.delivered[i].len() == HALF_DMA_BUFFER_LENGTH by {
            if i < v.delivered.len() {
                assert(r.delivered[i] == v.delivered[i]);
            }
        }
    }
}

} // verus!
