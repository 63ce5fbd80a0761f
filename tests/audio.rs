use daisy_embassy::audio::{
    mclk_div_from_u8, prepare_sai_configs, AudioStep, transfer_verdict, AudioConfig, BoardRevision,
    ClockStrobe, FifoThreshold, Fs, Interface, InterleavedBlock, OverrunPolicy, SaiMode, Stage,
    StreamState, TransferStatus, TxRx, Verdict, BLOCK_LENGTH, DMA_BUFFER_LENGTH,
    HALF_DMA_BUFFER_LENGTH,
};
use daisy_embassy::codec::CodecRegister;

const KERNEL_CLOCK: u32 = 49_152_000;

fn block_from(first: u32) -> InterleavedBlock {
    let mut b = [0u32; HALF_DMA_BUFFER_LENGTH];
    for (i, w) in b.iter_mut().enumerate() {
        *w = first + i as u32;
    }
    b
}

fn streaming(revision: BoardRevision, policy: OverrunPolicy) -> Interface {
    let mut iface = Interface::new(revision, AudioConfig::default(), KERNEL_CLOCK, policy);
    iface.configure();
    iface.start();
    iface
}

#[test]
fn block_sizes() {
    assert_eq!(BLOCK_LENGTH, 32);
    assert_eq!(HALF_DMA_BUFFER_LENGTH, 2 * BLOCK_LENGTH);
    assert_eq!(DMA_BUFFER_LENGTH, 2 * HALF_DMA_BUFFER_LENGTH);
}

#[test]
fn sample_rates_and_dividers() {
    assert_eq!(Fs::Fs44100.hz(), 44100);
    assert_eq!(Fs::Fs48000.into_clock_divider(KERNEL_CLOCK).divider(), 4);
    assert_eq!(Fs::Fs96000.into_clock_divider(KERNEL_CLOCK).divider(), 2);
    assert_eq!(Fs::Fs8000.into_clock_divider(KERNEL_CLOCK).divider(), 24);
    assert_eq!(Fs::Fs32000.into_clock_divider(KERNEL_CLOCK).divider(), 6);
    // truncating division: 49.152 MHz / (44.1 kHz * 256) = 4.35
    assert_eq!(Fs::Fs44100.into_clock_divider(KERNEL_CLOCK).divider(), 4);
    // a faster kernel clock: 96 kHz gets 21, and 8 kHz (quotient 260) has no divider
    assert_eq!(Fs::Fs96000.into_clock_divider(532_480_000).divider(), 21);
    assert_eq!(532_480_000 / (Fs::Fs8000.hz() * 256), 260);
    assert_eq!(mclk_div_from_u8(1).divider(), 1);
    assert_eq!(mclk_div_from_u8(63).divider(), 63);
}

#[test]
fn default_config_is_48k() {
    assert_eq!(AudioConfig::default().fs, Fs::Fs48000);
}

#[test]
fn seed_1_1_receiver_drives_the_clocks() {
    let (rx, tx) = prepare_sai_configs(BoardRevision::Seed11, &mclk_div_from_u8(4));
    assert_eq!((rx.mode, rx.tx_rx, rx.clock_strobe), (SaiMode::Master, TxRx::Receiver, ClockStrobe::Falling));
    assert!(rx.sync_output && !rx.sync_input_internal);
    assert_eq!((tx.mode, tx.tx_rx, tx.clock_strobe), (SaiMode::Slave, TxRx::Transmitter, ClockStrobe::Rising));
    assert!(!tx.sync_output && tx.sync_input_internal);
    for c in [rx, tx] {
        assert_eq!(c.master_clock_divider, 4);
        assert_eq!(c.data_size_bits, 24);
        assert_eq!(c.frame_length, 64);
        assert_eq!(c.frame_sync_active_level_length, 32);
        assert_eq!(c.fifo_threshold, FifoThreshold::Quarter);
        assert!(c.stereo && c.msb_first && c.frame_sync_active_high && c.frame_sync_on_first_bit);
    }
}

#[test]
fn seed_1_2_transmitter_drives_the_clocks() {
    let (rx, tx) = prepare_sai_configs(BoardRevision::Seed12, &mclk_div_from_u8(2));
    assert_eq!((tx.mode, tx.tx_rx), (SaiMode::Master, TxRx::Transmitter));
    assert_eq!((rx.mode, rx.tx_rx), (SaiMode::Slave, TxRx::Receiver));
    assert!(rx.sync_input_internal);
    assert_eq!(rx.master_clock_divider, 2);
}

#[test]
fn life_cycle_and_codec_writes() {
    let mut iface = Interface::new(
        BoardRevision::Seed11,
        AudioConfig { fs: Fs::Fs48000 },
        KERNEL_CLOCK,
        OverrunPolicy::Fatal,
    );
    assert_eq!(iface.state(), StreamState::Unconfigured);
    assert_eq!(iface.sai_rx_config().mode, SaiMode::Master);
    assert_eq!(iface.sai_tx_config().mode, SaiMode::Slave);
    let setup = iface.configure();
    assert_eq!(setup.len(), 17);
    assert_eq!(setup[0], AudioStep::Wait { micros: 10 });
    assert_eq!(setup[1], AudioStep::WriteCodec(CodecRegister { address: 15, value: 0 }));
    assert_eq!(setup[2], AudioStep::Wait { micros: 10 });
    assert_eq!(setup[3], AudioStep::WriteCodec(CodecRegister { address: 6, value: 0x72 }));
    assert_eq!(setup[15], AudioStep::WriteCodec(CodecRegister { address: 9, value: 1 }));
    assert_eq!(setup[16], AudioStep::Wait { micros: 10 });
    assert_eq!(iface.state(), StreamState::Configured);
    let enable = iface.start();
    assert_eq!(
        enable,
        vec![
            AudioStep::WriteCodec(CodecRegister { address: 6, value: 0x62 }),
            AudioStep::Wait { micros: 10 },
            AudioStep::StartTransmitter,
            AudioStep::StartReceiver,
        ]
    );
    assert_eq!(iface.state(), StreamState::Streaming);
    assert_eq!(iface.stage(), Stage::AwaitReceive);
    assert_eq!(iface.output(), &[0u32; HALF_DMA_BUFFER_LENGTH]);
}

#[test]
fn pcm3060_board_starts_without_codec_writes() {
    let mut iface = Interface::new(
        BoardRevision::Seed12,
        AudioConfig::default(),
        KERNEL_CLOCK,
        OverrunPolicy::LogAndContinue,
    );
    assert!(iface.configure().is_empty());
    assert_eq!(iface.start(), vec![AudioStep::StartTransmitter, AudioStep::StartReceiver]);
}

#[test]
fn passthrough_echoes_a_ramp_block_for_block() {
    let mut iface = streaming(BoardRevision::Seed11, OverrunPolicy::Fatal);
    for period in 0..100u32 {
        let rx = block_from(period * HALF_DMA_BUFFER_LENGTH as u32);
        assert_eq!(iface.receive(TransferStatus::Complete, &rx), Verdict::Proceed);
        assert_eq!(iface.stage(), Stage::Process);
        assert_eq!(iface.output(), &[0u32; HALF_DMA_BUFFER_LENGTH]);
        let input = *iface.input();
        assert_eq!(input.len(), HALF_DMA_BUFFER_LENGTH);
        let mut out = [0u32; HALF_DMA_BUFFER_LENGTH];
        out.copy_from_slice(&input);
        iface.submit(&out);
        assert_eq!(iface.output(), &rx);
        assert_eq!(iface.transmitted(TransferStatus::Complete), Verdict::Proceed);
        assert_eq!(iface.stage(), Stage::AwaitReceive);
    }
    assert_eq!(iface.overruns(), 0);
}

#[test]
fn processing_step_output_is_what_is_transmitted() {
    let mut iface = streaming(BoardRevision::Seed11, OverrunPolicy::Fatal);
    iface.receive(TransferStatus::Complete, &block_from(10));
    let mut out = *iface.output();
    for (o, i) in out.iter_mut().zip(iface.input().iter()) {
        *o = i.wrapping_mul(2);
    }
    iface.submit(&out);
    assert_eq!(iface.output()[0], 20);
    assert_eq!(iface.output()[63], 146);
}

#[test]
fn fatal_policy_halts_on_receive_overrun() {
    let mut iface = streaming(BoardRevision::Seed11, OverrunPolicy::Fatal);
    assert_eq!(iface.receive(TransferStatus::Overrun, &block_from(0)), Verdict::Abort);
    assert_eq!(iface.state(), StreamState::Halted);
}

#[test]
fn fatal_policy_halts_on_transmit_overrun() {
    let mut iface = streaming(BoardRevision::Seed11, OverrunPolicy::Fatal);
    iface.receive(TransferStatus::Complete, &block_from(0));
    iface.submit(&block_from(0));
    assert_eq!(iface.transmitted(TransferStatus::Overrun), Verdict::Abort);
    assert_eq!(iface.state(), StreamState::Halted);
}

#[test]
fn continue_policy_keeps_streaming_with_stale_block() {
    let mut iface = streaming(BoardRevision::Seed11, OverrunPolicy::LogAndContinue);
    let first = block_from(1000);
    iface.receive(TransferStatus::Complete, &first);
    iface.submit(&first);
    iface.transmitted(TransferStatus::Complete);
    // the processing step was slow: the next receive overran
    assert_eq!(iface.receive(TransferStatus::Overrun, &block_from(5000)), Verdict::ProceedAfterOverrun);
    assert_eq!(iface.state(), StreamState::Streaming);
    assert_eq!(iface.input(), &first);
    assert_eq!(iface.input().len(), HALF_DMA_BUFFER_LENGTH);
    let held = *iface.input();
    iface.submit(&held);
    assert_eq!(iface.transmitted(TransferStatus::Overrun), Verdict::ProceedAfterOverrun);
    assert_eq!(iface.overruns(), 2);
    // later blocks are whole again
    let next = block_from(9000);
    assert_eq!(iface.receive(TransferStatus::Complete, &next), Verdict::Proceed);
    assert_eq!(iface.input(), &next);
    assert_eq!(iface.output().len(), HALF_DMA_BUFFER_LENGTH);
}

#[test]
fn failed_transfer_always_aborts() {
    for policy in [OverrunPolicy::Fatal, OverrunPolicy::LogAndContinue] {
        let mut iface = streaming(BoardRevision::Seed11, policy);
        assert_eq!(iface.receive(TransferStatus::Failed, &block_from(0)), Verdict::Abort);
        assert_eq!(iface.state(), StreamState::Halted);
    }
}

#[test]
fn verdict_table() {
    assert_eq!(transfer_verdict(OverrunPolicy::Fatal, TransferStatus::Complete), Verdict::Proceed);
    assert_eq!(transfer_verdict(OverrunPolicy::Fatal, TransferStatus::Overrun), Verdict::Abort);
    assert_eq!(transfer_verdict(OverrunPolicy::Fatal, TransferStatus::Failed), Verdict::Abort);
    assert_eq!(transfer_verdict(OverrunPolicy::LogAndContinue, TransferStatus::Complete), Verdict::Proceed);
    assert_eq!(transfer_verdict(OverrunPolicy::LogAndContinue, TransferStatus::Overrun), Verdict::ProceedAfterOverrun);
    assert_eq!(transfer_verdict(OverrunPolicy::LogAndContinue, TransferStatus::Failed), Verdict::Abort);
}

#[test]
fn transmit_block_starts_empty_every_period() {
    let mut iface = streaming(BoardRevision::Seed11, OverrunPolicy::LogAndContinue);
    iface.receive(TransferStatus::Complete, &block_from(1));
    iface.submit(&block_from(500));
    iface.transmitted(TransferStatus::Complete);
    assert_eq!(iface.output(), &block_from(500));
    iface.receive(TransferStatus::Complete, &block_from(2));
    assert_eq!(iface.output(), &[0u32; HALF_DMA_BUFFER_LENGTH]);
    iface.submit(&block_from(600));
    iface.transmitted(TransferStatus::Complete);
    iface.receive(TransferStatus::Overrun, &block_from(3));
    assert_eq!(iface.output(), &[0u32; HALF_DMA_BUFFER_LENGTH]);
}
