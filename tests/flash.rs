use daisy_embassy::flash::{
    BusStep, BusWidth, Flash, FlashImage, FlashOp, Transfer, FLASH_SIZE, MAX_ADDRESS, PAGE_SIZE,
    SECTOR_SIZE,
};

fn ramp(n: usize) -> Vec<u8> {
    (0..n).map(|i| (i * 7 + 3) as u8).collect()
}

#[test]
fn write_splits_at_page_boundary() {
    let data = ramp(40);
    let ops = Flash::write(0x1F0, &data);
    assert_eq!(
        ops,
        vec![
            FlashOp::EraseSector { address: 0x1F0 },
            FlashOp::ProgramPage { address: 0x1F0, start: 0, len: 16 },
            FlashOp::ProgramPage { address: 0x200, start: 16, len: 24 },
        ]
    );
}

#[test]
fn write_of_one_full_aligned_page_is_one_program() {
    let data = ramp(256);
    let ops = Flash::write(0x1000, &data);
    assert_eq!(
        ops,
        vec![
            FlashOp::EraseSector { address: 0x1000 },
            FlashOp::ProgramPage { address: 0x1000, start: 0, len: 256 },
        ]
    );
}

#[test]
fn write_of_one_byte_at_the_last_address() {
    let ops = Flash::write(MAX_ADDRESS, &[0xAB]);
    assert_eq!(
        ops,
        vec![
            FlashOp::EraseSector { address: MAX_ADDRESS },
            FlashOp::ProgramPage { address: MAX_ADDRESS, start: 0, len: 1 },
        ]
    );
}

#[test]
fn write_never_crosses_a_page() {
    let data = ramp(1500);
    let address = 0x3_0F7A;
    let ops = Flash::write(address, &data);
    let mut next = 0usize;
    for op in &ops {
        if let FlashOp::ProgramPage { address: a, start, len } = *op {
            assert!(len > 0);
            assert!(a % PAGE_SIZE + len as u32 <= PAGE_SIZE);
            assert_eq!(start, next);
            assert_eq!(a, address + start as u32);
            next = start + len;
        }
    }
    assert_eq!(next, data.len());
}

#[test]
fn write_erases_exactly_the_sectors_touched() {
    let data = ramp(5000);
    let address = 0x2FF0;
    let ops = Flash::write(address, &data);
    let erased: Vec<u32> = ops
        .iter()
        .filter_map(|op| match op {
            FlashOp::EraseSector { address } => Some(*address),
            _ => None,
        })
        .collect();
    assert_eq!(erased, vec![0x2FF0, 0x3000, 0x4000]);
    let first = address / SECTOR_SIZE;
    let last = (address + data.len() as u32 - 1) / SECTOR_SIZE;
    assert_eq!(erased.len() as u32, last - first + 1);
    // the erases come before every program command
    let first_program = ops
        .iter()
        .position(|op| matches!(op, FlashOp::ProgramPage { .. }))
        .unwrap();
    assert_eq!(first_program, erased.len());
}

#[test]
fn erase_within_one_sector() {
    assert_eq!(Flash::erase(0x1234, 1), vec![FlashOp::EraseSector { address: 0x1234 }]);
    assert_eq!(
        Flash::erase(0x1000, SECTOR_SIZE),
        vec![FlashOp::EraseSector { address: 0x1000 }]
    );
}

#[test]
fn erase_spanning_two_sectors() {
    assert_eq!(
        Flash::erase(0xFF0, 0x20),
        vec![
            FlashOp::EraseSector { address: 0xFF0 },
            FlashOp::EraseSector { address: 0x1000 },
        ]
    );
}

#[test]
fn erase_wraps_at_the_end_of_the_device() {
    assert_eq!(
        Flash::erase(0x7F_F800, 0x1000),
        vec![
            FlashOp::EraseSector { address: 0x7F_F800 },
            FlashOp::EraseSector { address: 0 },
        ]
    );
}

#[test]
fn write_then_read_round_trips() {
    let mut device = FlashImage::filled(0x00);
    let data = ramp(1000);
    let address = 0x1_2345;
    let ops = Flash::write(address, &data);
    device.run(&ops, &data);
    assert_eq!(device.read(address, data.len()), data);
    // the rest of the erased sectors reads blank, other sectors keep their bytes
    assert_eq!(device.read(0x1_2000, 4), vec![0xFF; 4]);
    assert_eq!(device.read(0x1_1FFC, 4), vec![0x00; 4]);
}

#[test]
fn rewrite_replaces_earlier_data() {
    let mut device = FlashImage::filled(0xFF);
    let first = vec![0x0F; 300];
    let ops = Flash::write(0x200, &first);
    device.run(&ops, &first);
    let second = ramp(300);
    let ops = Flash::write(0x200, &second);
    device.run(&ops, &second);
    assert_eq!(device.read(0x200, 300), second);
}

#[test]
fn program_without_erase_only_clears_bits() {
    let mut device = FlashImage::filled(0xF0);
    let data = [0x3Cu8];
    device.apply(&FlashOp::ProgramPage { address: 10, start: 0, len: 1 }, &data);
    assert_eq!(device.read(10, 1), vec![0x30]);
    device.apply(&FlashOp::EraseSector { address: 10 }, &data);
    assert_eq!(device.read(10, 1), vec![0xFF]);
    assert_eq!(device.read(0, 1), vec![0xFF]);
    assert_eq!(device.read(SECTOR_SIZE, 1), vec![0xF0]);
}

#[test]
fn round_trip_at_the_top_of_the_device() {
    let mut device = FlashImage::filled(0x55);
    let data = ramp(600);
    let address = FLASH_SIZE - 600;
    let ops = Flash::write(address, &data);
    device.run(&ops, &data);
    assert_eq!(device.read(address, 600), data);
}

#[test]
fn init_sequence() {
    assert_eq!(
        Flash::init(),
        vec![
            FlashOp::EnterQpiMode,
            FlashOp::WriteStatusRegister { value: 0b0000_0010 },
            FlashOp::SetReadParameters { value: 0b1111_1000 },
        ]
    );
}

#[test]
fn read_transfers() {
    assert_eq!(
        Flash::read(0x100, 4),
        Transfer {
            iwidth: BusWidth::Quad,
            awidth: BusWidth::Quad,
            dwidth: BusWidth::Quad,
            instruction: 0xEB,
            address: Some(0x100),
            dummy_cycles: 6,
        }
    );
    assert_eq!(
        Flash::read_uuid(),
        Transfer {
            iwidth: BusWidth::Quad,
            awidth: BusWidth::Quad,
            dwidth: BusWidth::Quad,
            instruction: 0x4B,
            address: Some(0),
            dummy_cycles: 6,
        }
    );
    assert_eq!(
        Flash::read_status(),
        Transfer {
            iwidth: BusWidth::Quad,
            awidth: BusWidth::Off,
            dwidth: BusWidth::Quad,
            instruction: 0x05,
            address: None,
            dummy_cycles: 0,
        }
    );
    assert_eq!(
        Flash::enable_write(),
        Transfer {
            iwidth: BusWidth::Quad,
            awidth: BusWidth::Off,
            dwidth: BusWidth::Off,
            instruction: 0x06,
            address: None,
            dummy_cycles: 0,
        }
    );
}

#[test]
fn operation_transfers() {
    let t = FlashOp::EnterQpiMode.transfer();
    assert_eq!((t.iwidth, t.instruction, t.address), (BusWidth::Single, 0x35, None));
    let t = FlashOp::WriteStatusRegister { value: 2 }.transfer();
    assert_eq!((t.instruction, t.address, t.dwidth), (0x01, Some(2), BusWidth::Off));
    let t = FlashOp::SetReadParameters { value: 0xF8 }.transfer();
    assert_eq!((t.instruction, t.address), (0xC0, Some(0xF8)));
    let t = FlashOp::EraseSector { address: 0x3000 }.transfer();
    assert_eq!((t.instruction, t.address, t.dwidth), (0xD7, Some(0x3000), BusWidth::Off));
    let t = FlashOp::ProgramPage { address: 0x210, start: 5, len: 9 }.transfer();
    assert_eq!((t.instruction, t.address, t.dwidth), (0x02, Some(0x210), BusWidth::Quad));
}

#[test]
fn status_polling_stops_when_not_busy() {
    assert!(Flash::is_ready(0x00));
    assert!(Flash::is_ready(0x02));
    assert!(!Flash::is_ready(0x01));
    assert!(!Flash::is_ready(0xFF));
}

#[test]
fn every_operation_is_enabled_sent_and_polled() {
    let data = ramp(20);
    let ops = Flash::write(0xF0, &data);
    let steps = Flash::bus_sequence(&ops);
    assert_eq!(steps.len(), 3 * ops.len());
    let wren = BusStep::Command(Flash::enable_write());
    assert_eq!(
        steps,
        vec![
            wren,
            BusStep::Command(FlashOp::EraseSector { address: 0xF0 }.transfer()),
            BusStep::PollUntilReady,
            wren,
            BusStep::Program {
                transfer: FlashOp::ProgramPage { address: 0xF0, start: 0, len: 16 }.transfer(),
                start: 0,
                len: 16,
            },
            BusStep::PollUntilReady,
            wren,
            BusStep::Program {
                transfer: FlashOp::ProgramPage { address: 0x100, start: 16, len: 4 }.transfer(),
                start: 16,
                len: 4,
            },
            BusStep::PollUntilReady,
        ]
    );
}

#[test]
fn start_up_commands_are_enabled_and_polled() {
    let steps = Flash::bus_sequence(&Flash::init());
    assert_eq!(steps.len(), 9);
    assert_eq!(steps[0], BusStep::Command(Flash::enable_write()));
    assert_eq!(steps[1], BusStep::Command(FlashOp::EnterQpiMode.transfer()));
    assert_eq!(steps[2], BusStep::PollUntilReady);
    assert_eq!(steps[4], BusStep::Command(FlashOp::WriteStatusRegister { value: 2 }.transfer()));
    assert_eq!(steps[7], BusStep::Command(FlashOp::SetReadParameters { value: 0xF8 }.transfer()));
    assert_eq!(steps[8], BusStep::PollUntilReady);
}
