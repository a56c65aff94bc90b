use epd42::{Epd, FrameBuffer, Transaction};

fn drained(epd: &mut Epd) -> Vec<Transaction> {
    epd.take_transactions()
}

#[test]
fn construction_emits_the_power_on_sequence() {
    let epd = Epd::new();
    assert_eq!(
        epd.transactions(),
        &vec![
            Transaction::Command(0x01),
            Transaction::Command(0x30),
            Transaction::Data(0x3C),
            Transaction::Command(0x04),
        ]
    );
}

#[test]
fn reset_pulses_the_reset_line() {
    let mut epd = Epd::new();
    drained(&mut epd);
    epd.reset();
    assert_eq!(
        epd.transactions(),
        &vec![
            Transaction::ResetHigh,
            Transaction::DelayMs(100),
            Transaction::ResetLow,
            Transaction::DelayMs(2),
            Transaction::ResetHigh,
            Transaction::DelayMs(100),
        ]
    );
}

#[test]
fn init_emits_the_golden_sequence() {
    let mut epd = Epd::new();
    epd.reset();
    drained(&mut epd);
    epd.init();
    let expected = vec![
        Transaction::WaitBusy,
        Transaction::Command(0x12),
        Transaction::WaitBusy,
        Transaction::Command(0x21),
        Transaction::Data(0x40),
        Transaction::Data(0x00),
        Transaction::Command(0x3C),
        Transaction::Data(0x05),
        Transaction::Command(0x11),
        Transaction::Data(0x03),
        Transaction::Command(0x44),
        Transaction::Data(0x00),
        Transaction::Data(0x31),
        Transaction::Command(0x45),
        Transaction::Data(0x00),
        Transaction::Data(0x00),
        Transaction::Data(0x2B),
        Transaction::Data(0x01),
        Transaction::Command(0x4E),
        Transaction::Data(0x00),
        Transaction::Command(0x4F),
        Transaction::Data(0x00),
        Transaction::Data(0x00),
        Transaction::WaitBusy,
    ];
    assert_eq!(epd.transactions(), &expected);
}

#[test]
fn clear_writes_white_to_both_planes_and_refreshes() {
    let mut epd = Epd::new();
    epd.reset();
    epd.init();
    drained(&mut epd);
    epd.clear();
    let white = vec![0xFF; 15000];
    assert_eq!(
        epd.transactions(),
        &vec![
            Transaction::Command(0x24),
            Transaction::DataBulk(white.clone()),
            Transaction::Command(0x26),
            Transaction::DataBulk(white),
            Transaction::Command(0x22),
            Transaction::Data(0xF7),
            Transaction::Command(0x20),
            Transaction::WaitBusy,
        ]
    );
}

#[test]
fn display_writes_the_frame_to_both_planes() {
    let mut epd = Epd::new();
    epd.reset();
    epd.init();
    epd.clear();
    drained(&mut epd);
    let mut fb = FrameBuffer::new(epd.width(), epd.height());
    fb.pixel(0, 0, 0x00);
    epd.display(fb.buffer());
    let frame = fb.buffer().to_vec();
    assert_eq!(
        epd.transactions(),
        &vec![
            Transaction::Command(0x24),
            Transaction::DataBulk(frame.clone()),
            Transaction::Command(0x26),
            Transaction::DataBulk(frame),
            Transaction::Command(0x22),
            Transaction::Data(0xF7),
            Transaction::Command(0x20),
            Transaction::WaitBusy,
        ]
    );
}

#[test]
fn display_partial_mode_byte_differs_from_full() {
    let image = vec![0xFF; 15000];

    let mut full = Epd::new();
    full.reset();
    full.init();
    full.clear();
    drained(&mut full);
    full.display(&image);
    let full_ops = drained(&mut full);

    let mut partial = Epd::new();
    partial.reset();
    partial.init();
    partial.clear();
    drained(&mut partial);
    partial.display_partial(&image);
    let partial_ops = drained(&mut partial);

    let mode_of = |ops: &[Transaction]| -> u8 {
        for pair in ops.windows(2) {
            if pair[0] == Transaction::Command(0x22) {
                if let Transaction::Data(mode) = pair[1] {
                    return mode;
                }
            }
        }
        panic!("no update-control-2 transaction found");
    };
    assert_eq!(mode_of(&full_ops), 0xF7);
    assert_eq!(mode_of(&partial_ops), 0xFF);
}

#[test]
fn display_partial_restates_the_window_setup() {
    let mut epd = Epd::new();
    epd.reset();
    epd.init();
    epd.clear();
    drained(&mut epd);
    let image = vec![0xFF; 15000];
    epd.display_partial(&image);
    let ops = drained(&mut epd);
    let expected_head = vec![
        Transaction::Command(0x3C),
        Transaction::Data(0x80),
        Transaction::Command(0x21),
        Transaction::Data(0x00),
        Transaction::Data(0x00),
        Transaction::Command(0x3C),
        Transaction::Data(0x80),
        Transaction::Command(0x44),
        Transaction::Data(0x00),
        Transaction::Data(0x31),
        Transaction::Command(0x45),
        Transaction::Data(0x00),
        Transaction::Data(0x00),
        Transaction::Data(0x2B),
        Transaction::Data(0x01),
        Transaction::Command(0x4E),
        Transaction::Data(0x00),
        Transaction::Command(0x4F),
        Transaction::Data(0x00),
        Transaction::Data(0x00),
    ];
    assert_eq!(&ops[..20], expected_head.as_slice());
    assert_eq!(ops[20], Transaction::Command(0x24));
    assert_eq!(ops[21], Transaction::DataBulk(image));
    assert_eq!(
        &ops[22..],
        &[
            Transaction::Command(0x22),
            Transaction::Data(0xFF),
            Transaction::Command(0x20),
            Transaction::WaitBusy,
        ]
    );
}

#[test]
fn refresh_modes_use_their_documented_bytes() {
    let mut epd = Epd::new();
    epd.reset();
    epd.init();
    drained(&mut epd);
    epd.turn_on_display();
    epd.turn_on_display_fast();
    epd.turn_on_display_partial();
    epd.turn_on_display_4gray();
    let ops = drained(&mut epd);
    let modes: Vec<u8> = ops
        .iter()
        .filter_map(|t| match t {
            Transaction::Data(mode) => Some(*mode),
            _ => None,
        })
        .collect();
    assert_eq!(modes, vec![0xF7, 0xC7, 0xFF, 0xCF]);
}

#[test]
fn sleep_emits_deep_sleep_and_settle_delay() {
    let mut epd = Epd::new();
    epd.reset();
    epd.init();
    epd.clear();
    drained(&mut epd);
    epd.sleep();
    assert_eq!(
        epd.transactions(),
        &vec![
            Transaction::Command(0x07),
            Transaction::Data(0x01),
            Transaction::DelayMs(2000),
        ]
    );
}

#[test]
fn lut_sends_all_233_bytes_in_five_segments() {
    let mut epd = Epd::new();
    epd.reset();
    epd.init();
    drained(&mut epd);
    epd.lut();
    let ops = drained(&mut epd);
    assert_eq!(ops.len(), 1 + 227 + 10);
    assert_eq!(ops[0], Transaction::Command(0x32));
    assert_eq!(ops[1], Transaction::Data(0x01));
    assert_eq!(ops[228], Transaction::Command(0x3F));
    assert_eq!(ops[230], Transaction::Command(0x03));
    assert_eq!(ops[232], Transaction::Command(0x04));
    assert_eq!(ops[236], Transaction::Command(0x2C));
    assert_eq!(ops[237], Transaction::Data(0x30));
    let data_bytes = ops
        .iter()
        .filter(|t| matches!(t, Transaction::Data(_)))
        .count();
    assert_eq!(data_bytes, 233);
}

#[test]
fn geometry_is_400_by_300() {
    let epd = Epd::new();
    assert_eq!(epd.width(), 400);
    assert_eq!(epd.height(), 300);
    assert_eq!(epd.buffer_size(), 15000);
}

#[test]
fn full_cycle_renders_a_frame() {
    let mut epd = Epd::new();
    epd.reset();
    epd.init();
    epd.clear();
    let mut fb = FrameBuffer::new(epd.width(), epd.height());
    fb.fill(0x01);
    fb.text("Hello Rust World", 30, 10, 0x00);
    fb.hline(30, 30, 10, 0x00);
    fb.vline(30, 50, 10, 0x00);
    fb.line(30, 70, 40, 80, 0x00);
    fb.rect(30, 90, 10, 10, 0x00);
    fb.fill_rect(30, 110, 10, 10, 0x00);
    epd.display(fb.buffer());
    epd.sleep();
    let ops = epd.take_transactions();
    assert!(!ops.is_empty());
    assert_eq!(ops.last(), Some(&Transaction::DelayMs(2000)));
}
