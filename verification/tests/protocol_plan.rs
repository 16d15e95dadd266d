use vuzic::frame::RgbaFrame;
use vuzic::protocol::{transmission_plan, HwAction};
use vuzic::strip::{to_bytes, to_output_buffer, StripBackend};

/// Split a plan into its fixed head, the data-section SPI chunks, and the
/// fixed tail.
fn sections(plan: &[HwAction]) -> (Vec<HwAction>, Vec<Vec<u8>>, Vec<HwAction>) {
    let head = plan[..9].to_vec();
    let tail = plan[plan.len() - 3..].to_vec();
    let chunks = plan[9..plan.len() - 3]
        .iter()
        .map(|a| match a {
            HwAction::SpiWrite(bytes) => bytes.clone(),
            other => panic!("data section holds {:?}", other),
        })
        .collect();
    (head, chunks, tail)
}

#[test]
fn plan_follows_the_hardware_sequence() {
    let data: Vec<u8> = (0..100).map(|i| i as u8).collect();
    let plan = transmission_plan(5, &data);
    let (head, chunks, tail) = sections(&plan);
    assert_eq!(
        head,
        vec![
            HwAction::SetReset(false),
            HwAction::WaitMicros(100),
            HwAction::SetReset(true),
            HwAction::WaitMicros(100),
            // preset 5 = 0b0101: pins 0 and 2 high
            HwAction::SetCounterPins(true, false, true, false),
            HwAction::SetCounterLoad(false),
            HwAction::SpiWrite(vec![0]),
            HwAction::SetCounterLoad(true),
            HwAction::SetLatchEnable(false),
        ]
    );
    assert_eq!(chunks, vec![data]);
    assert_eq!(
        tail,
        vec![
            HwAction::SpiWrite(vec![0xff; 16]),
            HwAction::SpiWrite(vec![0; 128]),
            HwAction::SetLatchEnable(true),
        ]
    );
}

#[test]
fn plan_chunks_never_exceed_4096_bytes_and_reassemble() {
    let data: Vec<u8> = (0..10000u32).map(|i| (i % 251) as u8).collect();
    let plan = transmission_plan(15, &data);
    let (_, chunks, _) = sections(&plan);
    assert_eq!(chunks.len(), 3);
    assert_eq!(chunks[0].len(), 4096);
    assert_eq!(chunks[1].len(), 4096);
    assert_eq!(chunks[2].len(), 1808);
    let rejoined: Vec<u8> = chunks.concat();
    assert_eq!(rejoined, data);
}

#[test]
fn plan_for_empty_data_still_runs_the_full_sequence() {
    let plan = transmission_plan(15, &Vec::new());
    let (_, chunks, _) = sections(&plan);
    assert_eq!(chunks, vec![Vec::<u8>::new()]);
}

#[test]
fn strip_backend_plans_the_encoded_frame() {
    let mut backend = StripBackend::new(2, 2, None);
    let raw: Vec<u8> = (0..16).map(|i| i as u8).collect();
    let frame = RgbaFrame::from_raw(2, 2, raw).unwrap();
    let (plan, fired) = backend.handle_frame(&frame).unwrap();
    assert!(!fired);
    let expected_bytes = to_bytes(to_output_buffer(&frame).as_slice());
    let (head, chunks, tail) = sections(&plan);
    // default preset is 15: all four counter pins high
    assert_eq!(head[4], HwAction::SetCounterPins(true, true, true, true));
    assert_eq!(chunks, vec![expected_bytes]);
    assert_eq!(tail[2], HwAction::SetLatchEnable(true));
}
