use xiao_esp32s3_mic::mic::{MicPdm, SlotSelect, FRAME_SAMPLES, SAMPLE_RATE_HZ};

#[test]
fn new_mic_keeps_its_slot() {
    assert_eq!(MicPdm::new(SlotSelect::Left).slot(), SlotSelect::Left);
    assert_eq!(MicPdm::new(SlotSelect::Right).slot(), SlotSelect::Right);
}

#[test]
fn init_succeeds() {
    assert_eq!(MicPdm::new(SlotSelect::Right).init(), Ok(()));
}

#[test]
fn read_frame_writes_a_ramp_of_173() {
    let mut mic = MicPdm::new(SlotSelect::Left);
    let mut out = [0i16; 4];
    assert_eq!(mic.read_frame(&mut out), 8);
    assert_eq!(out, [173, 346, 519, 692]);
    assert_eq!(mic.read_frame(&mut out), 8);
    assert_eq!(out, [865, 1038, 1211, 1384]);
}

#[test]
fn microphone_constants() {
    assert_eq!(SAMPLE_RATE_HZ, 16_000);
    assert_eq!(FRAME_SAMPLES, 1024);
}
