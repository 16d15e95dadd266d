use vuzic::channel::{FrameSlot, Policy, SubmitOutcome};
use vuzic::error::PipelineError;
use vuzic::fps::FpsCounter;
use vuzic::frame::{RgbFrame, RgbaFrame};
use vuzic::matrix::{submit_rgb, MatrixBackend, MatrixStep, Options};
use vuzic::strip::{submit_rgba, StripBackend};

#[test]
fn matrix_submit_rejects_wrong_shape() {
    let mut slot: FrameSlot<RgbFrame> = FrameSlot::new(Policy::Block);
    let frame = RgbFrame::black(4, 4);
    assert_eq!(
        submit_rgb(&mut slot, 8, 4, frame),
        Err(PipelineError::ShapeMismatch)
    );
    // nothing was written to the channel
    assert_eq!(slot.drain(), None);
    let frame = RgbFrame::black(8, 4);
    assert_eq!(submit_rgb(&mut slot, 8, 4, frame).unwrap(), SubmitOutcome::Accepted);
    assert!(slot.drain().is_some());
}

#[test]
fn strip_submit_rejects_wrong_shape() {
    let mut slot: FrameSlot<RgbaFrame> = FrameSlot::new(Policy::Block);
    let frame = RgbaFrame::from_raw(2, 2, vec![0; 16]).unwrap();
    assert_eq!(
        submit_rgba(&mut slot, 2, 16, frame),
        Err(PipelineError::ShapeMismatch)
    );
    assert_eq!(slot.drain(), None);
}

#[test]
fn matrix_backend_rejects_wrong_shape_before_hardware() {
    let mut backend = MatrixBackend::new(4, 4);
    let wrong = RgbFrame::black(4, 5);
    assert_eq!(
        backend.on_frame(&wrong),
        MatrixStep::Reject(PipelineError::ShapeMismatch)
    );
    let right = RgbFrame::black(4, 4);
    assert_eq!(backend.on_frame(&right), MatrixStep::PaintAndSwap(false));
}

#[test]
fn matrix_backend_reports_fps_every_256_frames() {
    let mut backend = MatrixBackend::new(2, 2);
    let frame = RgbFrame::black(2, 2);
    for n in 1..=512u32 {
        let step = backend.on_frame(&frame);
        let fire = n % 256 == 0;
        assert_eq!(step, MatrixStep::PaintAndSwap(fire), "frame {}", n);
    }
}

#[test]
fn strip_backend_rejects_wrong_shape() {
    let mut backend = StripBackend::new(2, 2, None);
    let wrong = RgbaFrame::from_raw(2, 3, vec![0; 24]).unwrap();
    assert_eq!(
        backend.handle_frame(&wrong),
        Err(PipelineError::ShapeMismatch)
    );
}

#[test]
fn strip_submit_accepts_matching_shape() {
    let mut slot: FrameSlot<RgbaFrame> = FrameSlot::new(Policy::DropNewest);
    let frame = RgbaFrame::from_raw(2, 2, vec![9; 16]).unwrap();
    assert_eq!(
        submit_rgba(&mut slot, 2, 2, frame.clone()).unwrap(),
        SubmitOutcome::Accepted
    );
    // a second frame at the occupied slot is dropped under drop-newest
    assert_eq!(
        submit_rgba(&mut slot, 2, 2, frame.clone()).unwrap(),
        SubmitOutcome::Dropped
    );
    assert_eq!(slot.drain(), Some(frame));
}

#[test]
fn strip_backend_reports_fps_every_256_frames() {
    let mut backend = StripBackend::new(1, 1, Some(3));
    let frame = RgbaFrame::from_raw(1, 1, vec![1, 2, 3, 4]).unwrap();
    for n in 1..=512u32 {
        let (_, fired) = backend.handle_frame(&frame).unwrap();
        assert_eq!(fired, n % 256 == 0, "frame {}", n);
    }
}

#[test]
fn fps_counter_fires_on_the_256th_frame() {
    let mut fps = FpsCounter::new();
    for _ in 0..255 {
        assert!(!fps.tick());
    }
    assert!(fps.tick());
    // the window restarts
    for _ in 0..255 {
        assert!(!fps.tick());
    }
    assert!(fps.tick());
}

#[test]
fn frame_size_multiplies_geometry() {
    let options = Options::default();
    assert_eq!(options.frame_size(), (192, 64));

    let options = Options {
        cols: Some(10),
        rows: Some(7),
        chain_length: None,
        parallel: None,
        hardware_mapping: None,
        pwm_dither_bits: None,
        pwm_lsb_nanoseconds: None,
        gpio_slowdown: None,
    };
    assert_eq!(options.frame_size(), (10, 7));

    let options = Options {
        cols: None,
        rows: None,
        chain_length: Some(3),
        parallel: Some(2),
        hardware_mapping: None,
        pwm_dither_bits: None,
        pwm_lsb_nanoseconds: None,
        gpio_slowdown: None,
    };
    assert_eq!(options.frame_size(), (0, 0));
}

#[test]
fn default_options_match_the_development_hardware() {
    let options = Options::default();
    assert_eq!(options.cols, Some(64));
    assert_eq!(options.rows, Some(32));
    assert_eq!(options.chain_length, Some(3));
    assert_eq!(options.parallel, Some(2));
    assert_eq!(options.hardware_mapping.as_deref(), Some("vuzic"));
    assert_eq!(options.pwm_dither_bits, Some(0));
    assert_eq!(options.pwm_lsb_nanoseconds, Some(120));
    assert_eq!(options.gpio_slowdown, Some(3));
}
