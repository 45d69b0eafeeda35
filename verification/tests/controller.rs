use ass_code::comm::{message_from_byte, pulse_check_result, SolderingMessage};
use ass_code::mpu6050::MPU6050;
use ass_code::bus::I2cOp;
use ass_code::soldering::{
    calibration_is_blank, clamp_duty, decode_calibration, handle_answered, startup_calibration,
    tip_connected, AdcWindow, SolderAction, SolderControl, SolderPhase, DEFAULT_CALIBRATION,
};

#[test]
fn default_calibration_values() {
    let c = decode_calibration(&DEFAULT_CALIBRATION);
    assert_eq!((c.p_at_100c, c.p_at_400c), (706, 2824));
}

#[test]
fn blank_record_gets_default() {
    assert!(calibration_is_blank(&[0, 0, 5, 5]));
    assert!(!calibration_is_blank(&[0, 1, 0, 0]));
    let (c, blank) = startup_calibration(&[0, 0, 0xFF, 0xFF]);
    assert!(blank);
    assert_eq!((c.p_at_100c, c.p_at_400c), (706, 2824));
    let (c, blank) = startup_calibration(&[0x01, 0x00, 0x10, 0x00]);
    assert!(!blank);
    assert_eq!((c.p_at_100c, c.p_at_400c), (256, 4096));
}

#[test]
fn window_keeps_last_64_samples() {
    let mut w = AdcWindow::new();
    assert_eq!(w.average(), 0);
    for _ in 0..64 {
        w.enqueue(100);
    }
    assert_eq!(w.len(), 64);
    assert_eq!(w.average(), 100);
    for _ in 0..32 {
        w.enqueue(300);
    }
    assert_eq!(w.len(), 64);
    assert_eq!(w.average(), 200);
}

#[test]
fn window_average_shifts_before_full() {
    let mut w = AdcWindow::new();
    for _ in 0..10 {
        w.enqueue(640);
    }
    assert_eq!(w.len(), 10);
    assert_eq!(w.average(), 100);
}

#[test]
fn tip_and_duty_limits() {
    assert!(tip_connected(4000));
    assert!(!tip_connected(4001));
    assert_eq!(clamp_duty(20000), 16384);
    assert_eq!(clamp_duty(100), 100);
    assert!(handle_answered(b'y'));
    assert!(!handle_answered(b'n'));
}

#[test]
fn control_loop_handshake_then_measure() {
    let mut c = SolderControl::new(false);
    let none: Vec<u16> = Vec::new();
    assert_eq!(c.next(None, &none), SolderAction::SendPulseCheck);
    assert_eq!(c.next(Some(b'x'), &none), SolderAction::WaitMs(1000));
    assert_eq!(c.phase, SolderPhase::Start);
    assert_eq!(c.next(None, &none), SolderAction::SendPulseCheck);
    assert_eq!(c.next(Some(b'y'), &none), SolderAction::SendGyroSettings);
    assert!(c.cable_connected);
    assert_eq!(c.next(None, &none), SolderAction::WaitMs(1));
    assert_eq!(c.next(None, &none), SolderAction::SetDuty(0));
    assert_eq!(c.next(None, &none), SolderAction::WaitUs(100));
    assert_eq!(c.next(None, &none), SolderAction::ReadSamples(10));
    let samples = vec![640u16; 10];
    assert_eq!(c.next(None, &samples), SolderAction::Regulate(100));
    assert_eq!(c.next(None, &none), SolderAction::WaitMs(1));
}

#[test]
fn control_loop_detects_missing_tip() {
    let mut c = SolderControl::new(true);
    let none: Vec<u16> = Vec::new();
    for _ in 0..4 {
        c.next(None, &none);
    }
    let samples = vec![4095u16; 10];
    let mut last = SolderAction::IdleNoTip;
    for _ in 0..7 {
        last = c.next(None, &samples);
        for _ in 0..4 {
            c.next(None, &none);
        }
    }
    // 64 samples of 4095 once the window is full
    assert_eq!(last, SolderAction::IdleNoTip);
}

#[test]
fn messages_from_bytes() {
    assert_eq!(message_from_byte(b'?'), SolderingMessage::PulseCheck);
    assert_eq!(message_from_byte(b'M'), SolderingMessage::Magnet);
    assert_eq!(message_from_byte(b'G'), SolderingMessage::Gyro);
    assert_eq!(message_from_byte(b'x'), SolderingMessage::Unknown);
    assert!(pulse_check_result(Some(SolderingMessage::PulseCheck)));
    assert!(!pulse_check_result(None));
}

#[test]
fn motion_alert_setup() {
    let ops = MPU6050::new().init_motionalert();
    assert_eq!(ops.len(), 6);
    assert_eq!(ops[0], I2cOp::Write { address: 0x68, bytes: vec![0x6B, 0x80] });
    assert_eq!(ops[1], I2cOp::DelayMs(10));
    assert_eq!(ops[5], I2cOp::Write { address: 0x68, bytes: vec![0x38, 0x40] });
}
