use fall_alarm::alarm_duty;
use fall_alarm::AccelerationData;
use fall_alarm::Sample;
use fall_alarm::FALL_THRESHOLD;

#[test]
fn alarm_duty_is_half_of_max_while_falling() {
    assert_eq!(alarm_duty(true, 32767), 16383);
    assert_eq!(alarm_duty(true, 100), 50);
    assert_eq!(alarm_duty(true, 0), 0);
}

#[test]
fn alarm_duty_is_silence_otherwise() {
    assert_eq!(alarm_duty(false, 32767), 0);
    assert_eq!(alarm_duty(false, 100), 0);
}

#[test]
fn step_reports_the_classification_of_the_updated_window() {
    let mut d = AccelerationData::new(2);
    assert!(d.step(Sample::new(10, 10, 10), FALL_THRESHOLD));
    assert!(!d.step(Sample::new(500, 0, 0), FALL_THRESHOLD));
    assert!(!d.step(Sample::new(0, 0, 0), FALL_THRESHOLD));
    assert!(d.step(Sample::new(0, 0, 0), FALL_THRESHOLD));
}
