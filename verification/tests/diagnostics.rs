use solar_sim::diagnostics::{update_fps, FpsReadout, FPS_TARGET};

fn whole_frames(smoothed: f64) -> u64 {
    smoothed as u64
}

#[test]
fn target_is_sixty_frames_per_second() {
    assert_eq!(FPS_TARGET, 60);
}

#[test]
fn no_sample_reads_as_missing() {
    assert_eq!(update_fps(None), FpsReadout::Missing);
}

#[test]
fn sixty_and_above_read_as_good() {
    assert_eq!(update_fps(Some(60)), FpsReadout::Good);
    assert_eq!(update_fps(Some(61)), FpsReadout::Good);
    assert_eq!(update_fps(Some(144)), FpsReadout::Good);
    assert_eq!(update_fps(Some(u64::MAX)), FpsReadout::Good);
}

#[test]
fn below_sixty_reads_as_bad() {
    assert_eq!(update_fps(Some(59)), FpsReadout::Bad);
    assert_eq!(update_fps(Some(30)), FpsReadout::Bad);
    assert_eq!(update_fps(Some(0)), FpsReadout::Bad);
}

#[test]
fn whole_frames_keep_the_threshold_of_the_measurement() {
    for smoothed in [0.0f64, 12.5, 59.0, 59.999999, 60.0, 60.000001, 75.3, 1.0e9] {
        let expected = if smoothed >= 60.0 { FpsReadout::Good } else { FpsReadout::Bad };
        assert_eq!(update_fps(Some(whole_frames(smoothed))), expected);
    }
    assert_eq!(update_fps(Some(whole_frames(f64::NAN))), FpsReadout::Bad);
    assert_eq!(update_fps(Some(whole_frames(f64::INFINITY))), FpsReadout::Good);
    assert_eq!(update_fps(Some(whole_frames(-3.0))), FpsReadout::Bad);
}
