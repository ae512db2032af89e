use beatbox::units::Bpm;
use beatbox::units::Volume;

#[test]
fn volume_takes_whole_percent_up_to_a_hundred() {
    assert_eq!(Volume::try_from(0).unwrap().as_percentage(), 0);
    assert_eq!(Volume::try_from(20).unwrap().as_percentage(), 2_000);
    assert_eq!(Volume::try_from(100).unwrap().as_scale(), 10_000);
    assert_eq!(Volume::try_from(101), Err(()));
}

#[test]
fn volume_stops_at_both_ends() {
    let volume = Volume::try_from(50).unwrap();
    assert_eq!(volume.saturating_add(5).as_percentage(), 5_005);
    assert_eq!(volume.saturating_add(-5_000).as_percentage(), 0);
    assert_eq!(volume.saturating_add(-5_001).as_percentage(), 0);
    assert_eq!(volume.saturating_add(i32::MAX).as_percentage(), 10_000);
    assert_eq!(volume.saturating_add(i32::MIN).as_percentage(), 0);
}

#[test]
fn volume_rounds_to_whole_percent() {
    let volume = Volume::try_from(50).unwrap();
    assert_eq!(u32::from(volume.saturating_add(49)), 50);
    assert_eq!(u32::from(volume.saturating_add(50)), 51);
    assert_eq!(u32::from(volume), 50);
}

#[test]
fn volume_reads_as_percent() {
    let volume = Volume::try_from(20).unwrap();
    assert_eq!(volume.to_string(), "vol:20%");
    assert_eq!(volume.saturating_add(5).to_string(), "vol:20.05%");
    assert_eq!(volume.saturating_add(50).to_string(), "vol:20.5%");
}

#[test]
fn tempo_takes_whole_beats_per_minute_in_range() {
    assert_eq!(Bpm::try_from(40).unwrap().as_milli_bpm(), 40_000);
    assert_eq!(Bpm::try_from(300).unwrap().as_milli_bpm(), 300_000);
    assert_eq!(Bpm::try_from(39), Err(()));
    assert_eq!(Bpm::try_from(301), Err(()));
}

#[test]
fn tempo_stops_at_both_ends() {
    let bpm = Bpm::try_from(120).unwrap();
    assert_eq!(bpm.saturating_add(1_000).as_milli_bpm(), 121_000);
    assert_eq!(bpm.saturating_add(-1).as_milli_bpm(), 119_999);
    assert_eq!(bpm.saturating_add(-100_000).as_milli_bpm(), 40_000);
    assert_eq!(bpm.saturating_add(i32::MAX).as_milli_bpm(), 300_000);
}

#[test]
fn tempo_rounds_to_whole_beats_per_minute() {
    let bpm = Bpm::try_from(120).unwrap();
    assert_eq!(u32::from(bpm.saturating_add(499)), 120);
    assert_eq!(u32::from(bpm.saturating_add(500)), 121);
}

#[test]
fn tempo_reads_as_beats_per_minute() {
    let bpm = Bpm::try_from(120).unwrap();
    assert_eq!(bpm.to_string(), "120bpm");
    assert_eq!(bpm.saturating_add(250).to_string(), "120.25bpm");
    assert_eq!(bpm.saturating_add(7).to_string(), "120.007bpm");
    assert_eq!(bpm.saturating_add(500).to_string(), "120.5bpm");
}
