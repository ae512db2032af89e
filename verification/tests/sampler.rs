use beatbox::sampler::HistoryJitterStats;
use beatbox::sampler::JitterInfo;
use beatbox::sampler::Sample;
use beatbox::sampler::Sampler;

const SECOND: u64 = 1_000_000_000;
const MS: u64 = 1_000_000;

#[test]
fn fresh_sampler_is_empty() {
    let sampler = Sampler::new();
    assert_eq!(sampler.get_total_samples(), 0);
    assert_eq!(sampler.get_avg(), None);
    assert_eq!(sampler.history_size(0), 0);
    assert_eq!(sampler.get_dips_count(0), 0);
    assert_eq!(sampler.get_jitter_info(0), None);
}

#[test]
fn samples_older_than_the_window_are_dropped() {
    let mut sampler = Sampler::new();
    let first = vec![Sample::new(1, 0), Sample::new(2, 400 * MS), Sample::new(3, 800 * MS)];
    sampler.extend_samples(&first, 800 * MS);
    assert_eq!(sampler.history(800 * MS), vec![1, 2, 3]);
    sampler.extend_samples(&vec![Sample::new(4, 1_300 * MS)], 1_400 * MS);
    assert_eq!(sampler.history(1_400 * MS), vec![3, 4]);
    assert_eq!(sampler.history(1_350 * MS), vec![2, 3, 4]);
    assert_eq!(sampler.history_size(1_900 * MS), 1);
    assert_eq!(sampler.get_total_samples(), 4);
}

#[test]
fn sample_that_is_a_window_old_is_no_longer_recent() {
    let mut sampler = Sampler::new();
    sampler.add_sample(Sample::new(7, 5), 5);
    assert_eq!(sampler.history(SECOND + 4), vec![7]);
    assert_eq!(sampler.history(SECOND + 5), vec![]);
}

#[test]
fn running_mean_moves_by_a_thousandth() {
    let mut sampler = Sampler::new();
    sampler.add_sample(Sample::new(1_000_000, 0), 0);
    assert_eq!(sampler.get_avg(), Some(1_000_000));
    sampler.add_sample(Sample::new(2_000_000, 1), 1);
    assert_eq!(sampler.get_avg(), Some(1_001_000));
    sampler.add_sample(Sample::new(0, 2), 2);
    assert_eq!(sampler.get_avg(), Some(999_999));
}

#[test]
fn dips_are_counted_with_hysteresis() {
    let mut sampler = Sampler::new();
    let mut samples = vec![];
    for i in 0..1_000 {
        samples.push(Sample::new(2_000_000, i));
    }
    // One real dip, a wobble inside it, and a second dip.
    for (k, voltage) in [1_800_000, 1_910_000, 1_850_000, 2_000_000, 1_899_000, 1_950_000]
        .into_iter()
        .enumerate()
    {
        samples.push(Sample::new(voltage, 1_000 + k as u64));
    }
    sampler.extend_samples(&samples, 1_006);
    let avg = sampler.get_avg().unwrap();
    assert!(avg > 1_999_000 && avg < 2_000_000);
    assert_eq!(sampler.get_dips_count(1_006), 2);
}

#[test]
fn jitter_is_told_from_the_gaps() {
    let mut sampler = Sampler::new();
    let samples = vec![
        Sample::new(0, 0),
        Sample::new(0, 10 * MS),
        Sample::new(0, 40 * MS),
        Sample::new(0, 60 * MS),
    ];
    sampler.extend_samples(&samples, 60 * MS);
    assert_eq!(
        sampler.get_jitter_info(60 * MS),
        Some(JitterInfo { max: 30 * MS, min: 10 * MS, avg: 20 * MS, num_samples: 3 })
    );
    // A second later only the gaps that start inside the window count.
    assert_eq!(
        sampler.get_jitter_info(SECOND + 20 * MS),
        Some(JitterInfo { max: 20 * MS, min: 20 * MS, avg: 20 * MS, num_samples: 1 })
    );
    assert_eq!(sampler.get_jitter_info(SECOND + 40 * MS), None);
}

#[test]
fn figures_are_gathered_gap_by_gap() {
    assert_eq!(HistoryJitterStats::try_from_iter(&vec![]), None);
    assert_eq!(
        HistoryJitterStats::new(5),
        HistoryJitterStats { min: 5, max: 5, total: 5, count: 1 }
    );
    assert_eq!(
        HistoryJitterStats::new(5).update(7).update(1),
        HistoryJitterStats { min: 1, max: 7, total: 13, count: 3 }
    );
    let stats = HistoryJitterStats::try_from_iter(&vec![5, 2, 9, 3]).unwrap();
    assert_eq!(stats, HistoryJitterStats { min: 2, max: 9, total: 19, count: 4 });
    assert_eq!(JitterInfo::from(stats), JitterInfo { max: 9, min: 2, avg: 4, num_samples: 4 });
}

#[test]
fn jitter_reads_in_milliseconds() {
    let info = JitterInfo { max: 12_345_678, min: 999, avg: 1_500_000, num_samples: 42 };
    assert_eq!(info.to_string(), "ms[ 0.000, 12.345] avg  1.500/42  ");
}
