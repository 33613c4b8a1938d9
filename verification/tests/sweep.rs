use pdm::{
    choose_schedule, plan_sweep, Binary64, PdmError, Schedule, SweepPlan, SweepRequest, TimeKind,
    DEFAULT_PARALLEL_THRESHOLD,
};

fn request() -> SweepRequest {
    SweepRequest {
        time_kind_code: 'f',
        time_len: 4,
        signal_len: 4,
        min_freq: Binary64::from_bits(0.5f64.to_bits()),
        max_freq: Binary64::from_bits(2.0f64.to_bits()),
        n_freqs: 4,
        n_bins: 2,
        parallel_threshold: DEFAULT_PARALLEL_THRESHOLD,
    }
}

#[test]
fn a_valid_request_is_planned_with_its_sizes() {
    assert_eq!(
        plan_sweep(&request()),
        Ok(SweepPlan {
            time_kind: TimeKind::Seconds,
            n_samples: 4,
            n_freqs: 4,
            n_bins: 2,
            schedule: Schedule::Parallel,
        })
    );
}

#[test]
fn a_timestamp_series_is_planned_as_such() {
    let plan = plan_sweep(&SweepRequest { time_kind_code: 'M', ..request() }).unwrap();
    assert_eq!(plan.time_kind, TimeKind::Timestamps);
}

#[test]
fn an_unsupported_time_array_is_rejected() {
    assert_eq!(
        plan_sweep(&SweepRequest { time_kind_code: 'i', ..request() }),
        Err(PdmError::UnsupportedTimeRepresentation)
    );
}

#[test]
fn time_of_length_five_and_signal_of_length_four_are_rejected() {
    assert_eq!(
        plan_sweep(&SweepRequest { time_len: 5, signal_len: 4, ..request() }),
        Err(PdmError::LengthMismatch)
    );
}

#[test]
fn min_freq_two_and_max_freq_one_are_rejected() {
    assert_eq!(
        plan_sweep(&SweepRequest {
            min_freq: Binary64::from_bits(2.0f64.to_bits()),
            max_freq: Binary64::from_bits(1.0f64.to_bits()),
            ..request()
        }),
        Err(PdmError::InvalidFrequencyRange)
    );
}

#[test]
fn a_request_for_no_frequencies_is_rejected() {
    assert_eq!(
        plan_sweep(&SweepRequest { n_freqs: 0, ..request() }),
        Err(PdmError::InvalidFrequencyRange)
    );
}

#[test]
fn a_request_for_no_bins_is_rejected() {
    assert_eq!(plan_sweep(&SweepRequest { n_bins: 0, ..request() }), Err(PdmError::InvalidBinCount));
}

#[test]
fn the_first_violated_precondition_is_reported() {
    let everything_wrong = SweepRequest {
        time_kind_code: 'O',
        time_len: 5,
        signal_len: 4,
        min_freq: Binary64::from_bits(2.0f64.to_bits()),
        max_freq: Binary64::from_bits(1.0f64.to_bits()),
        n_freqs: 0,
        n_bins: 0,
        parallel_threshold: 1,
    };
    assert_eq!(plan_sweep(&everything_wrong), Err(PdmError::UnsupportedTimeRepresentation));
    let kind_right = SweepRequest { time_kind_code: 'f', ..everything_wrong };
    assert_eq!(plan_sweep(&kind_right), Err(PdmError::LengthMismatch));
    let lengths_right = SweepRequest { time_len: 4, ..kind_right };
    assert_eq!(plan_sweep(&lengths_right), Err(PdmError::InvalidFrequencyRange));
    let bounds_right = SweepRequest {
        min_freq: Binary64::from_bits(1.0f64.to_bits()),
        max_freq: Binary64::from_bits(2.0f64.to_bits()),
        ..lengths_right
    };
    assert_eq!(plan_sweep(&bounds_right), Err(PdmError::InvalidFrequencyRange));
    let range_right = SweepRequest { n_freqs: 3, ..bounds_right };
    assert_eq!(plan_sweep(&range_right), Err(PdmError::InvalidBinCount));
    let all_right = SweepRequest { n_bins: 5, ..range_right };
    assert!(plan_sweep(&all_right).is_ok());
}

#[test]
fn a_single_frequency_is_a_valid_request() {
    let plan = plan_sweep(&SweepRequest { n_freqs: 1, n_bins: 1, ..request() }).unwrap();
    assert_eq!(plan.n_freqs, 1);
    assert_eq!(plan.n_bins, 1);
}

#[test]
fn planning_twice_gives_the_same_plan() {
    assert_eq!(plan_sweep(&request()), plan_sweep(&request()));
}

#[test]
fn every_grid_is_parallel_at_the_default_threshold() {
    assert_eq!(DEFAULT_PARALLEL_THRESHOLD, 1);
    assert_eq!(choose_schedule(1, DEFAULT_PARALLEL_THRESHOLD), Schedule::Parallel);
    assert_eq!(choose_schedule(1000, DEFAULT_PARALLEL_THRESHOLD), Schedule::Parallel);
    assert_eq!(choose_schedule(0, DEFAULT_PARALLEL_THRESHOLD), Schedule::Sequential);
}

#[test]
fn a_grid_below_the_threshold_is_swept_sequentially() {
    assert_eq!(choose_schedule(9, 10), Schedule::Sequential);
    assert_eq!(choose_schedule(10, 10), Schedule::Parallel);
    assert_eq!(choose_schedule(11, 10), Schedule::Parallel);
    assert_eq!(choose_schedule(usize::MAX, usize::MAX), Schedule::Parallel);
    assert_eq!(choose_schedule(5, 0), Schedule::Parallel);
}

#[test]
fn the_threshold_of_a_request_decides_its_schedule() {
    let plan = plan_sweep(&SweepRequest { parallel_threshold: 5, ..request() }).unwrap();
    assert_eq!(plan.schedule, Schedule::Sequential);
    let plan = plan_sweep(&SweepRequest { parallel_threshold: 4, ..request() }).unwrap();
    assert_eq!(plan.schedule, Schedule::Parallel);
}
