use backtest_core::partition::{plan_chunks, take_chunk, WorkChunk};
use backtest_core::progress::{
    chunk_progress, eta_seconds, should_refresh_display, ProgressSample, ProgressTracker,
};
use backtest_core::results::{
    affine_filter, affined_results, merge_results, without_money_evolution, StrategyResult,
};
use backtest_core::sweep::{
    expand_sweep, MarketType, ParamMultiplier, PatternFamily, StrategyDescriptor,
    StrategyMetadata, StrategyParameterSweep,
};

fn chunk(start: usize, len: usize) -> WorkChunk {
    WorkChunk { start, len }
}

#[test]
fn partition_thirty_seven_over_eight_workers() {
    let chunks = plan_chunks(37, 8);
    let lens: Vec<usize> = chunks.iter().map(|c| c.len).collect();
    assert_eq!(lens, vec![5, 5, 5, 5, 5, 5, 5, 2]);
    let starts: Vec<usize> = chunks.iter().map(|c| c.start).collect();
    assert_eq!(starts, vec![0, 5, 10, 15, 20, 25, 30, 35]);
}

#[test]
fn partition_no_work_means_no_chunks() {
    let chunks = plan_chunks(0, 20);
    assert!(chunks.is_empty());
}

#[test]
fn partition_fewer_descriptors_than_workers() {
    let chunks = plan_chunks(3, 8);
    assert_eq!(chunks.len(), 3);
    for (i, c) in chunks.iter().enumerate() {
        assert_eq!(c.start, i);
        assert_eq!(c.len, 1);
    }
}

#[test]
fn partition_lengths_sum_to_n() {
    for &(n, w) in &[(1usize, 1usize), (10, 3), (100, 7), (20, 20), (5, 9), (1000, 20)] {
        let chunks = plan_chunks(n, w);
        assert!(chunks.len() <= w);
        let total: usize = chunks.iter().map(|c| c.len).sum();
        assert_eq!(total, n);
        let mut expected_start = 0;
        for c in &chunks {
            assert_eq!(c.start, expected_start);
            expected_start += c.len;
        }
    }
}

#[test]
fn partition_chunks_concatenate_to_the_input() {
    let data: Vec<u32> = (0..37).collect();
    let chunks = plan_chunks(data.len(), 8);
    let mut rebuilt: Vec<u32> = Vec::new();
    for c in &chunks {
        let mut part = take_chunk(&data, *c);
        rebuilt.append(&mut part);
    }
    assert_eq!(rebuilt, data);
}

#[test]
fn take_chunk_copies_the_slice() {
    let data: Vec<u32> = vec![10, 11, 12, 13, 14];
    let part = take_chunk(&data, chunk(1, 3));
    assert_eq!(part, vec![11, 12, 13]);
    assert_eq!(data.len(), 5);
}

fn small_sweep() -> StrategyParameterSweep {
    StrategyParameterSweep {
        tp: ParamMultiplier { min: 100, max: 300, step: 100 },
        sl: ParamMultiplier { min: 50, max: 100, step: 50 },
        kline_repetition: ParamMultiplier { min: 2, max: 3, step: 1 },
        kline_range: ParamMultiplier { min: 25, max: 25, step: 5 },
        risk: ParamMultiplier { min: 100, max: 100, step: 100 },
    }
}

fn meta() -> StrategyMetadata {
    StrategyMetadata {
        start_money: 100_000,
        market_type: MarketType::Spot,
        pattern: PatternFamily::W,
    }
}

#[test]
fn expansion_size_is_the_product_of_the_ranges() {
    let descs = expand_sweep(&small_sweep(), &meta());
    assert_eq!(descs.len(), 3 * 2 * 2 * 1 * 1);
}

#[test]
fn expansion_order_is_nested_with_take_profit_outermost() {
    let descs = expand_sweep(&small_sweep(), &meta());
    let key: Vec<(u32, u32, u32, u32, u32)> =
        descs.iter().map(|d| (d.tp, d.sl, d.kline_repetition, d.kline_range, d.risk)).collect();
    assert_eq!(
        key,
        vec![
            (100, 50, 2, 25, 100),
            (100, 50, 3, 25, 100),
            (100, 100, 2, 25, 100),
            (100, 100, 3, 25, 100),
            (200, 50, 2, 25, 100),
            (200, 50, 3, 25, 100),
            (200, 100, 2, 25, 100),
            (200, 100, 3, 25, 100),
            (300, 50, 2, 25, 100),
            (300, 50, 3, 25, 100),
            (300, 100, 2, 25, 100),
            (300, 100, 3, 25, 100),
        ]
    );
    for d in &descs {
        assert_eq!(d.start_money, 100_000);
        assert_eq!(d.market_type, MarketType::Spot);
        assert_eq!(d.pattern, PatternFamily::W);
    }
}

#[test]
fn expansion_is_deterministic() {
    let first = expand_sweep(&small_sweep(), &meta());
    let second = expand_sweep(&small_sweep(), &meta());
    assert_eq!(first, second);
}

#[test]
fn degenerate_ranges_yield_one_descriptor() {
    let sweep = StrategyParameterSweep {
        tp: ParamMultiplier { min: 100, max: 100, step: 1 },
        sl: ParamMultiplier { min: 50, max: 50, step: 50 },
        kline_repetition: ParamMultiplier { min: 5, max: 5, step: 1 },
        kline_range: ParamMultiplier { min: 25, max: 25, step: 5 },
        risk: ParamMultiplier { min: 100, max: 100, step: 100 },
    };
    assert!(sweep.is_well_formed());
    let descs = expand_sweep(&sweep, &meta());
    assert_eq!(descs.len(), 1);
    assert_eq!(descs[0].tp, 100);
}

#[test]
fn sweep_with_zero_step_is_rejected_before_expansion() {
    let mut sweep = small_sweep();
    sweep.risk = ParamMultiplier { min: 100, max: 200, step: 0 };
    assert!(!sweep.risk.is_well_formed());
    assert!(!sweep.is_well_formed());
}

#[test]
fn chunk_progress_is_monotone_and_ends_at_full_scale() {
    let total = 8;
    let mut last = 0;
    for done in 0..=total {
        let bp = chunk_progress(done, total);
        assert!(bp >= last);
        last = bp;
    }
    assert_eq!(chunk_progress(total, total), 10_000);
    assert_eq!(chunk_progress(0, 10), 0);
    assert_eq!(chunk_progress(5, 10), 5_000);
}

#[test]
fn empty_chunk_is_complete_from_the_start() {
    assert_eq!(chunk_progress(0, 0), 10_000);
}

#[test]
fn tracker_mean_is_the_overall_progress() {
    let mut t = ProgressTracker::new(4);
    assert_eq!(t.overall_bp(), 0);
    t.record(ProgressSample { worker_id: 0, fraction_bp: 10_000 });
    assert_eq!(t.overall_bp(), 2_500);
    t.record(ProgressSample { worker_id: 1, fraction_bp: 5_000 });
    t.record(ProgressSample { worker_id: 2, fraction_bp: 5_000 });
    assert_eq!(t.overall_bp(), 5_000);
    t.record(ProgressSample { worker_id: 1, fraction_bp: 10_000 });
    t.record(ProgressSample { worker_id: 2, fraction_bp: 10_000 });
    t.record(ProgressSample { worker_id: 3, fraction_bp: 10_000 });
    assert_eq!(t.overall_bp(), 10_000);
}

#[test]
fn eta_scales_elapsed_time_by_completion() {
    // half done after 50 seconds: 100 seconds in total
    assert_eq!(eta_seconds(50, 5_000), 100);
    // fully done: the estimate is the elapsed time itself
    assert_eq!(eta_seconds(120, 10_000), 120);
}

#[test]
fn display_refresh_is_throttled_to_a_second() {
    assert!(should_refresh_display(0, 1_001));
    assert!(!should_refresh_display(0, 1_000));
    assert!(!should_refresh_display(500, 1_200));
    assert!(should_refresh_display(500, 1_501));
}

fn result_with(descriptor: StrategyDescriptor, total_closed: u32, curve: Vec<i64>) -> StrategyResult {
    StrategyResult { descriptor, total_closed, money_evolution: curve }
}

fn descriptor_numbered(tp: u32) -> StrategyDescriptor {
    StrategyDescriptor {
        tp,
        sl: 50,
        kline_repetition: 2,
        kline_range: 25,
        risk: 100,
        start_money: 100_000,
        market_type: MarketType::Spot,
        pattern: PatternFamily::W,
    }
}

#[test]
fn merge_concatenates_worker_results_in_order() {
    let mut parts = vec![
        vec![result_with(descriptor_numbered(1), 10, vec![1])],
        vec![
            result_with(descriptor_numbered(2), 20, vec![2]),
            result_with(descriptor_numbered(3), 30, vec![3]),
        ],
        vec![],
    ];
    let merged = merge_results(&mut parts);
    let tps: Vec<u32> = merged.iter().map(|r| r.descriptor.tp).collect();
    assert_eq!(tps, vec![1, 2, 3]);
    assert_eq!(merged.len(), 3);
}

#[test]
fn merge_of_no_parts_is_empty() {
    let mut parts: Vec<Vec<StrategyResult>> = Vec::new();
    assert!(merge_results(&mut parts).is_empty());
}

#[test]
fn affined_set_is_exactly_the_busy_strategies() {
    let results = vec![
        result_with(descriptor_numbered(1), 50, vec![1]),
        result_with(descriptor_numbered(2), 150, vec![2]),
        result_with(descriptor_numbered(3), 100, vec![3]),
        result_with(descriptor_numbered(4), 101, vec![4]),
    ];
    let affined = affined_results(&results);
    let tps: Vec<u32> = affined.iter().map(|r| r.descriptor.tp).collect();
    assert_eq!(tps, vec![2, 4]);
    // the full result set is untouched
    assert_eq!(results.len(), 4);
    assert_eq!(results[0].total_closed, 50);
}

#[test]
fn affining_twice_changes_nothing() {
    let results = vec![
        result_with(descriptor_numbered(1), 50, vec![1]),
        result_with(descriptor_numbered(2), 150, vec![2]),
        result_with(descriptor_numbered(3), 101, vec![3]),
    ];
    let once = affine_filter(&results, 100);
    let twice = affine_filter(&once, 100);
    let once_tps: Vec<u32> = once.iter().map(|r| r.descriptor.tp).collect();
    let twice_tps: Vec<u32> = twice.iter().map(|r| r.descriptor.tp).collect();
    assert_eq!(once_tps, twice_tps);
    assert_eq!(once.len(), twice.len());
}

#[test]
fn stripping_empties_every_equity_curve() {
    let results = vec![
        result_with(descriptor_numbered(1), 50, vec![1, 2, 3]),
        result_with(descriptor_numbered(2), 150, vec![4]),
    ];
    let stripped = without_money_evolution(&results);
    assert_eq!(stripped.len(), 2);
    for (bare, full) in stripped.iter().zip(results.iter()) {
        assert!(bare.money_evolution.is_empty());
        assert_eq!(bare.descriptor, full.descriptor);
        assert_eq!(bare.total_closed, full.total_closed);
    }
    // the originals keep their curves
    assert_eq!(results[0].money_evolution, vec![1, 2, 3]);
}

#[test]
fn run_with_no_descriptors_completes_with_an_empty_result_set() {
    let chunks = plan_chunks(0, 20);
    assert!(chunks.is_empty());
    let mut parts: Vec<Vec<StrategyResult>> = chunks.iter().map(|_| Vec::new()).collect();
    let merged = merge_results(&mut parts);
    assert!(merged.is_empty());
    assert!(affined_results(&merged).is_empty());
}
