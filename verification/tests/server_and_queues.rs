use backtest_core::naming::{
    generate_result_name, i32_to_string, kline_cache_file_name, u32_to_string, utc_now_parts,
    TimeParts,
};
use backtest_core::queue::{reference_time, Job, JobQueueManager, KLineDatasId};
use backtest_core::server::{
    admit_test, download_response, health_check_response, missing_data_response, normalize_symbol,
    test_success_response,
};

fn download_job(symbol: &str) -> Job {
    Job::Download(KLineDatasId { interval: "15m".to_string(), symbol: symbol.to_string() })
}

fn job_symbol(job: &Job) -> String {
    match job {
        Job::Download(id) => id.symbol.clone(),
        Job::Backtest(data) => data.data_id.symbol.clone(),
    }
}

#[test]
fn jobs_are_drained_in_submission_order() {
    let mut manager = JobQueueManager::new();
    manager.submit(download_job("A"));
    manager.submit(download_job("B"));
    manager.submit(download_job("C"));
    assert_eq!(manager.pending(), 3);
    let first = manager.take_next().expect("a job was queued");
    let second = manager.take_next().expect("a job was queued");
    let third = manager.take_next().expect("a job was queued");
    assert_eq!(job_symbol(&first), "A");
    assert_eq!(job_symbol(&second), "B");
    assert_eq!(job_symbol(&third), "C");
    assert!(manager.take_next().is_none());
}

#[test]
fn busy_flag_runs_false_true_false_for_one_job() {
    let mut manager = JobQueueManager::new();
    assert!(!manager.is_busy());
    manager.submit(download_job("A"));
    assert!(!manager.is_busy());
    let draining = manager.begin_drain();
    assert!(draining);
    assert!(manager.is_busy());
    assert!(manager.take_next().is_some());
    assert!(manager.take_next().is_none());
    manager.finish_drain();
    assert!(!manager.is_busy());
}

#[test]
fn observing_an_empty_queue_does_not_raise_the_flag() {
    let mut manager = JobQueueManager::new();
    let draining = manager.begin_drain();
    assert!(!draining);
    assert!(!manager.is_busy());
}

#[test]
fn reference_time_degrades_to_zero_on_a_failed_lookup() {
    assert_eq!(reference_time(Some(1_700_000_000_000)), 1_700_000_000_000);
    assert_eq!(reference_time(None), 0);
}

#[test]
fn decimal_strings_are_exact() {
    assert_eq!(u32_to_string(0), "0");
    assert_eq!(u32_to_string(7), "7");
    assert_eq!(u32_to_string(2026), "2026");
    assert_eq!(u32_to_string(u32::MAX), "4294967295");
    assert_eq!(i32_to_string(-5), "-5");
    assert_eq!(i32_to_string(i32::MIN), "-2147483648");
    assert_eq!(i32_to_string(2024), "2024");
}

#[test]
fn result_file_name_carries_symbol_interval_and_timestamp() {
    let t = TimeParts { year: 2024, month: 5, day: 7, hour: 9, minute: 30, second: 5 };
    let name = generate_result_name(&"BTCUSDT".to_string(), &"1d".to_string(), t);
    assert_eq!(name, "BTCUSDT-1d_2024_5_7_9h30m5s.json");
}

#[test]
fn cache_file_name_is_keyed_by_symbol_and_interval() {
    assert_eq!(kline_cache_file_name("BTCUSDT", "15m"), "data/BTCUSDT-15m.json");
}

#[test]
fn clock_fields_stay_in_their_documented_ranges() {
    let t = utc_now_parts();
    assert!((1..=12).contains(&t.month));
    assert!((1..=31).contains(&t.day));
    assert!(t.hour < 24);
    assert!(t.minute < 60);
    assert!(t.second < 60);
}

#[test]
fn symbols_are_normalized_to_uppercase() {
    assert_eq!(normalize_symbol("btcusdt"), "BTCUSDT");
    assert_eq!(normalize_symbol("EthUsdt"), "ETHUSDT");
    assert_eq!(normalize_symbol(""), "");
}

#[test]
fn health_check_text_is_fixed() {
    let r = health_check_response();
    assert_eq!(r.status, "success");
    assert_eq!(r.message, "Build Simple CRUD API with Rust and Rocket");
}

#[test]
fn a_running_test_rejects_new_test_requests() {
    let rejection = admit_test(true).expect("a running test rejects the request");
    assert_eq!(rejection.status, "error");
    assert_eq!(rejection.message, "Strategy is already testing");
    assert!(admit_test(false).is_none());
}

#[test]
fn missing_data_names_the_requested_pair() {
    let r = missing_data_response("BTCUSDT", "15m");
    assert_eq!(r.status, "error");
    assert_eq!(
        r.message,
        "There is no data. Download the corresponding data before. You sent BTCUSDT - 15m"
    );
}

#[test]
fn finished_test_reports_the_pair() {
    let r = test_success_response("BTCUSDT", "15m");
    assert_eq!(r.status, "success");
    assert_eq!(r.message, "Strategy tested for BTCUSDT - 15m");
}

#[test]
fn download_requests_are_always_accepted() {
    let fresh = download_response(false, "BTCUSDT", "15m");
    assert_eq!(fresh.status, "success");
    assert_eq!(fresh.message, "Downloading kline datas : BTCUSDT-15m");
    let queued = download_response(true, "BTCUSDT", "15m");
    assert_eq!(queued.status, "success");
    assert_eq!(queued.message, "Already downloading datas. Queuing : BTCUSDT-15m");
}
