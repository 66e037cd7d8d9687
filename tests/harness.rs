use std::sync::mpsc::{channel, Receiver, Sender};
use wargame::monitor::{
    throughput, MonitorConfig, Phase, RateError, RunState, DISPLAY_EVERY_NS, SAMPLE_EVERY_NS,
};
use wargame::pool::{another_round, count_ack, count_signal, get_games, stop_threads, STOP_SIGNAL};
use wargame::stats::{rank_letter, rank_passes, summarize, MAX_SAMPLES};

const MS: u64 = 1_000_000;

#[test]
fn throughput_is_completions_per_second() {
    assert_eq!(throughput(10, 1_000_000_000), Ok(10));
    assert_eq!(throughput(3, 2), Ok(1_500_000_000));
    assert_eq!(throughput(1, 3_000_000_000), Ok(0));
    assert_eq!(throughput(7, 2_000_000_000), Ok(3));
}

#[test]
fn throughput_without_work_or_time_fails() {
    assert_eq!(throughput(0, 5), Err(RateError::NoWorkCompleted));
    assert_eq!(throughput(0, 0), Err(RateError::NoWorkCompleted));
    assert_eq!(throughput(5, 0), Err(RateError::NoTimeElapsed));
    assert_eq!(throughput(u64::MAX, 1), Err(RateError::TooFast));
}

#[test]
fn config_makes_room_for_every_sample() {
    let c = MonitorConfig::new(100 * MS, 200 * MS);
    assert_eq!(c.max_samples, 41);
    assert_eq!(c.sample_every_ns, SAMPLE_EVERY_NS);
    assert_eq!(c.display_every_ns, DISPLAY_EVERY_NS);
    let long = MonitorConfig::new(0, u64::MAX);
    assert_eq!(long.max_samples, MAX_SAMPLES);
}

#[test]
fn phases_advance_in_order() {
    let mut run = RunState::new(MonitorConfig::new(10 * MS, 20 * MS));
    assert_eq!(run.phase, Phase::Priming);
    assert_eq!(run.step(5, MS), Ok(false));
    assert_eq!(run.phase, Phase::Priming);
    assert_eq!(run.total, 5);
    assert!(run.samples.is_empty());
    run.step(5, 10 * MS).unwrap();
    assert_eq!(run.phase, Phase::Sampling);
    assert_eq!(run.speed, 1000);
    assert_eq!(run.minimum, 1000);
    assert_eq!(run.maximum, 1000);
    assert_eq!(run.primed_total, 10);
    assert_eq!(run.samples, vec![1000]);
    run.step(10, 20 * MS).unwrap();
    assert_eq!(run.speed, 1000);
    assert_eq!(run.samples, vec![1000, 1000]);
    run.step(0, 22 * MS).unwrap();
    assert_eq!(run.minimum, 909);
    assert_eq!(run.samples.len(), 2);
    run.step(30, 30 * MS).unwrap();
    assert_eq!(run.phase, Phase::Finishing);
    assert_eq!(run.maximum, 1666);
    assert_eq!(run.samples.len(), 2);
    run.step(0, 31 * MS).unwrap();
    assert_eq!(run.phase, Phase::Done);
    assert!(run.is_done());
    run.step(0, 32 * MS).unwrap();
    assert_eq!(run.phase, Phase::Done);
}

#[test]
fn priming_without_work_fails_when_it_ends() {
    let mut run = RunState::new(MonitorConfig::new(10 * MS, 20 * MS));
    assert_eq!(run.step(0, MS), Ok(false));
    assert_eq!(run.step(0, 10 * MS), Err(RateError::NoWorkCompleted));
    assert_eq!(run.phase, Phase::Priming);
    assert_eq!(run.elapsed_ns, MS);
}

#[test]
fn progress_lines_are_gated_by_time() {
    let mut run = RunState::new(MonitorConfig::new(1000 * MS, 1000 * MS));
    assert_eq!(run.step(1, 50 * MS), Ok(false));
    assert_eq!(run.step(1, 101 * MS), Ok(true));
    assert_eq!(run.last_display_ns, 101 * MS);
    assert_eq!(run.step(1, 150 * MS), Ok(false));
    assert_eq!(run.step(1, 202 * MS), Ok(true));
}

#[test]
fn count_after_sampling_is_at_least_the_count_at_its_start() {
    let mut run = RunState::new(MonitorConfig::new(10 * MS, 20 * MS));
    let mut now = 0;
    let mut at_transition = None;
    while !run.is_done() {
        now += MS;
        let before = run.phase;
        run.step(3, now).unwrap();
        if before == Phase::Priming && run.phase == Phase::Sampling {
            at_transition = Some(run.total);
        }
    }
    let primed = at_transition.unwrap();
    assert_eq!(primed, run.primed_total);
    assert!(run.total >= primed);
}

#[test]
fn simulated_run_of_four_workers() {
    // four workers that each complete one unit per poll, polled every 50 us
    let mut run = RunState::new(MonitorConfig::new(100 * MS, 200 * MS));
    let mut now = 0;
    while !run.is_done() {
        now += 50_000;
        run.step(4, now).unwrap();
    }
    assert!(run.total > 0);
    assert!(!run.samples.is_empty());
    assert!(run.speed > 0);
    let summary = summarize(&run.samples, run.minimum, run.maximum, run.speed).unwrap();
    let passes = rank_passes(&summary.criteria);
    assert!(passes <= 5);
    let letter = rank_letter(&summary.criteria);
    assert!(["A+", "A", "B", "C", "D", "F"].contains(&letter.as_str()));
}

struct Worker {
    completions: Sender<u32>,
    stop: Receiver<u32>,
}

fn pool(n: usize) -> (Vec<Worker>, Vec<Receiver<u32>>, Vec<Sender<u32>>, Vec<Receiver<u32>>) {
    let mut workers = Vec::new();
    let mut completions = Vec::new();
    let mut stops = Vec::new();
    let mut acks = Vec::new();
    for i in 0..n {
        let (c_tx, c_rx) = channel();
        let (s_tx, s_rx) = channel();
        let (a_tx, a_rx) = channel();
        a_tx.send(i as u32).unwrap();
        workers.push(Worker { completions: c_tx, stop: s_rx });
        completions.push(c_rx);
        stops.push(s_tx);
        acks.push(a_rx);
    }
    (workers, completions, stops, acks)
}

#[test]
fn get_games_drains_every_queued_signal() {
    let (workers, completions, _stops, _acks) = pool(3);
    workers[0].completions.send(1).unwrap();
    workers[0].completions.send(1).unwrap();
    workers[2].completions.send(1).unwrap();
    assert_eq!(get_games(&completions), 3);
    assert_eq!(get_games(&completions), 0);
    drop(workers);
    assert_eq!(get_games(&completions), 0);
}

#[test]
fn stop_and_join_counts_every_worker() {
    let n = 4;
    let (workers, completions, mut stops, mut acks) = pool(n);
    assert_eq!(stop_threads(n, &mut stops, &mut acks), n);
    for w in &workers {
        assert_eq!(w.stop.try_recv(), Ok(STOP_SIGNAL));
        assert!(w.stop.try_recv().is_err());
    }
    drop(workers);
    assert_eq!(get_games(&completions), 0);
    assert_eq!(get_games(&completions), 0);
}

#[test]
fn stop_and_join_ends_when_a_worker_is_gone() {
    let (mut stops, mut acks): (Vec<Sender<u32>>, Vec<Receiver<u32>>) = (Vec::new(), Vec::new());
    let (s_tx, _s_rx) = channel();
    let (a_tx, a_rx) = channel();
    a_tx.send(0).unwrap();
    drop(a_tx);
    stops.push(s_tx);
    acks.push(a_rx);
    let (s_tx, _s_rx2) = channel();
    let (a_tx, a_rx) = channel::<u32>();
    drop(a_tx);
    stops.push(s_tx);
    acks.push(a_rx);
    assert_eq!(stop_threads(2, &mut stops, &mut acks), 1);
}

#[test]
fn signals_and_acknowledgements_count_one_each() {
    assert_eq!(count_signal(4, true), 5);
    assert_eq!(count_signal(4, false), 4);
    assert_eq!(count_signal(u64::MAX, true), u64::MAX);
    assert_eq!(count_ack(1, 3, true), 2);
    assert_eq!(count_ack(1, 3, false), 1);
    assert_eq!(count_ack(3, 3, true), 3);
    assert!(another_round(1, 2, 3));
    assert!(!another_round(2, 2, 3));
    assert!(!another_round(2, 3, 3));
}

#[test]
fn stop_and_join_with_no_workers() {
    let mut stops: Vec<Sender<u32>> = Vec::new();
    let mut acks: Vec<Receiver<u32>> = Vec::new();
    assert_eq!(stop_threads(0, &mut stops, &mut acks), 0);
    assert_eq!(get_games(&Vec::new()), 0);
}

#[test]
fn get_games_skips_a_disconnected_channel() {
    let (workers, completions, _stops, _acks) = pool(3);
    let mut workers = workers;
    let gone = workers.remove(1);
    drop(gone);
    workers[0].completions.send(1).unwrap();
    workers[1].completions.send(1).unwrap();
    workers[1].completions.send(1).unwrap();
    assert_eq!(get_games(&completions), 3);
}

#[test]
fn a_new_run_starts_from_zero() {
    let run = RunState::new(MonitorConfig::new(10 * MS, 20 * MS));
    assert_eq!(run.phase, Phase::Priming);
    assert_eq!(run.total, 0);
    assert_eq!(run.primed_total, 0);
    assert_eq!(run.speed, 0);
    assert_eq!(run.minimum, 0);
    assert_eq!(run.maximum, 0);
    assert_eq!(run.elapsed_ns, 0);
    assert!(run.samples.is_empty());
}
