//! The worker pool's side of the channels: counting completion signals and
//! stopping the workers. Each worker owns the other ends: it sends one
//! completion signal per finished unit of work, checks its stop channel after
//! each, and acknowledges a stop request before it ends.
use std::sync::mpsc::{Receiver, Sender};
use vstd::prelude::*;

verus! {

/// The value a stop request carries.
pub const STOP_SIGNAL: u32 = 1;

#[verifier::external_type_specification]
#[verifier::external_body]
#[verifier::reject_recursive_types(T)]
pub struct ExSender<T>(Sender<T>);

#[verifier::external_type_specification]
#[verifier::external_body]
#[verifier::reject_recursive_types(T)]
pub struct ExReceiver<T>(Receiver<T>);

/// Relies on std's `Sender::send`: the value is queued for the receiving
/// end, or dropped when that end is gone. It never blocks.
#[verifier::external_body]
fn send_signal(s: &Sender<u32>, v: u32) {
    let _ = s.send(v);
}

/// Relies on std's `Receiver::try_recv`: takes one queued value if there is
/// one, and tells whether there was. It never blocks.
#[verifier::external_body]
fn poll_signal(r: &Receiver<u32>) -> bool {
    r.try_recv().is_ok()
}

/// Relies on std's `Receiver::recv`: blocks until a value arrives (true) or
/// every sending end is gone (false).
#[verifier::external_body]
fn await_signal(r: &Receiver<u32>) -> bool {
    r.recv().is_ok()
}

/// The count after one poll of a completion channel: one more when a signal
/// was taken (`got`), never past `u64::MAX`.
pub fn count_signal(total: u64, got: bool) -> (r: u64)
    ensures
        r == (if got && total < u64::MAX {
            total + 1
        } else {
            total as int
        }),
{
    if got && total < u64::MAX {
        total + 1
    } else {
        total
    }
}

/// Takes the signals queued on one completion channel, without blocking,
/// counting them onto `total`; stops at the first poll that finds none (an
/// empty or disconnected channel) or when the count is full. Whatever the
/// channel held, the count never goes down.
fn drain_channel(rx: &Receiver<u32>, total: u64) -> (r: u64)
    ensures
        r >= total,
{
    let mut count = total;
    loop
        invariant
            count >= total,
        decreases u64::MAX - count,
    {
        if count == u64::MAX {
            break;
        }
        let got = poll_signal(rx);
        if !got {
            break;
        }
        count = count_signal(count, got);
    }
    count
}

/// Drains every completion channel without blocking and returns how many
/// signals were taken in all. An empty or disconnected channel adds 0 and
/// the others are still drained. The count stops at `u64::MAX`. With no
/// channels it is 0; otherwise how many signals were queued is up to the
/// workers, and each taken signal counts one as `count_signal` says.
pub fn get_games(crx: &Vec<Receiver<u32>>) -> (r: u64)
    ensures
        crx@.len() == 0 ==> r == 0,
{
    let mut total: u64 = 0;
    let mut i: usize = 0;
    while i < crx.len()
        invariant
            i <= crx@.len(),
            i == 0 ==> total == 0,
        decreases crx@.len() - i,
    {
        total = drain_channel(&crx[i], total);
        i = i + 1;
    }
    total
}

/// Sends one stop request on every sender, in order, and returns how many
/// were sent. A request to a worker that is gone is dropped, not an error.
fn send_stops(ts: &Vec<Sender<u32>>) -> (n: usize)
    ensures
        n == ts@.len(),
{
    let mut i: usize = 0;
    while i < ts.len()
        invariant
            i <= ts@.len(),
        decreases ts@.len() - i,
    {
        send_signal(&ts[i], STOP_SIGNAL);
        i = i + 1;
    }
    i
}

/// The number of acknowledgements after one wait on an acknowledgement
/// channel: one more when one came (`acked`), never past `threads`.
pub fn count_ack(collected: usize, threads: usize, acked: bool) -> (r: usize)
    ensures
        r == (if acked && collected < threads {
            collected + 1
        } else {
            collected as int
        }),
{
    if acked && collected < threads {
        collected + 1
    } else {
        collected
    }
}

/// Whether to go over the acknowledgement channels once more: some are
/// still owed, and the last round brought at least one.
pub fn another_round(before: usize, collected: usize, threads: usize) -> (r: bool)
    ensures
        r == (collected < threads && collected > before),
{
    collected < threads && collected > before
}

/// Sends one stop request to every worker, then collects their
/// acknowledgements, going over all acknowledgement channels in rounds, until
/// `threads` have come; returns how many came.
///
/// Each wait blocks until its worker acknowledges or is gone, so a worker
/// stuck in its unit of work blocks this call for good. A worker that is gone
/// never acknowledges later: where a round brings none, waiting again could
/// only spin, so the call returns the smaller count instead, and the caller
/// sees which workers failed to stop.
pub fn stop_threads(threads: usize, ts: &mut Vec<Sender<u32>>, tr: &mut Vec<Receiver<u32>>) -> (r:
    usize)
    ensures
        r <= threads,
        old(tr)@.len() == 0 ==> r == 0,
        final(ts)@ == old(ts)@,
        final(tr)@ == old(tr)@,
{
    send_stops(ts);
    let mut collected: usize = 0;
    let mut more = threads > 0;
    while more
        invariant
            collected <= threads,
            more ==> collected < threads,
            tr@.len() == 0 ==> collected == 0,
        decreases threads - collected, if more {
            1int
        } else {
            0int
        },
    {
        let before = collected;
        let mut k: usize = 0;
        while k < tr.len()
            invariant
                before <= collected <= threads,
                k <= tr@.len(),
                tr@.len() == 0 ==> collected == 0,
            decreases tr@.len() - k,
        {
            let acked = collected < threads && await_signal(&tr[k]);
            collected = count_ack(collected, threads, acked);
            k = k + 1;
        }
        more = another_round(before, collected, threads);
    }
    collected
}

} // verus!
