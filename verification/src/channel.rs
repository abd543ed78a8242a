//! Bounded message channels between the simulation and the planning worker.
//!
//! The channels come from the `crossbeam-channel` crate and are shared
//! mutable state between threads, so nothing can be proved about their
//! contents; the trusted wrappers below state only what holds of every
//! outcome (sends and non-blocking receives always return). All robustness
//! lives on the verified side: `worker_poll` validates what it receives and
//! keeps its state invariant whatever arrives.

use vstd::prelude::*;

use crate::worker::{
    process_robot_command, RobotCommand, RobotResult, WorkerState, COMMAND_POLL_TIMEOUT_MS,
};

verus! {

#[verifier::external_type_specification]
#[verifier::external_body]
#[verifier::reject_recursive_types(T)]
pub struct ExSender<T>(crossbeam_channel::Sender<T>);

#[verifier::external_type_specification]
#[verifier::external_body]
#[verifier::reject_recursive_types(T)]
pub struct ExReceiver<T>(crossbeam_channel::Receiver<T>);

/// Relies on crossbeam_channel::bounded: creates a channel that holds at
/// most `cap` messages. The capacity is kept small enough that construction
/// cannot fail.
#[verifier::external_body]
fn channel_bounded<T>(cap: usize) -> (crossbeam_channel::Sender<T>, crossbeam_channel::Receiver<T>)
    requires
        cap <= 1_000_000,
{
    crossbeam_channel::bounded(cap)
}

/// Relies on Sender::try_send: never blocks; true exactly when the message
/// was placed into the channel, false when it was full or disconnected.
#[verifier::external_body]
fn channel_try_send<T>(sender: &crossbeam_channel::Sender<T>, msg: T) -> bool {
    sender.try_send(msg).is_ok()
}

/// Relies on Receiver::try_recv: never blocks; Some exactly when a message
/// was waiting.
#[verifier::external_body]
fn channel_try_recv<T>(receiver: &crossbeam_channel::Receiver<T>) -> Option<T> {
    receiver.try_recv().ok()
}

/// Relies on Receiver::recv_timeout: waits at most the given number of
/// milliseconds; Some exactly when a message arrived in time.
#[verifier::external_body]
fn channel_recv_timeout<T>(receiver: &crossbeam_channel::Receiver<T>, timeout_ms: u64) -> Option<
    T,
> {
    receiver.recv_timeout(std::time::Duration::from_millis(timeout_ms)).ok()
}

/// The simulation-side handle: where planning commands go in and planning
/// results come out, plus the channel capacity (used to bound result
/// draining).
pub struct RobotThreadManager {
    pub command_sender: crossbeam_channel::Sender<RobotCommand>,
    pub result_receiver: crossbeam_channel::Receiver<RobotResult>,
    pub capacity: usize,
}

/// The worker-side handle.
pub struct WorkerChannels {
    pub command_receiver: crossbeam_channel::Receiver<RobotCommand>,
    pub result_sender: crossbeam_channel::Sender<RobotResult>,
}

/// Create the bounded command and result channels joining the simulation to
/// the planning worker.
pub fn create_robot_channels(capacity: usize) -> (r: (RobotThreadManager, WorkerChannels))
    requires
        0 < capacity <= 100_000,
    ensures
        r.0.capacity == capacity,
{
    let (cmd_tx, cmd_rx) = channel_bounded::<RobotCommand>(capacity);
    let (res_tx, res_rx) = channel_bounded::<RobotResult>(capacity);
    (
        RobotThreadManager { command_sender: cmd_tx, result_receiver: res_rx, capacity },
        WorkerChannels { command_receiver: cmd_rx, result_sender: res_tx },
    )
}

/// Offer one planning command to the worker. Never blocks: when the command
/// channel is full (or the worker is gone) the command is dropped and
/// `false` comes back, and the caller simply retries on a later tick.
pub fn send_robot_command(manager: &RobotThreadManager, command: RobotCommand) -> (accepted: bool)
{
    channel_try_send(&manager.command_sender, command)
}

/// Drain every result currently waiting, without blocking. At most
/// `capacity` messages can be in the bounded channel at once, and that many
/// receive attempts are made.
pub fn drain_robot_results(manager: &RobotThreadManager) -> (results: Vec<RobotResult>)
    ensures
        results@.len() <= manager.capacity,
{
    let mut results: Vec<RobotResult> = Vec::new();
    let mut budget = manager.capacity;
    while budget > 0
        invariant
            results@.len() + budget <= manager.capacity,
        decreases budget,
    {
        match channel_try_recv(&manager.result_receiver) {
            Some(r) => results.push(r),
            None => {
                return results;
            },
        }
        budget = budget - 1;
    }
    results
}

/// One worker beat: wait briefly for a command, process it, and send the
/// reply if there is one. Returns whether the worker should keep running;
/// only a `Shutdown` command stops it. The state invariant survives
/// whatever the channel delivers, and a reply that does not fit into the
/// result channel is dropped rather than blocking the worker.
pub fn worker_poll(channels: &WorkerChannels, state: &mut WorkerState) -> (keep_running: bool)
    requires
        old(state).wf(),
    ensures
        final(state).wf(),
{
    match channel_recv_timeout(&channels.command_receiver, COMMAND_POLL_TIMEOUT_MS) {
        None => true,
        Some(command) => {
            let (result, keep_running) = process_robot_command(state, command);
            if let Some(result) = result {
                let _ = channel_try_send(&channels.result_sender, result);
            }
            keep_running
        },
    }
}

} // verus!
