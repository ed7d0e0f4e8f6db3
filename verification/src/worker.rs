//! The bounded queue in front of the transcription worker.

use std::sync::mpsc::{Receiver, SyncSender};

use vstd::prelude::*;

verus! {

/// The sending half of a bounded channel.
#[verifier::external_type_specification]
#[verifier::external_body]
#[verifier::reject_recursive_types(T)]
pub struct ExSyncSender<T>(SyncSender<T>);

/// The receiving half of a channel.
#[verifier::external_type_specification]
#[verifier::external_body]
#[verifier::reject_recursive_types(T)]
pub struct ExReceiver<T>(Receiver<T>);

/// What a channel answers to a value that is sent.
#[derive(Clone, Copy, Debug, PartialEq, Eq, Structural)]
pub enum ChannelReply {
    Taken,
    Full,
    Disconnected,
}

/// What is done when the queue is full.
#[derive(Clone, Copy, Debug, PartialEq, Eq, Structural)]
pub enum LiveTranscriptionQueuePolicy {
    FailFast,
    WaitForCapacity,
}

/// Why the queue did not take a job.
#[derive(Clone, Copy, Debug, PartialEq, Eq, Structural)]
pub enum LiveTranscriptionQueueSendError {
    Full,
    Disconnected,
}

/// Sends a value without waiting.
///
/// `std::sync::mpsc::SyncSender::try_send` answers at once: the value was taken,
/// or the buffer is full, or the receiver is gone. Which of these it is depends on
/// the other end of the channel, so nothing is said of it.
#[verifier::external_body]
fn channel_try_send<T>(sender: &SyncSender<T>, value: T) -> (reply: ChannelReply) {
    match sender.try_send(value) {
        Ok(()) => ChannelReply::Taken,
        Err(std::sync::mpsc::TrySendError::Full(_)) => ChannelReply::Full,
        Err(std::sync::mpsc::TrySendError::Disconnected(_)) => ChannelReply::Disconnected,
    }
}

/// Sends a value and waits until there is room for it.
///
/// `std::sync::mpsc::SyncSender::send` blocks while the buffer is full and fails
/// only if the receiver is gone. Which of the two it is depends on the other end of
/// the channel.
#[verifier::external_body]
fn channel_send<T>(sender: &SyncSender<T>, value: T) -> (reply: ChannelReply)
    ensures
        reply != ChannelReply::Full,
{
    match sender.send(value) {
        Ok(()) => ChannelReply::Taken,
        Err(_) => ChannelReply::Disconnected,
    }
}

/// Takes a value that has arrived.
///
/// `std::sync::mpsc::Receiver::try_recv` answers at once, with a value if one has
/// arrived. Whether one has depends on the other end of the channel.
#[verifier::external_body]
fn channel_try_receive<T>(receiver: &Receiver<T>) -> (value: Option<T>) {
    receiver.try_recv().ok()
}

/// Waits for a value.
///
/// `std::sync::mpsc::Receiver::recv` blocks until a value arrives and fails only if
/// the sender is gone. Which of the two it is depends on the other end of the
/// channel.
#[verifier::external_body]
fn channel_receive<T>(receiver: &Receiver<T>) -> (value: Option<T>) {
    receiver.recv().ok()
}

/// What a channel's answer means for the queue.
pub open spec fn reply_result(reply: ChannelReply) -> Result<(), LiveTranscriptionQueueSendError> {
    match reply {
        ChannelReply::Taken => Ok(()),
        ChannelReply::Full => Err(LiveTranscriptionQueueSendError::Full),
        ChannelReply::Disconnected => Err(LiveTranscriptionQueueSendError::Disconnected),
    }
}

/// What a channel's answer means for the queue.
pub fn queue_result(reply: ChannelReply) -> (result: Result<(), LiveTranscriptionQueueSendError>)
    ensures
        result == reply_result(reply),
{
    match reply {
        ChannelReply::Taken => Ok(()),
        ChannelReply::Full => Err(LiveTranscriptionQueueSendError::Full),
        ChannelReply::Disconnected => Err(LiveTranscriptionQueueSendError::Disconnected),
    }
}

impl LiveTranscriptionQueuePolicy {
    /// Whether a job waits for room in the queue.
    pub fn waits(self) -> (yes: bool)
        ensures
            yes == (self == LiveTranscriptionQueuePolicy::WaitForCapacity),
    {
        match self {
            LiveTranscriptionQueuePolicy::FailFast => false,
            LiveTranscriptionQueuePolicy::WaitForCapacity => true,
        }
    }

    /// Sends a value to the queue. A policy that waits never finds the queue full.
    pub fn send<T>(self, sender: &SyncSender<T>, value: T) -> (result: Result<
        (),
        LiveTranscriptionQueueSendError,
    >)
        ensures
            exists|reply: ChannelReply|
                result == reply_result(reply) && (self
                    == LiveTranscriptionQueuePolicy::WaitForCapacity ==> reply
                    != ChannelReply::Full),
    {
        let reply = if self.waits() {
            channel_send(sender, value)
        } else {
            channel_try_send(sender, value)
        };
        assert(self == LiveTranscriptionQueuePolicy::WaitForCapacity ==> reply
            != ChannelReply::Full);
        queue_result(reply)
    }
}

/// Why the worker could not be used.
#[derive(Clone, Copy, Debug, PartialEq, Eq, Structural)]
pub enum WorkerError {
    NotRunning,
    QueueFull,
    StoppedBeforeAccepting,
    StoppedBeforeReturning,
    Panicked,
}

/// The message shown for an error of the worker.
pub open spec fn worker_message(error: WorkerError) -> Seq<char> {
    match error {
        WorkerError::NotRunning => "Live transcription worker is not running"@,
        WorkerError::QueueFull => "Live transcription worker queue is full; stopped instead of buffering unbounded utterances."@,
        WorkerError::StoppedBeforeAccepting => "Live transcription worker stopped before accepting the utterance."@,
        WorkerError::StoppedBeforeReturning => "Live transcription worker stopped before returning all results."@,
        WorkerError::Panicked => "Live transcription worker panicked"@,
    }
}

impl WorkerError {
    /// The message shown for the error.
    pub fn message(self) -> (text: String)
        ensures
            text@ == worker_message(self),
    {
        match self {
            WorkerError::NotRunning => "Live transcription worker is not running".to_owned(),
            WorkerError::QueueFull => "Live transcription worker queue is full; stopped instead of buffering unbounded utterances.".to_owned(),
            WorkerError::StoppedBeforeAccepting => "Live transcription worker stopped before accepting the utterance.".to_owned(),
            WorkerError::StoppedBeforeReturning => "Live transcription worker stopped before returning all results.".to_owned(),
            WorkerError::Panicked => "Live transcription worker panicked".to_owned(),
        }
    }
}

/// The queue to the worker and the results that come back from it.
#[verifier::reject_recursive_types(T)]
#[verifier::reject_recursive_types(R)]
pub struct LiveTranscriptionWorker<T, R> {
    pub jobs: Option<SyncSender<T>>,
    pub results: Receiver<R>,
    pub pending_jobs: usize,
    pub queue_policy: LiveTranscriptionQueuePolicy,
}

/// The jobs that are out after one was offered to the queue.
pub open spec fn pending_after_queue(
    pending: usize,
    sent: Result<(), LiveTranscriptionQueueSendError>,
) -> usize {
    if sent is Ok {
        (pending + 1) as usize
    } else {
        pending
    }
}

/// What the worker says of a job that was offered to its queue.
pub open spec fn queued(sent: Result<(), LiveTranscriptionQueueSendError>) -> Result<
    (),
    WorkerError,
> {
    match sent {
        Ok(()) => Ok(()),
        Err(LiveTranscriptionQueueSendError::Full) => Err(WorkerError::QueueFull),
        Err(LiveTranscriptionQueueSendError::Disconnected) => Err(
            WorkerError::StoppedBeforeAccepting,
        ),
    }
}

/// Counts a job that was offered to the queue.
pub fn settle_queue(
    pending_jobs: usize,
    sent: Result<(), LiveTranscriptionQueueSendError>,
) -> (settled: (usize, Result<(), WorkerError>))
    requires
        pending_jobs < usize::MAX,
    ensures
        settled.0 == pending_after_queue(pending_jobs, sent),
        settled.1 == queued(sent),
{
    match sent {
        Ok(()) => (pending_jobs + 1, Ok(())),
        Err(LiveTranscriptionQueueSendError::Full) => (pending_jobs, Err(WorkerError::QueueFull)),
        Err(LiveTranscriptionQueueSendError::Disconnected) => (
            pending_jobs,
            Err(WorkerError::StoppedBeforeAccepting),
        ),
    }
}

/// The jobs that are out after the results were asked for one. A result settles the
/// job it belongs to; the count does not fall below zero.
pub open spec fn pending_after_receipt<R>(pending: usize, received: Option<R>) -> usize {
    if received is Some && pending > 0 {
        (pending - 1) as usize
    } else {
        pending
    }
}

/// Counts the job of a result that has come back, and hands the result on.
pub fn settle_receipt<R>(pending_jobs: usize, received: Option<R>) -> (settled: (usize, Option<R>))
    ensures
        settled.0 == pending_after_receipt(pending_jobs, received),
        settled.1 == received,
{
    match received {
        Some(result) => (pending_jobs.saturating_sub(1), Some(result)),
        None => (pending_jobs, None),
    }
}

/// Keeps a result that has come back behind those that came before it, and tells
/// whether there was one.
pub fn keep_available<R>(results: &mut Vec<R>, received: Option<R>) -> (more: bool)
    ensures
        more == (received is Some),
        final(results)@ == (match received {
            Some(result) => old(results)@.push(result),
            None => old(results)@,
        }),
{
    match received {
        Some(result) => {
            results.push(result);
            true
        },
        None => false,
    }
}

/// Keeps a result that was waited for behind those that came before it, and counts
/// its job as done. Without one, the worker has stopped too early.
pub fn keep_result<R>(results: &mut Vec<R>, pending_jobs: usize, received: Option<R>) -> (settled:
    Result<usize, WorkerError>)
    requires
        pending_jobs > 0,
    ensures
        match received {
            Some(result) => settled == Ok::<usize, WorkerError>((pending_jobs - 1) as usize)
                && final(results)@ == old(results)@.push(result),
            None => settled == Err::<usize, WorkerError>(WorkerError::StoppedBeforeReturning)
                && final(results)@ == old(results)@,
        },
{
    match received {
        Some(result) => {
            results.push(result);
            Ok(pending_jobs - 1)
        },
        None => Err(WorkerError::StoppedBeforeReturning),
    }
}

impl<T, R> LiveTranscriptionWorker<T, R> {
    /// Offers a job to the queue, and counts it if the queue took it.
    pub fn queue(&mut self, job: T) -> (result: Result<(), WorkerError>)
        requires
            old(self).pending_jobs < usize::MAX,
        ensures
            final(self).jobs == old(self).jobs,
            final(self).results == old(self).results,
            final(self).queue_policy == old(self).queue_policy,
            old(self).jobs is None ==> result == Err::<(), WorkerError>(WorkerError::NotRunning)
                && final(self).pending_jobs == old(self).pending_jobs,
            old(self).jobs is Some ==> exists|sent: Result<(), LiveTranscriptionQueueSendError>|
                #![trigger queued(sent)]
                result == queued(sent) && final(self).pending_jobs == pending_after_queue(
                    old(self).pending_jobs,
                    sent,
                ),
            old(self).queue_policy == LiveTranscriptionQueuePolicy::WaitForCapacity ==> result
                != Err::<(), WorkerError>(WorkerError::QueueFull),
    {
        match &self.jobs {
            None => Err(WorkerError::NotRunning),
            Some(sender) => {
                let sent = self.queue_policy.send(sender, job);
                let (pending_jobs, result) = settle_queue(self.pending_jobs, sent);
                self.pending_jobs = pending_jobs;
                assert(result == queued(sent));
                result
            },
        }
    }

    /// Takes a result that has come back, and counts its job as done. Whether one has
    /// come back depends on the worker's end of the channel; `settle_receipt` says what
    /// becomes of either answer.
    pub fn take_available(&mut self) -> (result: Option<R>)
        ensures
            final(self).jobs == old(self).jobs,
            final(self).results == old(self).results,
            final(self).queue_policy == old(self).queue_policy,
            final(self).pending_jobs == pending_after_receipt(old(self).pending_jobs, result),
    {
        let received = channel_try_receive(&self.results);
        let (pending_jobs, result) = settle_receipt(self.pending_jobs, received);
        self.pending_jobs = pending_jobs;
        result
    }

    /// Takes all results that have come back, in the order they came, and counts their
    /// jobs as done. How many have come back depends on the worker's end of the channel;
    /// `settle_receipt` and `keep_available` say what becomes of each.
    pub fn drain_available(&mut self) -> (results: Vec<R>)
        ensures
            final(self).jobs == old(self).jobs,
            final(self).results == old(self).results,
            final(self).queue_policy == old(self).queue_policy,
            final(self).pending_jobs == (if results@.len() < old(self).pending_jobs {
                old(self).pending_jobs - results@.len()
            } else {
                0
            }),
    {
        let mut results: Vec<R> = Vec::new();
        while results.len() < usize::MAX
            invariant
                self.jobs == old(self).jobs,
                self.results == old(self).results,
                self.queue_policy == old(self).queue_policy,
                self.pending_jobs == (if results@.len() < old(self).pending_jobs {
                    old(self).pending_jobs - results@.len()
                } else {
                    0
                }),
            decreases usize::MAX - results@.len(),
        {
            let received = self.take_available();
            if !keep_available(&mut results, received) {
                return results;
            }
        }
        results
    }

    /// Closes the queue and waits for the results of all jobs that are out, in the
    /// order they come. What comes depends on the worker's end of the channel;
    /// `keep_result` says what becomes of each answer.
    pub fn finish(&mut self) -> (result: Result<Vec<R>, WorkerError>)
        ensures
            final(self).jobs is None,
            final(self).results == old(self).results,
            final(self).queue_policy == old(self).queue_policy,
            match result {
                Ok(results) => results@.len() == old(self).pending_jobs && final(self).pending_jobs
                    == 0,
                Err(error) => error == WorkerError::StoppedBeforeReturning && 0
                    < final(self).pending_jobs <= old(self).pending_jobs,
            },
    {
        self.jobs = None;
        let mut results: Vec<R> = Vec::new();
        while self.pending_jobs > 0
            invariant
                self.jobs is None,
                self.results == old(self).results,
                self.queue_policy == old(self).queue_policy,
                results@.len() + self.pending_jobs == old(self).pending_jobs,
            decreases self.pending_jobs,
        {
            let received = channel_receive(&self.results);
            match keep_result(&mut results, self.pending_jobs, received) {
                Ok(pending_jobs) => {
                    self.pending_jobs = pending_jobs;
                },
                Err(error) => {
                    return Err(error);
                },
            }
        }
        Ok(results)
    }
}

/// A job that waits for room is never turned away for want of it.
pub proof fn law_waiting_never_finds_the_queue_full(reply: ChannelReply)
    requires
        reply != ChannelReply::Full,
    ensures
        reply_result(reply) != Err::<(), LiveTranscriptionQueueSendError>(
            LiveTranscriptionQueueSendError::Full,
        ),
        queued(reply_result(reply)) != Err::<(), WorkerError>(WorkerError::QueueFull),
{
}

/// A job is counted as out exactly if the queue took it.
pub proof fn law_only_taken_jobs_are_counted(
    pending: usize,
    sent: Result<(), LiveTranscriptionQueueSendError>,
)
    requires
        pending < usize::MAX,
    ensures
        queued(sent) is Ok <==> pending_after_queue(pending, sent) == pending + 1,
        queued(sent) is Err <==> pending_after_queue(pending, sent) == pending,
{
}

/// What the channel's answer means: a job that was taken is out, one more than before; a
/// job that was not is refused and not counted, with the reason that the channel gave.
pub proof fn law_an_answer_settles_the_job(pending: usize, reply: ChannelReply)
    requires
        pending < usize::MAX,
    ensures
        reply_result(reply) is Ok <==> reply == ChannelReply::Taken,
        pending_after_queue(pending, reply_result(reply)) == pending + if reply
            == ChannelReply::Taken {
            1int
        } else {
            0
        },
        queued(reply_result(reply)) == (if reply == ChannelReply::Taken {
            Ok::<(), WorkerError>(())
        } else if reply == ChannelReply::Full {
            Err::<(), WorkerError>(WorkerError::QueueFull)
        } else {
            Err::<(), WorkerError>(WorkerError::StoppedBeforeAccepting)
        }),
{
}

/// A job that was taken and whose result came back is out no more.
pub proof fn law_a_result_undoes_the_job<R>(pending: usize, result: R)
    requires
        pending < usize::MAX,
    ensures
        pending_after_receipt(pending_after_queue(pending, Ok(())), Some(result)) == pending,
        pending_after_receipt::<R>(pending, None) == pending,
        pending_after_receipt(0, Some(result)) == 0,
{
}

} // verus!
