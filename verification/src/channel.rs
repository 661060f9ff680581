//! Context actions and the bounded channel that carries them from the context to the
//! node. The channel stays disabled until it is enabled, so that nothing fills it
//! while no one reads from it.

use crossbeam::channel::{Receiver, RecvError, Sender};
use vstd::prelude::*;

verus! {

/// Capacity of the context-action channel.
pub const CHANNEL_BUFFER_LEN: usize = 1_048_576;

/// A hash as raw bytes.
pub type Hash = Vec<u8>;

/// One operation performed on the context storage (`SetValue` is the "set" operation).
///
/// `start_time` and `end_time` hold the bit patterns (`f64::to_bits`) of the wall-clock
/// times, in seconds, at which the operation started and ended.
pub enum ContextAction {
    SetValue {
        context_hash: Option<Hash>,
        block_hash: Option<Hash>,
        operation_hash: Option<Hash>,
        key: Vec<String>,
        value: Vec<u8>,
        value_as_json: Option<String>,
        start_time: u64,
        end_time: u64,
        tezedge_time: u128,
    },
    Delete {
        context_hash: Option<Hash>,
        block_hash: Option<Hash>,
        operation_hash: Option<Hash>,
        key: Vec<String>,
        start_time: u64,
        end_time: u64,
    },
    RemoveRecursively {
        context_hash: Option<Hash>,
        block_hash: Option<Hash>,
        operation_hash: Option<Hash>,
        key: Vec<String>,
        start_time: u64,
        end_time: u64,
    },
    Copy {
        context_hash: Option<Hash>,
        block_hash: Option<Hash>,
        operation_hash: Option<Hash>,
        from_key: Vec<String>,
        to_key: Vec<String>,
        start_time: u64,
        end_time: u64,
    },
    Checkout { context_hash: Hash, start_time: u64, end_time: u64 },
    Commit {
        parent_context_hash: Option<Hash>,
        block_hash: Option<Hash>,
        new_context_hash: Hash,
        start_time: u64,
        end_time: u64,
    },
    Mem {
        context_hash: Option<Hash>,
        block_hash: Option<Hash>,
        operation_hash: Option<Hash>,
        key: Vec<String>,
        start_time: u64,
        end_time: u64,
    },
    DirMem {
        context_hash: Option<Hash>,
        block_hash: Option<Hash>,
        operation_hash: Option<Hash>,
        key: Vec<String>,
        start_time: u64,
        end_time: u64,
    },
    Get {
        context_hash: Option<Hash>,
        block_hash: Option<Hash>,
        operation_hash: Option<Hash>,
        key: Vec<String>,
        start_time: u64,
        end_time: u64,
    },
    Fold {
        context_hash: Option<Hash>,
        block_hash: Option<Hash>,
        operation_hash: Option<Hash>,
        key: Vec<String>,
        start_time: u64,
        end_time: u64,
    },
    /// A control event used to shut down the channel's reader.
    Shutdown,
}

#[verifier::external_type_specification]
#[verifier::external_body]
#[verifier::reject_recursive_types(T)]
pub struct ExSender<T>(Sender<T>);

#[verifier::external_type_specification]
#[verifier::external_body]
#[verifier::reject_recursive_types(T)]
pub struct ExReceiver<T>(Receiver<T>);

#[verifier::external_type_specification]
#[verifier::external_body]
pub struct ExRecvError(RecvError);

/// The capacity of the channel a sending end belongs to, as
/// `crossbeam::channel::Sender::capacity` reports it (fixed when the channel is made).
pub uninterp spec fn sender_capacity(s: Sender<ContextAction>) -> Option<usize>;

/// The capacity of the channel a receiving end belongs to, as
/// `crossbeam::channel::Receiver::capacity` reports it (fixed when the channel is made).
pub uninterp spec fn receiver_capacity(r: Receiver<ContextAction>) -> Option<usize>;

/// Calls `crossbeam::channel::bounded`, which makes a channel holding at most `cap`
/// messages. Claims that both ends report the capacity `cap` (crossbeam makes an array
/// channel of capacity `cap`, or a zero-capacity one when `cap` is 0, and `capacity`
/// returns `Some` of it). The capacity is bounded because crossbeam panics when a
/// capacity is so large that its internal lap arithmetic overflows.
#[verifier::external_body]
fn bounded_channel(cap: usize) -> (r: (Sender<ContextAction>, Receiver<ContextAction>))
    requires
        cap <= CHANNEL_BUFFER_LEN,
    ensures
        sender_capacity(r.0) == Some(cap),
        receiver_capacity(r.1) == Some(cap),
{
    crossbeam::channel::bounded(cap)
}

/// Calls `crossbeam::channel::Sender::send`, which blocks while the channel is full and
/// fails only when every receiver is gone. On failure crossbeam hands the message back
/// inside its `SendError`; this function returns that message. Beside the outcome it
/// returns, as a ghost value, the message it handed to `send`. Whether the send
/// succeeds depends on other threads and is not claimed.
#[verifier::external_body]
fn sender_send<T>(sender: &Sender<T>, msg: T) -> (res: (Result<(), T>, Ghost<T>))
    ensures
        res.1@ == msg,
        res.0 matches Err(m) ==> m == msg,
{
    let handed = Ghost(msg);
    (sender.send(msg).map_err(|e| e.0), handed)
}

/// Calls `crossbeam::channel::Receiver::recv`, which blocks until a message arrives
/// and fails when the channel is empty and every sender is gone. What arrives depends
/// on other threads and is not claimed.
#[verifier::external_body]
fn receiver_recv<T>(receiver: &Receiver<T>) -> Result<T, RecvError> {
    receiver.recv()
}

/// The message that could not be sent because no one receives any more.
pub struct ContextSendError {
    pub action: ContextAction,
}

/// Receiving failed: the channel is empty and no one sends any more.
pub enum ContextReceiveError {
    Disconnected,
}

/// The sending end of the channel, used by the context. It starts disabled.
pub struct ContextSender {
    enabled: bool,
    sender: Sender<ContextAction>,
}

/// The receiving end of the channel, used by the node.
pub struct ContextReceiver {
    receiver: Receiver<ContextAction>,
}

impl ContextSender {
    /// Whether sent actions go into the channel.
    pub closed spec fn is_enabled(&self) -> bool {
        self.enabled
    }

    /// The capacity of the channel this end sends into.
    pub closed spec fn capacity(&self) -> Option<usize> {
        sender_capacity(self.sender)
    }

    /// The crossbeam sender this end sends through.
    pub closed spec fn end(&self) -> Sender<ContextAction> {
        self.sender
    }
}

impl ContextReceiver {
    /// The capacity of the channel this end receives from.
    pub closed spec fn capacity(&self) -> Option<usize> {
        receiver_capacity(self.receiver)
    }
}

/// A channel of capacity [`CHANNEL_BUFFER_LEN`], with its sending end disabled.
pub fn new_context_channel() -> (r: (ContextSender, ContextReceiver))
    ensures
        !r.0.is_enabled(),
        r.0.capacity() == Some(CHANNEL_BUFFER_LEN),
        r.1.capacity() == Some(CHANNEL_BUFFER_LEN),
{
    let (sender, receiver) = bounded_channel(CHANNEL_BUFFER_LEN);
    (ContextSender { enabled: false, sender }, ContextReceiver { receiver })
}

/// Sends `action` into the channel when it is enabled; a disabled channel accepts the
/// action and drops it. Beside the answer it returns, as a ghost value, the message it
/// handed to the channel: the action itself when the channel is enabled, nothing when
/// it is disabled. Fails, handing the action back, only when the channel is enabled and
/// no one receives any more.
pub fn context_send(channel: &ContextSender, action: ContextAction) -> (res: (
    Result<(), ContextSendError>,
    Ghost<Option<ContextAction>>,
))
    ensures
        channel.is_enabled() ==> res.1@ == Some(action),
        !channel.is_enabled() ==> res.1@ is None,
        !channel.is_enabled() ==> res.0 is Ok,
        res.0 matches Err(e) ==> channel.is_enabled() && e.action == action,
{
    match send_plan(channel, action) {
        Some(a) => {
            let (sent, handed) = sender_send(&channel.sender, a);
            (send_outcome(sent), Ghost(Some(handed@)))
        },
        None => (Ok(()), Ghost(None)),
    }
}

/// What a send hands to the channel: the action itself when the channel is enabled,
/// nothing when it is disabled.
pub fn send_plan(channel: &ContextSender, action: ContextAction) -> (r: Option<ContextAction>)
    ensures
        channel.is_enabled() ==> r == Some(action),
        !channel.is_enabled() ==> r is None,
{
    if channel.enabled {
        Some(action)
    } else {
        None
    }
}

/// What a send answers, given what the channel did with the action: success when it
/// took the action, and otherwise the action handed back.
pub fn send_outcome(sent: Result<(), ContextAction>) -> (res: Result<(), ContextSendError>)
    ensures
        res is Ok <==> sent is Ok,
        sent matches Err(a) ==> res matches Err(e) && e.action == a,
{
    match sent {
        Ok(()) => Ok(()),
        Err(a) => Err(ContextSendError { action: a }),
    }
}

/// Receives the next action, waiting for one to arrive.
pub fn context_receive(channel: &ContextReceiver) -> (res: Result<ContextAction, ContextReceiveError>) {
    receive_outcome(receiver_recv(&channel.receiver))
}

/// What a receive answers, given what the channel delivered: the action that arrived,
/// or, when the channel reported that no one sends any more, that it is disconnected.
pub fn receive_outcome(received: Result<ContextAction, RecvError>) -> (res: Result<
    ContextAction,
    ContextReceiveError,
>)
    ensures
        received matches Ok(a) ==> res matches Ok(b) && b == a,
        received is Err ==> res matches Err(ContextReceiveError::Disconnected),
{
    match received {
        Ok(action) => Ok(action),
        Err(_) => Err(ContextReceiveError::Disconnected),
    }
}

/// Enables the channel: from now on sent actions go into it. Enabling is never undone.
pub fn enable_context_channel(channel: &mut ContextSender)
    ensures
        final(channel).is_enabled(),
        final(channel).end() == old(channel).end(),
        final(channel).capacity() == old(channel).capacity(),
        old(channel).is_enabled() ==> *final(channel) == *old(channel),
{
    channel.enabled = true;
}

} // verus!
