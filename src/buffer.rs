//! The orchestrator's event buffer: filled from the stream, flushed as a
//! processing batch when it holds a full batch or when its oldest event has
//! waited the maximum wait time. Time is passed in as milliseconds.

use vstd::prelude::*;
use crate::coalescer::elapsed_ms;
use crate::models::JetstreamMessage;

verus! {

/// Events per processing batch unless configured otherwise.
pub const DEFAULT_BATCH_SIZE: usize = 25;

/// Flush-timer period and longest wait of a buffered event, in milliseconds.
pub const MAX_WAIT_TIME_MS: u64 = 200;

pub struct MessageBuffer {
    pub messages: Vec<JetstreamMessage>,
    pub batch_size: usize,
    pub max_wait_ms: u64,
    pub last_flush_ms: u64,
}

impl MessageBuffer {
    /// Whether the buffer is due for a flush at `now_ms`.
    pub open spec fn due(&self, now_ms: u64) -> bool {
        self.messages@.len() >= self.batch_size
            || (self.messages@.len() > 0 && elapsed_ms(self.last_flush_ms, now_ms) >= self.max_wait_ms)
    }

    pub fn new(batch_size: usize, max_wait_ms: u64, now_ms: u64) -> (r: MessageBuffer)
        ensures
            r.messages@.len() == 0,
            r.batch_size == batch_size,
            r.max_wait_ms == max_wait_ms,
            r.last_flush_ms == now_ms,
    {
        MessageBuffer { messages: Vec::new(), batch_size, max_wait_ms, last_flush_ms: now_ms }
    }

    /// Appends `message`; tells whether the buffer is now due.
    pub fn add(&mut self, message: JetstreamMessage, now_ms: u64) -> (r: bool)
        ensures
            final(self).messages@ == old(self).messages@.push(message),
            final(self).batch_size == old(self).batch_size,
            final(self).max_wait_ms == old(self).max_wait_ms,
            final(self).last_flush_ms == old(self).last_flush_ms,
            r == final(self).due(now_ms),
    {
        self.messages.push(message);
        self.should_flush(now_ms)
    }

    pub fn is_ready(&self, now_ms: u64) -> (r: bool)
        ensures
            r == self.due(now_ms),
    {
        self.should_flush(now_ms)
    }

    /// Takes every buffered event, in arrival order, and restarts the wait.
    pub fn drain(&mut self, now_ms: u64) -> (r: Vec<JetstreamMessage>)
        ensures
            r@ == old(self).messages@,
            final(self).messages@.len() == 0,
            final(self).batch_size == old(self).batch_size,
            final(self).max_wait_ms == old(self).max_wait_ms,
            final(self).last_flush_ms == now_ms,
    {
        self.last_flush_ms = now_ms;
        let mut out: Vec<JetstreamMessage> = Vec::new();
        std::mem::swap(&mut out, &mut self.messages);
        out
    }

    pub fn len(&self) -> (r: usize)
        ensures
            r == self.messages@.len(),
    {
        self.messages.len()
    }

    pub fn is_empty(&self) -> (r: bool)
        ensures
            r == (self.messages@.len() == 0),
    {
        self.messages.len() == 0
    }

    fn should_flush(&self, now_ms: u64) -> (r: bool)
        ensures
            r == self.due(now_ms),
    {
        let n = self.messages.len();
        let elapsed: u64 = if now_ms >= self.last_flush_ms { now_ms - self.last_flush_ms } else { 0 };
        n >= self.batch_size || (n > 0 && elapsed >= self.max_wait_ms)
    }
}

/// Whether this instance processes an event with sequence number `seq`:
/// always without sharding (`modulo == 0`), else when `seq mod modulo == shard`.
pub open spec fn in_shard(seq: u64, modulo: u64, shard: u64) -> bool {
    modulo == 0 || seq % modulo == shard
}

pub fn should_process_message(message: &JetstreamMessage, modulo: u64, shard: u64) -> (r: bool)
    ensures
        r == in_shard(message.seq, modulo, shard),
{
    modulo == 0 || message.seq % modulo == shard
}

/// What the orchestrator does after an event or a timer tick.
pub enum BufferAction {
    /// Keep buffering.
    Wait,
    /// Hand these events to a processing task.
    Process { batch: Vec<JetstreamMessage> },
}

/// Handles one event from the stream at `now_ms`: events outside the shard
/// are dropped; a buffer that reaches its batch size is handed off whole.
pub fn on_event(buffer: &mut MessageBuffer, message: JetstreamMessage, modulo: u64, shard: u64, now_ms: u64) -> (r: BufferAction)
    ensures
        final(buffer).batch_size == old(buffer).batch_size,
        final(buffer).max_wait_ms == old(buffer).max_wait_ms,
        !in_shard(message.seq, modulo, shard) ==> r is Wait && *final(buffer) == *old(buffer),
        in_shard(message.seq, modulo, shard) && old(buffer).messages@.len() + 1 >= old(buffer).batch_size ==> {
            &&& r matches BufferAction::Process { batch }
            &&& batch@ == old(buffer).messages@.push(message)
            &&& final(buffer).messages@.len() == 0
            &&& final(buffer).last_flush_ms == now_ms
        },
        in_shard(message.seq, modulo, shard) && old(buffer).messages@.len() + 1 < old(buffer).batch_size ==> {
            &&& r is Wait
            &&& final(buffer).messages@ == old(buffer).messages@.push(message)
            &&& final(buffer).last_flush_ms == old(buffer).last_flush_ms
        },
{
    if !should_process_message(&message, modulo, shard) {
        return BufferAction::Wait;
    }
    buffer.messages.push(message);
    if buffer.messages.len() >= buffer.batch_size {
        BufferAction::Process { batch: buffer.drain(now_ms) }
    } else {
        BufferAction::Wait
    }
}

/// Handles a flush-timer tick at `now_ms`: a non-empty buffer is handed off.
pub fn on_tick(buffer: &mut MessageBuffer, now_ms: u64) -> (r: BufferAction)
    ensures
        final(buffer).batch_size == old(buffer).batch_size,
        final(buffer).max_wait_ms == old(buffer).max_wait_ms,
        old(buffer).messages@.len() == 0 ==> r is Wait && *final(buffer) == *old(buffer),
        old(buffer).messages@.len() > 0 ==> {
            &&& r matches BufferAction::Process { batch }
            &&& batch@ == old(buffer).messages@
            &&& final(buffer).messages@.len() == 0
            &&& final(buffer).last_flush_ms == now_ms
        },
{
    if buffer.messages.len() == 0 {
        BufferAction::Wait
    } else {
        BufferAction::Process { batch: buffer.drain(now_ms) }
    }
}

} // verus!
