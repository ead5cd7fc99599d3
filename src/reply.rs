//! Fixed-capacity accumulation of reply bytes, with overrun reporting.

use vstd::prelude::*;
use crate::bounded::{reply_buf_as_slice, reply_buf_clear, reply_buf_items, reply_buf_new, reply_buf_push};

verus! {

/// Number of reply bytes kept from one drain.
pub const REPLY_CAPACITY: usize = 64;

/// Bytes of one reply, up to `REPLY_CAPACITY`, and whether any had to be
/// dropped because the buffer was full.
pub struct ReplyBuffer {
    items: heapless::Vec<u8, 64>,
    overrun: bool,
}

/// What a reply buffer holds.
pub struct ReplyModel {
    pub bytes: Seq<u8>,
    pub overrun: bool,
}

impl View for ReplyBuffer {
    type V = ReplyModel;

    closed spec fn view(&self) -> ReplyModel {
        ReplyModel { bytes: reply_buf_items(self.items), overrun: self.overrun }
    }
}

/// The reply after byte `b` arrives at a buffer holding `m`.
pub open spec fn accept(m: ReplyModel, b: u8) -> ReplyModel {
    if m.bytes.len() < REPLY_CAPACITY {
        ReplyModel { bytes: m.bytes.push(b), overrun: m.overrun }
    } else {
        ReplyModel { bytes: m.bytes, overrun: true }
    }
}

impl ReplyBuffer {
    pub open spec fn wf(&self) -> bool {
        self@.bytes.len() <= REPLY_CAPACITY
    }

    pub fn new() -> (r: ReplyBuffer)
        ensures
            r.wf(),
            r@.bytes == Seq::<u8>::empty(),
            !r@.overrun,
    {
        ReplyBuffer { items: reply_buf_new(), overrun: false }
    }

    /// Empties the buffer and forgets any earlier overrun.
    pub fn clear(&mut self)
        ensures
            final(self).wf(),
            final(self)@.bytes == Seq::<u8>::empty(),
            !final(self)@.overrun,
    {
        reply_buf_clear(&mut self.items);
        self.overrun = false;
    }

    /// Keeps `b` if there is room; otherwise drops it and records the
    /// overrun. Returns whether `b` was kept.
    pub fn push(&mut self, b: u8) -> (kept: bool)
        requires
            old(self).wf(),
        ensures
            final(self).wf(),
            final(self)@ == accept(old(self)@, b),
            kept == (old(self)@.bytes.len() < REPLY_CAPACITY),
    {
        match reply_buf_push(&mut self.items, b) {
            Ok(()) => true,
            Err(_) => {
                self.overrun = true;
                false
            },
        }
    }

    pub fn as_slice(&self) -> (r: &[u8])
        ensures
            r@ == self@.bytes,
    {
        reply_buf_as_slice(&self.items)
    }

    pub fn overrun(&self) -> (r: bool)
        ensures
            r == self@.overrun,
    {
        self.overrun
    }
}

} // verus!
