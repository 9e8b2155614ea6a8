use vstd::prelude::*;

verus! {

/// Collects events into a buffer until the event task sends it.
///
/// Each event starts at `last_start` for the most recent one; `write_pos` is where the next
/// byte goes; `overflowed` records that an event was dropped for lack of room.
pub struct EventState {
    evt_buf: Vec<u8>,
    write_pos: usize,
    last_start: usize,
    overflowed: bool,
}

impl EventState {
    /// The buffer, including bytes past `pos` left from earlier use.
    pub closed spec fn buf(self) -> Seq<u8> {
        self.evt_buf@
    }

    /// Where the next byte goes.
    pub closed spec fn pos(self) -> nat {
        self.write_pos as nat
    }

    /// Where the most recent event starts.
    pub closed spec fn last(self) -> nat {
        self.last_start as nat
    }

    /// Whether an event was dropped.
    pub closed spec fn overflow(self) -> bool {
        self.overflowed
    }

    /// The invariant every state keeps: the last event starts no later than the write
    /// position, which lies within the buffer.
    #[verifier::type_invariant]
    closed spec fn well_formed(self) -> bool {
        self.last_start <= self.write_pos <= self.evt_buf@.len()
    }

    /// A fresh state writing into `evt_buf` from its start.
    pub fn new(evt_buf: Vec<u8>) -> (r: Self)
        ensures
            r.buf() == evt_buf@,
            r.pos() == 0,
            r.last() == 0,
            !r.overflow(),
    {
        EventState { evt_buf, write_pos: 0, last_start: 0, overflowed: false }
    }

    /// A state with no buffer: every event overflows.
    pub fn empty() -> (r: Self)
        ensures
            r.buf().len() == 0,
            r.pos() == 0,
            r.last() == 0,
            !r.overflow(),
    {
        Self::new(Vec::new())
    }

    /// Number of bytes written so far.
    pub fn write_pos(&self) -> (r: usize)
        ensures
            r == self.pos(),
    {
        self.write_pos
    }

    pub fn overflowed(&self) -> (r: bool)
        ensures
            r == self.overflow(),
    {
        self.overflowed
    }

    /// The bytes written so far.
    pub fn written(&self) -> (r: &[u8])
        ensures
            r@ == self.buf().subrange(0, self.pos() as int),
    {
        proof {
            use_type_invariant(self);
        }
        vstd::slice::slice_subrange(self.evt_buf.as_slice(), 0, self.write_pos)
    }

    /// Gives back the buffer, so that it can be sent.
    pub fn into_buffer(self) -> (r: Vec<u8>)
        ensures
            r@ == self.buf(),
    {
        self.evt_buf
    }

    /// Records a one-byte event, or marks the state overflowed when the buffer is full.
    pub fn put(&mut self, event: u8)
        ensures
            old(self).pos() < old(self).buf().len() ==> {
                &&& final(self).buf() == old(self).buf().update(old(self).pos() as int, event)
                &&& final(self).last() == old(self).pos()
                &&& final(self).pos() == old(self).pos() + 1
                &&& final(self).overflow() == old(self).overflow()
            },
            old(self).pos() >= old(self).buf().len() ==> {
                &&& final(self).buf() == old(self).buf()
                &&& final(self).last() == old(self).last()
                &&& final(self).pos() == old(self).pos()
                &&& final(self).overflow()
            },
    {
        proof {
            use_type_invariant(&*self);
        }
        let mut this = EventState::new(Vec::new());
        core::mem::swap(&mut this, self);
        let EventState { mut evt_buf, write_pos, last_start, overflowed } = this;
        if write_pos < evt_buf.len() {
            evt_buf.set(write_pos, event);
            *self = EventState { evt_buf, write_pos: write_pos + 1, last_start: write_pos, overflowed };
        } else {
            *self = EventState { evt_buf, write_pos, last_start, overflowed: true };
        }
    }

    /// Whether the next `put_var_len` of `event` extends the most recent event: that event
    /// has the same code, its count byte is below 255, and there is room for one more byte.
    pub open spec fn extends_last(self, event: u8) -> bool {
        &&& self.last() < self.pos()
        &&& self.buf()[self.last() as int] == event
        &&& self.buf()[self.last() + 1int] != 255
        &&& self.pos() < self.buf().len()
    }

    /// Whether [`EventState::put_var_len`] of `event` may look at the byte after the most
    /// recent event's code: always, unless that event has the same code and ends the buffer.
    pub fn var_len_allowed(&self, event: u8) -> (r: bool)
        ensures
            r == ((self.last() < self.pos() && self.buf()[self.last() as int] == event) ==> self.last()
                + 1 < self.buf().len()),
    {
        proof {
            use_type_invariant(self);
        }
        let ls = self.last_start;
        !(ls < self.write_pos && self.evt_buf[ls] == event) || ls + 1 < self.evt_buf.len()
    }

    /// Records one data byte of a variable-length event. When the most recent event has the
    /// same code and room remains, the byte is appended to it and its count (the byte after
    /// the code) goes up by one; otherwise a new event `[event, 1, byte]` is started when three
    /// bytes fit, and the state is marked overflowed when they do not.
    ///
    /// The byte after the most recent event's code is read even when that event was a
    /// one-byte event, so it must lie inside the buffer.
    pub fn put_var_len(&mut self, event: u8, byte: u8)
        requires
            (old(self).last() < old(self).pos() && old(self).buf()[old(self).last() as int]
                == event) ==> old(self).last() + 1 < old(self).buf().len(),
        ensures
            old(self).extends_last(event) ==> {
                let l = old(self).last() as int;
                &&& final(self).buf() == old(self).buf().update(
                    l + 1,
                    (old(self).buf()[l + 1] + 1) as u8,
                ).update(old(self).pos() as int, byte)
                &&& final(self).last() == old(self).last()
                &&& final(self).pos() == old(self).pos() + 1
                &&& final(self).overflow() == old(self).overflow()
            },
            !old(self).extends_last(event) && old(self).pos() + 2 < old(self).buf().len() ==> {
                let p = old(self).pos() as int;
                &&& final(self).buf() == old(self).buf().update(p, event).update(p + 1, 1u8).update(
                    p + 2,
                    byte,
                )
                &&& final(self).last() == old(self).pos()
                &&& final(self).pos() == old(self).pos() + 3
                &&& final(self).overflow() == old(self).overflow()
            },
            !old(self).extends_last(event) && old(self).pos() + 2 >= old(self).buf().len() ==> {
                &&& final(self).buf() == old(self).buf()
                &&& final(self).last() == old(self).last()
                &&& final(self).pos() == old(self).pos()
                &&& final(self).overflow()
            },
    {
        proof {
            use_type_invariant(&*self);
        }
        let mut this = EventState::new(Vec::new());
        core::mem::swap(&mut this, self);
        let EventState { mut evt_buf, write_pos: wp, last_start: ls, overflowed } = this;
        if ls < wp && evt_buf[ls] == event && evt_buf[ls + 1] != 255 && wp < evt_buf.len() {
            let count = evt_buf[ls + 1];
            evt_buf.set(ls + 1, count + 1);
            evt_buf.set(wp, byte);
            *self = EventState { evt_buf, write_pos: wp + 1, last_start: ls, overflowed };
        } else if evt_buf.len() > 2 && wp < evt_buf.len() - 2 {
            evt_buf.set(wp, event);
            evt_buf.set(wp + 1, 1);
            evt_buf.set(wp + 2, byte);
            *self = EventState { evt_buf, write_pos: wp + 3, last_start: wp, overflowed };
        } else {
            *self = EventState { evt_buf, write_pos: wp, last_start: ls, overflowed: true };
        }
    }
}

} // verus!
