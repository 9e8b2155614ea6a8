use vstd::prelude::*;

verus! {

/// Writes bytes one at a time into a caller-provided buffer, starting at an offset.
pub struct Writer<'a> {
    offset: usize,
    buf: &'a mut [u8],
}

impl<'a> Writer<'a> {
    /// The index of the next byte to be written.
    pub closed spec fn pos(&self) -> nat {
        self.offset as nat
    }

    /// The whole underlying buffer, as it stands now.
    pub closed spec fn contents(&self) -> Seq<u8> {
        self.buf@
    }

    /// Bytes that can still be written.
    pub open spec fn room(&self) -> int {
        self.contents().len() - self.pos()
    }

    pub fn new(buf: &'a mut [u8], offset: usize) -> (w: Writer<'a>)
        ensures
            w.pos() == offset,
            w.contents() == old(buf)@,
    {
        Writer { buf, offset }
    }

    pub fn offset(&self) -> (r: usize)
        ensures
            r == self.pos(),
    {
        self.offset
    }

    /// Number of bytes that can still be written (zero when the offset lies past the end).
    pub fn remaining(&self) -> (r: usize)
        ensures
            r == (if self.room() > 0 { self.room() } else { 0 }),
    {
        if self.offset < self.buf.len() {
            self.buf.len() - self.offset
        } else {
            0
        }
    }

    /// Stores `b` at the current offset and advances; fails, changing nothing, when the buffer is full.
    pub fn put(&mut self, b: u8) -> (r: Result<(), ()>)
        ensures
            (final(self).contents(), final(self).pos(), r is Ok) == put_step(old(self).contents(), old(self).pos(), b),
            old(self).pos() < old(self).contents().len() ==> {
                &&& r is Ok
                &&& final(self).pos() == old(self).pos() + 1
                &&& final(self).contents() == old(self).contents().update(old(self).pos() as int, b)
            },
            old(self).pos() >= old(self).contents().len() ==> {
                &&& r is Err
                &&& final(self).pos() == old(self).pos()
                &&& final(self).contents() == old(self).contents()
            },
    {
        if self.offset < self.buf.len() {
            self.buf[self.offset] = b;
            self.offset = self.offset + 1;
            Ok(())
        } else {
            Err(())
        }
    }

    /// Reserves the next byte for the caller to fill, advancing past it; fails, changing
    /// nothing, when the buffer is full.
    pub fn reserve(&mut self) -> (r: Result<&mut u8, ()>)
        ensures
            old(self).pos() < old(self).contents().len() ==> {
                &&& r is Ok
                &&& *r->Ok_0 == old(self).contents()[old(self).pos() as int]
                &&& final(self).pos() == old(self).pos() + 1
                &&& final(self).contents() == old(self).contents().update(old(self).pos() as int, *final(r->Ok_0))
            },
            old(self).pos() >= old(self).contents().len() ==> {
                &&& r is Err
                &&& final(self).pos() == old(self).pos()
                &&& final(self).contents() == old(self).contents()
            },
    {
        if self.offset >= self.buf.len() {
            return Err(());
        }
        let start = self.offset;
        self.offset = start + 1;
        let (_head, rest) = self.buf.split_at_mut(start);
        match rest.first_mut() {
            Some(b) => Ok(b),
            None => {
                assert(false);
                Err(())
            },
        }
    }

    /// Bytes that can still be written, never negative: [`Writer::remaining`] as a number.
    pub open spec fn free(&self) -> int {
        if self.room() > 0 { self.room() } else { 0 }
    }

    /// Reserves the next `n` bytes for the caller to fill, advancing past them; fails,
    /// changing nothing, when fewer than `n` bytes remain (see [`Writer::remaining`]). Zero
    /// bytes can always be reserved, also with the offset past the end.
    pub fn reserve_buf(&mut self, n: usize) -> (r: Result<&mut [u8], ()>)
        ensures
            n <= old(self).room() ==> {
                &&& r is Ok
                &&& r->Ok_0@ == old(self).contents().subrange(old(self).pos() as int, old(self).pos() + n)
                &&& final(self).pos() == old(self).pos() + n
                &&& final(self).contents() == old(self).contents().subrange(0, old(self).pos() as int)
                    + final(r->Ok_0)@ + old(self).contents().subrange(
                    (old(self).pos() + n) as int,
                    old(self).contents().len() as int,
                )
            },
            n == 0 && old(self).room() < 0 ==> {
                &&& r is Ok
                &&& r->Ok_0@.len() == 0
                &&& final(self).pos() == old(self).pos()
                &&& final(self).contents() == old(self).contents()
            },
            n > old(self).free() ==> {
                &&& r is Err
                &&& final(self).pos() == old(self).pos()
                &&& final(self).contents() == old(self).contents()
            },
    {
        if self.offset > self.buf.len() {
            if n == 0 {
                return Ok(&mut []);
            }
            return Err(());
        }
        if n > self.buf.len() - self.offset {
            return Err(());
        }
        let start = self.offset;
        self.offset = start + n;
        let (_head, rest) = self.buf.split_at_mut(start);
        let (mid, _tail) = rest.split_at_mut(n);
        Ok(mid)
    }

    /// Copies `data` at the current offset and advances past it, when all of it fits
    /// (nothing to copy always fits); otherwise fails and changes nothing.
    pub fn put_slice(&mut self, data: &[u8]) -> (r: Result<(), ()>)
        ensures
            data@.len() <= old(self).room() ==> {
                &&& r is Ok
                &&& final(self).pos() == old(self).pos() + data@.len()
                &&& final(self).contents() == old(self).contents().subrange(0, old(self).pos() as int)
                    + data@ + old(self).contents().subrange(
                    (old(self).pos() + data@.len()) as int,
                    old(self).contents().len() as int,
                )
            },
            data@.len() == 0 && old(self).room() < 0 ==> {
                &&& r is Ok
                &&& final(self).pos() == old(self).pos()
                &&& final(self).contents() == old(self).contents()
            },
            data@.len() > old(self).free() ==> {
                &&& r is Err
                &&& final(self).pos() == old(self).pos()
                &&& final(self).contents() == old(self).contents()
            },
    {
        if self.offset > self.buf.len() {
            if data.len() == 0 {
                return Ok(());
            }
            return Err(());
        }
        if data.len() > self.buf.len() - self.offset {
            return Err(());
        }
        let start = self.offset;
        let ghost before = self.buf@;
        let n = self.buf.len();
        let mut i: usize = 0;
        while i < data.len()
            invariant
                n == self.buf@.len(),
                start + data@.len() <= self.buf@.len(),
                self.offset == start,
                0 <= i <= data@.len(),
                self.buf@.len() == before.len(),
                forall|k: int| 0 <= k < start ==> self.buf@[k] == before[k],
                forall|k: int| start + data@.len() <= k < before.len() ==> self.buf@[k] == before[k],
                forall|k: int| 0 <= k < i ==> self.buf@[start + k] == data@[k],
            decreases data@.len() - i,
        {
            self.buf[start + i] = data[i];
            i = i + 1;
        }
        self.offset = start + data.len();
        assert(self.buf@ =~= before.subrange(0, start as int) + data@ + before.subrange(
            start + data@.len(),
            before.len() as int,
        ));
        Ok(())
    }
}

/// One [`Writer::put`] of `b` on a writer holding `contents` at offset `pos`: the new
/// contents, the new offset, and whether it succeeded.
pub open spec fn put_step(contents: Seq<u8>, pos: nat, b: u8) -> (Seq<u8>, nat, bool) {
    if pos < contents.len() {
        (contents.update(pos as int, b), pos + 1, true)
    } else {
        (contents, pos, false)
    }
}

/// A run of [`Writer::put`]s of the bytes `bs`, one after another: the final contents, the
/// final offset, and whether each put succeeded.
pub open spec fn put_run(contents: Seq<u8>, pos: nat, bs: Seq<u8>) -> (Seq<u8>, nat, Seq<bool>)
    decreases bs.len(),
{
    if bs.len() == 0 {
        (contents, pos, Seq::empty())
    } else {
        let (c, p, oks) = put_run(contents, pos, bs.drop_last());
        let (c2, p2, ok) = put_step(c, p, bs.last());
        (c2, p2, oks.push(ok))
    }
}

/// Law: after `m` puts on a writer at offset `k`, exactly the first `s` succeed, where `s`
/// is `m` capped by the room left (none when `k` lies past the end); the offset is `k + s`;
/// the buffer holds the first `s` bytes from `k` on and is unchanged elsewhere.
pub proof fn law_put_run(contents: Seq<u8>, k: nat, bs: Seq<u8>)
    ensures
        ({
            let (c, p, oks) = put_run(contents, k, bs);
            let room: int = if k <= contents.len() { contents.len() - k } else { 0 };
            let s: int = if bs.len() <= room { bs.len() as int } else { room };
            &&& oks.len() == bs.len()
            &&& forall|i: int| 0 <= i < bs.len() ==> oks[i] == (i < s)
            &&& p == k + s
            &&& c.len() == contents.len()
            &&& forall|j: int| k <= j < k + s ==> c[j] == bs[j - k]
            &&& forall|j: int| 0 <= j < contents.len() && !(k <= j < k + s) ==> c[j] == contents[j]
        }),
    decreases bs.len(),
{
    if bs.len() > 0 {
        law_put_run(contents, k, bs.drop_last());
    }
}

/// Reads a request from a byte slice, front to back.
pub struct Reader<'a> {
    buf: &'a [u8],
    pos: usize,
}

/// Decodes a varint: 7-bit groups, most significant first, each byte but the last with its
/// high bit set. The value accumulates in a `u32`, so bits shifted past 32 are lost.
/// Gives the value and the number of bytes read, or `None` when no terminating byte is found.
pub open spec fn varint_decode(s: Seq<u8>, acc: u32) -> Option<(u32, nat)>
    decreases s.len(),
{
    if s.len() == 0 {
        None
    } else {
        let v: u32 = ((acc << 7u32) | ((s[0] & 0x7fu8) as u32)) as u32;
        if s[0] & 0x80u8 == 0 {
            Some((v, 1))
        } else {
            match varint_decode(s.drop_first(), v) {
                Some((r, n)) => Some((r, n + 1)),
                None => None,
            }
        }
    }
}

/// Index of the first byte whose high bit is clear, if any.
pub open spec fn first_terminator(s: Seq<u8>) -> Option<nat>
    decreases s.len(),
{
    if s.len() == 0 {
        None
    } else if s[0] & 0x80u8 == 0 {
        Some(0)
    } else {
        match first_terminator(s.drop_first()) {
            Some(i) => Some(i + 1),
            None => None,
        }
    }
}

/// A varint is exactly as long as the run of bytes up to and including the first byte whose
/// high bit is clear, and decoding fails exactly when there is no such byte.
pub proof fn lemma_varint_length(s: Seq<u8>, acc: u32)
    ensures
        match (varint_decode(s, acc), first_terminator(s)) {
            (Some((_, n)), Some(i)) => n == i + 1,
            (None, None) => true,
            _ => false,
        },
    decreases s.len(),
{
    if s.len() > 0 && s[0] & 0x80u8 != 0 {
        let v: u32 = ((acc << 7u32) | ((s[0] & 0x7fu8) as u32)) as u32;
        lemma_varint_length(s.drop_first(), v);
    }
}

impl<'a> Reader<'a> {
    /// The bytes not read yet.
    pub closed spec fn rest(&self) -> Seq<u8> {
        self.buf@.subrange(self.pos as int, self.buf@.len() as int)
    }

    #[verifier::type_invariant]
    spec fn wf(&self) -> bool {
        self.pos <= self.buf@.len()
    }

    pub fn new(buf: &'a [u8]) -> (r: Reader<'a>)
        ensures
            r.rest() == buf@,
    {
        Reader { buf, pos: 0 }
    }

    pub fn remaining(&self) -> (r: usize)
        ensures
            r == self.rest().len(),
    {
        proof {
            use_type_invariant(&*self);
        }
        self.buf.len() - self.pos
    }

    pub fn take_first(&mut self) -> (r: Option<u8>)
        ensures
            old(self).rest().len() == 0 ==> r is None && final(self).rest() == old(self).rest(),
            old(self).rest().len() > 0 ==> r == Some(old(self).rest()[0]) && final(self).rest()
                == old(self).rest().drop_first(),
    {
        proof {
            use_type_invariant(&*self);
        }
        if self.pos < self.buf.len() {
            let b = self.buf[self.pos];
            self.pos = self.pos + 1;
            proof {
                assert(self.rest() =~= old(self).rest().drop_first());
            }
            Some(b)
        } else {
            None
        }
    }

    /// Takes `N` bytes, or nothing when fewer remain.
    pub fn take_n<const N: usize>(&mut self) -> (r: Option<[u8; N]>)
        ensures
            old(self).rest().len() < N ==> r is None && final(self).rest() == old(self).rest(),
            old(self).rest().len() >= N ==> r is Some && r->0@ == old(self).rest().take(N as int)
                && final(self).rest() == old(self).rest().skip(N as int),
    {
        proof {
            use_type_invariant(&*self);
        }
        if self.buf.len() - self.pos >= N {
            let mut out: [u8; N] = [0u8; N];
            let start = self.pos;
            let n = self.buf.len();
            let mut i: usize = 0;
            while i < N
                invariant
                    n == self.buf@.len(),
                    self.pos == start,
                    start + N <= self.buf@.len(),
                    0 <= i <= N,
                    out@.len() == N,
                    forall|k: int| 0 <= k < i ==> out@[k] == self.buf@[start + k],
                decreases N - i,
            {
                out[i] = self.buf[start + i];
                i = i + 1;
            }
            self.pos = start + N;
            proof {
                assert(out@ =~= old(self).rest().take(N as int));
                assert(self.rest() =~= old(self).rest().skip(N as int));
            }
            Some(out)
        } else {
            None
        }
    }

    /// Takes a length byte, then that many bytes. When fewer bytes follow the length byte,
    /// gives `None` with the length byte consumed.
    pub fn take_len(&mut self) -> (r: Option<&'a [u8]>)
        ensures
            old(self).rest().len() == 0 ==> r is None && final(self).rest() == old(self).rest(),
            old(self).rest().len() > 0 && old(self).rest()[0] as int > old(self).rest().len() - 1
                ==> r is None && final(self).rest() == old(self).rest().drop_first(),
            old(self).rest().len() > 0 && old(self).rest()[0] as int <= old(self).rest().len() - 1
                ==> {
                let n = old(self).rest()[0] as int;
                &&& r is Some
                &&& r->0@ == old(self).rest().subrange(1, 1 + n)
                &&& final(self).rest() == old(self).rest().skip(1 + n)
            },
    {
        proof {
            use_type_invariant(&*self);
        }
        let len = match self.take_first() {
            Some(b) => b as usize,
            None => return None,
        };
        proof {
            use_type_invariant(&*self);
        }
        let ghost r0 = self.rest();
        assert(r0 == old(self).rest().drop_first());
        assert(len == old(self).rest()[0]);
        if self.buf.len() - self.pos >= len {
            let start = self.pos;
            let r = vstd::slice::slice_subrange(self.buf, start, start + len);
            self.pos = start + len;
            proof {
                assert(r@ =~= r0.subrange(0, len as int));
                assert(r0.subrange(0, len as int) =~= old(self).rest().subrange(1, 1 + len));
                assert(self.rest() =~= r0.skip(len as int));
                assert(r0.skip(len as int) =~= old(self).rest().skip(1 + len));
            }
            Some(r)
        } else {
            None
        }
    }

    /// Takes two bytes as a little-endian `u16`.
    pub fn take_u16(&mut self) -> (r: Option<u16>)
        ensures
            old(self).rest().len() < 2 ==> r is None && final(self).rest() == old(self).rest().skip(
                old(self).rest().len() as int,
            ),
            old(self).rest().len() >= 2 ==> r == Some(
                (old(self).rest()[0] as int + 256 * old(self).rest()[1] as int) as u16,
            ) && final(self).rest() == old(self).rest().skip(2),
    {
        let lo = match self.take_first() {
            Some(b) => b,
            None => {
                proof {
                    assert(old(self).rest().skip(0) =~= old(self).rest());
                }
                return None;
            },
        };
        let hi = match self.take_first() {
            Some(b) => b,
            None => {
                proof {
                    assert(old(self).rest().skip(1) =~= old(self).rest().drop_first());
                }
                return None;
            },
        };
        proof {
            assert(self.rest() =~= old(self).rest().skip(2));
        }
        let v: u16 = lo as u16 | ((hi as u16) << 8u16);
        assert(v == (lo as int + 256 * hi as int) as u16) by (bit_vector)
            requires
                v == lo as u16 | ((hi as u16) << 8u16),
        ;
        Some(v)
    }

    /// Takes a varint (see [`varint_decode`]). When no terminating byte is found, every
    /// remaining byte is consumed and `None` comes back.
    pub fn take_varint(&mut self) -> (r: Option<u32>)
        ensures
            match varint_decode(old(self).rest(), 0) {
                Some((v, n)) => r == Some(v) && final(self).rest() == old(self).rest().skip(n as int),
                None => r is None && final(self).rest().len() == 0,
            },
    {
        let mut val: u32 = 0;
        loop
            invariant
                varint_decode(old(self).rest(), 0) == match varint_decode(self.rest(), val) {
                    Some((v, n)) => Some(
                        (v, (n + (old(self).rest().len() - self.rest().len())) as nat),
                    ),
                    None => None,
                },
                old(self).rest().len() >= self.rest().len(),
                self.rest() == old(self).rest().skip(old(self).rest().len() - self.rest().len()),
            decreases self.rest().len(),
        {
            let ghost before = self.rest();
            let ghost consumed = old(self).rest().len() - before.len();
            let b = match self.take_first() {
                Some(b) => b,
                None => return None,
            };
            let ghost acc = val;
            val = (val << 7u32) | ((b & 0x7fu8) as u32);
            if b & 0x80u8 == 0 {
                proof {
                    assert(self.rest() =~= old(self).rest().skip(consumed + 1));
                }
                return Some(val);
            }
            proof {
                assert(self.rest() =~= old(self).rest().skip(consumed + 1));
            }
        }
    }
}

/// Takes the first byte of `buf` and advances it past that byte.
pub fn take_first<'a>(buf: &mut &'a [u8]) -> (r: Option<u8>)
    ensures
        old(buf)@.len() == 0 ==> r is None && final(buf)@ == old(buf)@,
        old(buf)@.len() > 0 ==> r == Some(old(buf)@[0]) && final(buf)@ == old(buf)@.drop_first(),
{
    if buf.len() == 0 {
        return None;
    }
    let first = buf[0];
    let s: &'a [u8] = *buf;
    *buf = vstd::slice::slice_subrange(s, 1, s.len());
    Some(first)
}

/// Takes a length byte, then that many bytes, advancing `buf` past both. When fewer bytes
/// follow the length byte, gives `None` with only the length byte consumed.
pub fn take_len<'a>(buf: &mut &'a [u8]) -> (r: Option<&'a [u8]>)
    ensures
        old(buf)@.len() == 0 ==> r is None && final(buf)@ == old(buf)@,
        old(buf)@.len() > 0 && old(buf)@[0] as int > old(buf)@.len() - 1 ==> r is None
            && final(buf)@ == old(buf)@.drop_first(),
        old(buf)@.len() > 0 && old(buf)@[0] as int <= old(buf)@.len() - 1 ==> {
            let n = old(buf)@[0] as int;
            &&& r is Some
            &&& r->0@ == old(buf)@.subrange(1, 1 + n)
            &&& final(buf)@ == old(buf)@.skip(1 + n)
        },
{
    let len = match take_first(buf) {
        Some(b) => b as usize,
        None => return None,
    };
    if len > buf.len() {
        return None;
    }
    let s: &'a [u8] = *buf;
    let head = vstd::slice::slice_subrange(s, 0, len);
    *buf = vstd::slice::slice_subrange(s, len, s.len());
    proof {
        assert(head@ =~= old(buf)@.subrange(1, 1 + len));
        assert(final(buf)@ =~= old(buf)@.skip(1 + len));
    }
    Some(head)
}

} // verus!
