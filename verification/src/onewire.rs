use vstd::prelude::*;

verus! {

/// `2^k` for a bit index of a byte.
pub open spec fn pow2_8(k: int) -> int {
    if k <= 0 {
        1
    } else if k == 1 {
        2
    } else if k == 2 {
        4
    } else if k == 3 {
        8
    } else if k == 4 {
        16
    } else if k == 5 {
        32
    } else if k == 6 {
        64
    } else if k == 7 {
        128
    } else {
        256
    }
}

/// Bit `k` of `b`.
pub open spec fn bit_of(b: u8, k: int) -> bool {
    (b as int / pow2_8(k)) % 2 == 1
}

/// The number whose bit `k` is `bits[k]`.
pub open spec fn byte_from_bits(bits: Seq<bool>) -> int
    decreases bits.len(),
{
    if bits.len() == 0 {
        0
    } else {
        byte_from_bits(bits.drop_last()) + (if bits.last() { pow2_8(bits.len() - 1) } else { 0int })
    }
}

/// The bits a 1-Wire byte write puts on the bus, in order: least significant first.
pub fn write_byte_bits(byte: u8) -> (r: [bool; 8])
    ensures
        forall|k: int| 0 <= k < 8 ==> r@[k] == bit_of(byte, k),
{
    let mut bits: [bool; 8] = [false; 8];
    let mut b = byte;
    let mut k: usize = 0;
    while k < 8
        invariant
            0 <= k <= 8,
            bits@.len() == 8,
            b as int == byte as int / pow2_8(k as int),
            forall|j: int| 0 <= j < k ==> bits@[j] == bit_of(byte, j),
        decreases 8 - k,
    {
        let low = b & 1u8;
        assert((low != 0) == (b % 2 == 1) && b >> 1u8 == b / 2) by (bit_vector)
            requires
                low == b & 1u8,
        ;
        bits[k] = low != 0;
        proof {
            vstd::arithmetic::div_mod::lemma_div_denominator(byte as int, pow2_8(k as int), 2);
            assert(pow2_8(k as int) * 2 == pow2_8(k as int + 1));
        }
        b = b >> 1u8;
        k = k + 1;
    }
    bits
}

/// Assembles the byte a 1-Wire byte read receives, given its bits in bus order: each new
/// bit enters at the top as the earlier ones shift down, so the first bit lands in bit 0.
pub fn read_byte_from_bits(bits: [bool; 8]) -> (r: u8)
    ensures
        r as int == byte_from_bits(bits@),
{
    let mut byte: u8 = 0;
    let mut k: usize = 0;
    while k < 8
        invariant
            0 <= k <= 8,
            bits@.len() == 8,
            byte as int == byte_from_bits(bits@.take(k as int)) * pow2_8(8 - k as int),
            byte_from_bits(bits@.take(k as int)) < pow2_8(k as int),
        decreases 8 - k,
    {
        let ghost prev = byte_from_bits(bits@.take(k as int));
        let top: u8 = if bits[k] { 0x80 } else { 0 };
        let half = byte >> 1u8;
        assert(half == byte / 2) by (bit_vector)
            requires
                half == byte >> 1u8,
        ;
        proof {
            assert(bits@.take(k + 1).drop_last() =~= bits@.take(k as int));
            assert(bits@.take(k + 1).last() == bits@[k as int]);
            let p = pow2_8(8 - k as int);
            assert(p == 2 * pow2_8(7 - k as int));
            assert(prev * p == (prev * pow2_8(7 - k as int)) * 2) by (nonlinear_arith)
                requires
                    p == 2 * pow2_8(7 - k as int),
            ;
            assert(prev * pow2_8(7 - k as int) < 128) by (nonlinear_arith)
                requires
                    prev < pow2_8(k as int),
                    pow2_8(k as int) * pow2_8(7 - k as int) == 128,
                    prev >= 0,
                    pow2_8(7 - k as int) > 0,
            ;
        }
        byte = half | top;
        assert(byte == half + top) by (bit_vector)
            requires
                half < 128,
                top == 0 || top == 0x80,
                byte == half | top,
        ;
        proof {
            let q = pow2_8(7 - k as int);
            assert(pow2_8(k as int) * q == 128);
            assert((if bits@[k as int] { pow2_8(k as int) } else { 0int }) * q == top as int) by (nonlinear_arith)
                requires
                    pow2_8(k as int) * q == 128,
                    top == (if bits@[k as int] { 0x80u8 } else { 0u8 }),
            ;
            assert(byte_from_bits(bits@.take(k + 1)) * q == prev * q + (if bits@[k as int] { pow2_8(k as int) } else { 0int }) * q) by (nonlinear_arith)
                requires
                    byte_from_bits(bits@.take(k + 1)) == prev + (if bits@[k as int] { pow2_8(k as int) } else { 0int }),
            ;
        }
        k = k + 1;
    }
    assert(bits@.take(8) =~= bits@);
    assert(byte as int == byte_from_bits(bits@.take(8)) * pow2_8(0));
    byte
}

/// The raw DS18B20 temperature: the scratchpad's high byte over its low byte.
pub fn ds18b20_raw(tl: u8, th: u8) -> (r: u16)
    ensures
        r == th as int * 256 + tl as int,
{
    let v: u16 = ((th as u16) << 8u16) | (tl as u16);
    assert(v == th as int * 256 + tl as int) by (bit_vector)
        requires
            v == ((th as u16) << 8u16) | (tl as u16),
    ;
    v
}

/// How long a write slot holds the bus low, then how long it releases it, in
/// microseconds: a short pulse writes 1, a long one writes 0.
pub fn write_slot_timing(bit: bool) -> (r: (u32, u32))
    ensures
        bit ==> r == (1u32, 64u32),
        !bit ==> r == (60u32, 5u32),
{
    if bit {
        (1, 64)
    } else {
        (60, 5)
    }
}

/// The ROM command that addresses every device on the bus.
pub const SKIP_ROM: u8 = 0xCC;

/// The DS18B20 command that starts a temperature conversion.
pub const CONVERT_T: u8 = 0x44;

/// The DS18B20 command that reads its scratchpad.
pub const READ_SCRATCHPAD: u8 = 0xBE;

/// The pause between two polls of a running conversion, in microseconds.
pub const POLL_DELAY_US: u32 = 10_000;

/// One bus operation of a 1-Wire transaction, or its end with the value read.
#[derive(Clone, Copy, PartialEq, Eq, Debug, Structural)]
pub enum OnewireStep {
    Reset,
    WriteByte(u8),
    ReadByte,
    Delay(u32),
    Done(u16),
}

/// Where a DS18B20 temperature read stands: the step last asked for.
#[derive(Clone, Copy, PartialEq, Eq, Debug, Structural)]
pub enum Ds18b20Phase {
    ResetForConvert,
    SkipRomForConvert,
    ConvertT,
    Polling,
    PollDelay,
    ResetForRead,
    SkipRomForRead,
    ReadScratchpad,
    ReadLow,
    /// The low byte has been read; the high byte is being read.
    ReadHigh(u8),
    Finished,
}

/// The next step of a DS18B20 temperature read after the step of `phase` is done; `input`
/// is the byte read when that step was a read. The read resets the bus, skips the ROM and
/// starts a conversion, then polls (pausing between polls) until a byte other than zero
/// comes back; it then resets again, skips the ROM, asks for the scratchpad and reads its
/// first two bytes, which give the raw temperature.
pub open spec fn ds18b20_step(phase: Ds18b20Phase, input: u8) -> (OnewireStep, Ds18b20Phase) {
    match phase {
        Ds18b20Phase::ResetForConvert => (OnewireStep::WriteByte(SKIP_ROM), Ds18b20Phase::SkipRomForConvert),
        Ds18b20Phase::SkipRomForConvert => (OnewireStep::WriteByte(CONVERT_T), Ds18b20Phase::ConvertT),
        Ds18b20Phase::ConvertT => (OnewireStep::ReadByte, Ds18b20Phase::Polling),
        Ds18b20Phase::Polling => if input == 0 {
            (OnewireStep::Delay(POLL_DELAY_US), Ds18b20Phase::PollDelay)
        } else {
            (OnewireStep::Reset, Ds18b20Phase::ResetForRead)
        },
        Ds18b20Phase::PollDelay => (OnewireStep::ReadByte, Ds18b20Phase::Polling),
        Ds18b20Phase::ResetForRead => (OnewireStep::WriteByte(SKIP_ROM), Ds18b20Phase::SkipRomForRead),
        Ds18b20Phase::SkipRomForRead => (OnewireStep::WriteByte(READ_SCRATCHPAD), Ds18b20Phase::ReadScratchpad),
        Ds18b20Phase::ReadScratchpad => (OnewireStep::ReadByte, Ds18b20Phase::ReadLow),
        Ds18b20Phase::ReadLow => (OnewireStep::ReadByte, Ds18b20Phase::ReadHigh(input)),
        Ds18b20Phase::ReadHigh(tl) => (
            OnewireStep::Done((input as int * 256 + tl as int) as u16),
            Ds18b20Phase::Finished,
        ),
        Ds18b20Phase::Finished => (OnewireStep::Done(0), Ds18b20Phase::Finished),
    }
}

/// A DS18B20 temperature read in progress (see [`ds18b20_step`]).
pub struct Ds18b20Read {
    phase: Ds18b20Phase,
}

impl Ds18b20Read {
    pub closed spec fn phase(&self) -> Ds18b20Phase {
        self.phase
    }

    /// Starts a read: its first step is a bus reset.
    pub fn start() -> (r: (Ds18b20Read, OnewireStep))
        ensures
            r.0.phase() == Ds18b20Phase::ResetForConvert,
            r.1 == OnewireStep::Reset,
    {
        (Ds18b20Read { phase: Ds18b20Phase::ResetForConvert }, OnewireStep::Reset)
    }

    /// The step after the current one is done; `input` is the byte it read, if it was a
    /// read (ignored otherwise).
    pub fn resume(&mut self, input: u8) -> (r: OnewireStep)
        requires
            old(self).phase() != Ds18b20Phase::Finished,
        ensures
            (r, final(self).phase()) == ds18b20_step(old(self).phase(), input),
    {
        let (step, next) = match self.phase {
            Ds18b20Phase::ResetForConvert => (OnewireStep::WriteByte(SKIP_ROM), Ds18b20Phase::SkipRomForConvert),
            Ds18b20Phase::SkipRomForConvert => (OnewireStep::WriteByte(CONVERT_T), Ds18b20Phase::ConvertT),
            Ds18b20Phase::ConvertT => (OnewireStep::ReadByte, Ds18b20Phase::Polling),
            Ds18b20Phase::Polling => if input == 0 {
                (OnewireStep::Delay(POLL_DELAY_US), Ds18b20Phase::PollDelay)
            } else {
                (OnewireStep::Reset, Ds18b20Phase::ResetForRead)
            },
            Ds18b20Phase::PollDelay => (OnewireStep::ReadByte, Ds18b20Phase::Polling),
            Ds18b20Phase::ResetForRead => (OnewireStep::WriteByte(SKIP_ROM), Ds18b20Phase::SkipRomForRead),
            Ds18b20Phase::SkipRomForRead => (OnewireStep::WriteByte(READ_SCRATCHPAD), Ds18b20Phase::ReadScratchpad),
            Ds18b20Phase::ReadScratchpad => (OnewireStep::ReadByte, Ds18b20Phase::ReadLow),
            Ds18b20Phase::ReadLow => (OnewireStep::ReadByte, Ds18b20Phase::ReadHigh(input)),
            Ds18b20Phase::ReadHigh(tl) => (OnewireStep::Done(ds18b20_raw(tl, input)), Ds18b20Phase::Finished),
            Ds18b20Phase::Finished => (OnewireStep::Done(0), Ds18b20Phase::Finished),
        };
        self.phase = next;
        step
    }
}

/// Law: a DS18B20 read keeps polling, with a pause between polls, while the conversion
/// reads back zero; and once the scratchpad command is sent, the next two bytes read, low
/// then high, are the temperature it ends with.
pub proof fn law_ds18b20_read(any: u8, done: u8, tl: u8, th: u8)
    requires
        done != 0,
    ensures
        ds18b20_step(Ds18b20Phase::Polling, 0) == (OnewireStep::Delay(POLL_DELAY_US), Ds18b20Phase::PollDelay),
        ds18b20_step(Ds18b20Phase::PollDelay, any) == (OnewireStep::ReadByte, Ds18b20Phase::Polling),
        ds18b20_step(Ds18b20Phase::Polling, done).0 == OnewireStep::Reset,
        ({
            let p1 = ds18b20_step(Ds18b20Phase::ReadScratchpad, any).1;
            let p2 = ds18b20_step(p1, tl).1;
            ds18b20_step(p2, th).0 == OnewireStep::Done((th as int * 256 + tl as int) as u16)
        }),
{
}

/// Law: reading back the bits of a byte write, in bus order, gives the byte written.
pub proof fn law_onewire_bit_order(b: u8)
    ensures
        byte_from_bits(Seq::new(8, |k: int| bit_of(b, k))) == b,
{
    lemma_bits_prefix(b, 8);
    assert(Seq::new(8, |k: int| bit_of(b, k)) =~= Seq::new(8nat, |k: int| bit_of(b, k)));
}

proof fn lemma_bits_prefix(b: u8, n: nat)
    requires
        n <= 8,
    ensures
        byte_from_bits(Seq::new(n, |k: int| bit_of(b, k))) == b as int % pow2_8(n as int),
    decreases n,
{
    if n == 0 {
    } else {
        let m = (n - 1) as nat;
        lemma_bits_prefix(b, m);
        let s = Seq::new(n, |k: int| bit_of(b, k));
        assert(s.drop_last() =~= Seq::new(m, |k: int| bit_of(b, k)));
        vstd::arithmetic::div_mod::lemma_mod_breakdown(b as int, pow2_8(m as int), 2);
        assert(pow2_8(m as int) * 2 == pow2_8(n as int));
        let q = (b as int / pow2_8(m as int)) % 2;
        assert(q == 0 || q == 1);
    }
}

} // verus!
