//! A bounded, byte-addressable, little-endian memory bus.
use vstd::prelude::*;

use crate::fault::Fault;

verus! {

/// Address of the first byte of memory.
pub const MEM_BASE: u32 = 0x8000_0000;

/// Number of bytes of memory.
pub const MEM_SIZE: u32 = 1024;

/// `256` to the power `n`: one more than the largest value that `n` bytes hold.
pub open spec fn byte_radix(n: nat) -> nat
    decreases n,
{
    if n == 0 {
        1
    } else {
        256 * byte_radix((n - 1) as nat)
    }
}

/// The number whose little-endian encoding is `bytes`.
pub open spec fn le_value(bytes: Seq<u8>) -> nat
    decreases bytes.len(),
{
    if bytes.len() == 0 {
        0
    } else {
        bytes[0] as nat + 256 * le_value(bytes.drop_first())
    }
}

/// The `n` low bytes of `v`, least significant first.
pub open spec fn le_bytes(v: nat, n: nat) -> Seq<u8>
    decreases n,
{
    if n == 0 {
        Seq::empty()
    } else {
        seq![(v % 256) as u8] + le_bytes(v / 256, (n - 1) as nat)
    }
}

/// Whether `width` is an access width of the bus, in bits.
pub open spec fn valid_width(width: u32) -> bool {
    width == 8 || width == 16 || width == 32 || width == 64
}

/// Whether the `n` bytes from `addr` on all lie on the bus.
pub open spec fn in_bounds(addr: u32, n: nat) -> bool {
    MEM_BASE <= addr && addr - MEM_BASE + n <= MEM_SIZE
}

/// The unsigned value of the `n` bytes at `addr` in `mem`, if they lie on the bus.
pub open spec fn read_spec(mem: Seq<u8>, addr: u32, n: nat) -> Option<nat> {
    if in_bounds(addr, n) {
        let off = addr - MEM_BASE;
        Some(le_value(mem.subrange(off, off + n)))
    } else {
        None
    }
}

/// `mem` with the `n` low bytes of `v` written at `addr`, if they lie on the bus.
pub open spec fn write_spec(mem: Seq<u8>, addr: u32, n: nat, v: nat) -> Option<Seq<u8>> {
    if in_bounds(addr, n) {
        let off = addr - MEM_BASE;
        Some(mem.subrange(0, off) + le_bytes(v, n) + mem.subrange(off + n, mem.len() as int))
    } else {
        None
    }
}

pub proof fn lemma_le_value_bound(bytes: Seq<u8>)
    ensures
        le_value(bytes) < byte_radix(bytes.len()),
    decreases bytes.len(),
{
    if bytes.len() > 0 {
        lemma_le_value_bound(bytes.drop_first());
    }
}

pub proof fn lemma_le_bytes_len(v: nat, n: nat)
    ensures
        le_bytes(v, n).len() == n,
    decreases n,
{
    if n > 0 {
        lemma_le_bytes_len(v / 256, (n - 1) as nat);
    }
}

/// Byte `i` of the encoding of `v` is `v / 256^i` reduced to a byte.
pub proof fn lemma_le_bytes_index(v: nat, n: nat, i: nat)
    requires
        i < n,
    ensures
        le_bytes(v, n)[i as int] == ((v / byte_radix(i)) % 256) as u8,
    decreases n,
{
    lemma_le_bytes_len(v, n);
    lemma_le_bytes_len(v / 256, (n - 1) as nat);
    let rest = le_bytes(v / 256, (n - 1) as nat);
    assert(le_bytes(v, n) == seq![(v % 256) as u8] + rest);
    if i == 0 {
        assert(byte_radix(0) == 1);
    } else {
        lemma_le_bytes_index(v / 256, (n - 1) as nat, (i - 1) as nat);
        assert(le_bytes(v, n)[i as int] == rest[i - 1]);
        assert(byte_radix(i) == 256 * byte_radix((i - 1) as nat));
        lemma_radix_positive((i - 1) as nat);
        vstd::arithmetic::div_mod::lemma_div_denominator(v as int, 256, byte_radix((i - 1) as nat) as int);
    }
}

/// Decoding the `n` low bytes of `v` gives `v` reduced modulo `256^n`.
pub proof fn lemma_le_round_trip(v: nat, n: nat)
    ensures
        le_value(le_bytes(v, n)) == v % byte_radix(n),
    decreases n,
{
    if n > 0 {
        lemma_le_round_trip(v / 256, (n - 1) as nat);
        lemma_le_bytes_len(v, n);
        assert(le_bytes(v, n).drop_first() =~= le_bytes(v / 256, (n - 1) as nat));
        lemma_radix_positive((n - 1) as nat);
        vstd::arithmetic::div_mod::lemma_mod_breakdown(v as int, 256, byte_radix((n - 1) as nat) as int);
    }
}

pub proof fn lemma_radix_positive(n: nat)
    ensures
        byte_radix(n) > 0,
    decreases n,
{
    if n > 0 {
        lemma_radix_positive((n - 1) as nat);
    }
}

pub proof fn lemma_radix_monotone(a: nat, b: nat)
    requires
        a <= b,
    ensures
        byte_radix(a) <= byte_radix(b),
    decreases b,
{
    if a < b {
        lemma_radix_monotone(a, (b - 1) as nat);
        lemma_radix_positive((b - 1) as nat);
    }
}

/// The radix of the four access widths.
pub proof fn lemma_radix_values()
    ensures
        byte_radix(1) == 0x100,
        byte_radix(2) == 0x1_0000,
        byte_radix(4) == 0x1_0000_0000,
        byte_radix(8) == 0x1_0000_0000_0000_0000,
{
    reveal_with_fuel(byte_radix, 9);
}

/// Storing a value of a given width on the bus and loading the same width at
/// the same address gives back the stored bits: the value reduced to that
/// width. A 64-bit store and load give back the whole value.
pub proof fn lemma_store_load_round_trip(mem: Seq<u8>, addr: u32, width: u32, value: u64)
    requires
        mem.len() == MEM_SIZE,
        valid_width(width),
        in_bounds(addr, width as nat / 8),
    ensures
        write_spec(mem, addr, width as nat / 8, value as nat) is Some,
        read_spec(write_spec(mem, addr, width as nat / 8, value as nat)->Some_0, addr, width as nat / 8)
            == Some(value as nat % byte_radix(width as nat / 8)),
        width == 64 ==> read_spec(write_spec(mem, addr, 8, value as nat)->Some_0, addr, 8)
            == Some(value as nat),
{
    let n = width as nat / 8;
    let off = addr - MEM_BASE;
    let bytes = le_bytes(value as nat, n);
    lemma_le_bytes_len(value as nat, n);
    let m = mem.subrange(0, off) + bytes + mem.subrange(off + n, mem.len() as int);
    assert(m.subrange(off, off + n) =~= bytes);
    lemma_le_round_trip(value as nat, n);
    lemma_radix_values();
    if width == 64 {
        assert(n == 8);
        vstd::arithmetic::div_mod::lemma_small_mod(value as nat, byte_radix(8));
    }
}

/// The byte array behind the bus, indexed from zero.
#[derive(Debug, Clone, Copy)]
pub struct MEMORY {
    mem: [u8; 1024],
}

impl View for MEMORY {
    type V = Seq<u8>;

    closed spec fn view(&self) -> Seq<u8> {
        self.mem@
    }
}

impl MEMORY {
    fn new() -> (m: MEMORY)
        ensures
            m@ == Seq::new(MEM_SIZE as nat, |i: int| 0u8),
    {
        let m = MEMORY { mem: [0u8; 1024] };
        assert(m@ =~= Seq::new(MEM_SIZE as nat, |i: int| 0u8));
        m
    }

    /// The little-endian value of the `n` bytes from index `start` on.
    fn load(&self, start: usize, n: usize) -> (r: u64)
        requires
            start + n <= MEM_SIZE,
            n <= 8,
        ensures
            r == le_value(self@.subrange(start as int, start + n)),
    {
        let mut v: u64 = 0;
        let mut i: usize = n;
        while i > 0
            invariant
                i <= n <= 8,
                start + n <= MEM_SIZE,
                self@.len() == MEM_SIZE,
                v == le_value(self@.subrange(start + i, start + n)),
            decreases i,
        {
            i = i - 1;
            proof {
                let s = self@.subrange(start + i, start + n);
                assert(s.drop_first() =~= self@.subrange(start + i + 1, start + n));
                lemma_le_value_bound(s.drop_first());
                lemma_radix_monotone((n - i - 1) as nat, 7);
                reveal_with_fuel(byte_radix, 8);
            }
            v = v * 256 + self.mem[start + i] as u64;
        }
        v
    }

    /// Writes the `n` low bytes of `value` from index `start` on, least significant first.
    fn store(&mut self, start: usize, n: usize, value: u64)
        requires
            start + n <= MEM_SIZE,
            n <= 8,
        ensures
            final(self)@ == old(self)@.subrange(0, start as int) + le_bytes(value as nat, n as nat)
                + old(self)@.subrange(start + n, MEM_SIZE as int),
    {
        let ghost bytes = le_bytes(value as nat, n as nat);
        proof {
            lemma_le_bytes_len(value as nat, n as nat);
        }
        let mut rest: u64 = value;
        let mut i: usize = 0;
        while i < n
            invariant
                i <= n <= 8,
                start + n <= MEM_SIZE,
                self@.len() == MEM_SIZE,
                old(self)@.len() == MEM_SIZE,
                bytes == le_bytes(value as nat, n as nat),
                bytes.len() == n,
                byte_radix(i as nat) > 0,
                rest == value as nat / byte_radix(i as nat),
                forall|j: int| 0 <= j < start || start + n <= j < MEM_SIZE ==> self@[j] == old(self)@[j],
                forall|j: int| start <= j < start + i ==> self@[j] == bytes[j - start],
            decreases n - i,
        {
            proof {
                lemma_le_bytes_index(value as nat, n as nat, i as nat);
                vstd::arithmetic::div_mod::lemma_div_denominator(value as int, byte_radix(i as nat) as int, 256);
                assert(byte_radix((i + 1) as nat) == byte_radix(i as nat) * 256);
            }
            self.mem[start + i] = (rest % 256) as u8;
            rest = rest / 256;
            i = i + 1;
        }
        assert(self@ =~= old(self)@.subrange(0, start as int) + bytes + old(self)@.subrange(start + n, MEM_SIZE as int));
    }
}

/// The memory bus: a fixed array of bytes seen at addresses `MEM_BASE ..
/// MEM_BASE + MEM_SIZE`, with bounds-checked little-endian loads and stores of
/// 8, 16, 32 or 64 bits. It checks no alignment.
#[derive(Debug, Clone, Copy)]
pub struct BUS {
    mem: MEMORY,
}

impl View for BUS {
    type V = Seq<u8>;

    closed spec fn view(&self) -> Seq<u8> {
        self.mem@
    }
}

impl BUS {
    /// A bus whose bytes are all zero.
    pub fn new() -> (b: BUS)
        ensures
            b@ == Seq::new(MEM_SIZE as nat, |i: int| 0u8),
    {
        BUS { mem: MEMORY::new() }
    }

    /// The bus always holds `MEM_SIZE` bytes.
    pub proof fn lemma_len(&self)
        ensures
            self@.len() == MEM_SIZE,
    {
    }

    /// Reads the `size`-bit little-endian value at `addr`.
    pub fn load(&self, addr: u32, size: u32) -> (r: Result<u64, Fault>)
        requires
            valid_width(size),
        ensures
            r == match read_spec(self@, addr, size as nat / 8) {
                Some(v) => Ok(v as u64),
                None => Err(Fault::Memory(addr)),
            },
    {
        let n: u32 = size / 8;
        if addr < MEM_BASE || addr - MEM_BASE > MEM_SIZE - n {
            return Err(Fault::Memory(addr));
        }
        let start = (addr - MEM_BASE) as usize;
        Ok(self.mem.load(start, n as usize))
    }

    /// Writes the `size` low bits of `value` at `addr`, least significant byte first.
    pub fn store(&mut self, addr: u32, size: u32, value: u64) -> (r: Result<(), Fault>)
        requires
            valid_width(size),
        ensures
            match write_spec(old(self)@, addr, size as nat / 8, value as nat) {
                Some(m) => r == Ok::<(), Fault>(()) && final(self)@ == m,
                None => r == Err::<(), Fault>(Fault::Memory(addr)) && final(self)@ == old(self)@,
            },
    {
        let n: u32 = size / 8;
        if addr < MEM_BASE || addr - MEM_BASE > MEM_SIZE - n {
            return Err(Fault::Memory(addr));
        }
        let start = (addr - MEM_BASE) as usize;
        self.mem.store(start, n as usize, value);
        Ok(())
    }

    /// Copies `data` to the start of the bus, leaving the bytes after it as
    /// they were. An image longer than the bus is refused, at the first
    /// address past the bus, and nothing is written.
    pub fn init_memory(&mut self, data: &[u8]) -> (r: Result<(), Fault>)
        ensures
            data@.len() <= MEM_SIZE ==> r == Ok::<(), Fault>(())
                && final(self)@ == data@ + old(self)@.subrange(data@.len() as int, MEM_SIZE as int),
            data@.len() > MEM_SIZE ==> r == Err::<(), Fault>(Fault::Memory((MEM_BASE + MEM_SIZE) as u32))
                && final(self)@ == old(self)@,
    {
        if data.len() > MEM_SIZE as usize {
            return Err(Fault::Memory(MEM_BASE + MEM_SIZE));
        }
        let mut i: usize = 0;
        while i < data.len()
            invariant
                i <= data@.len() <= MEM_SIZE,
                self@.len() == MEM_SIZE,
                old(self)@.len() == MEM_SIZE,
                forall|j: int| 0 <= j < i ==> self@[j] == data@[j],
                forall|j: int| i <= j < MEM_SIZE ==> self@[j] == old(self)@[j],
            decreases data@.len() - i,
        {
            self.mem.mem[i] = data[i];
            i = i + 1;
        }
        assert(self@ =~= data@ + old(self)@.subrange(data@.len() as int, MEM_SIZE as int));
        Ok(())
    }
}

} // verus!
