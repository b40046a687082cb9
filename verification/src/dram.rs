//! The byte store and the bus in front of it.
//!
//! Memory is modelled as a sequence of bytes; an access of `n` bytes at an
//! address reads or writes the `n` base-256 digits of a number, least
//! significant digit first.
use crate::fault::Fault;
use vstd::arithmetic::div_mod::{lemma_mod_breakdown, lemma_small_mod};
use vstd::arithmetic::power2::{lemma2_to64, pow2};
use vstd::prelude::*;

verus! {

/// Size of the byte store: 128 MiB.
pub const MAX_MEMORY: u64 = 1024 * 1024 * 128;

/// Address of the first byte of the store.
pub const DRAM_BASE: u64 = 0x8000_0000;

/// How many bytes an access of `width` bits covers; `None` for a width that
/// is not supported.
pub open spec fn width_bytes(width: u64) -> Option<nat> {
    if width == 8 {
        Some(1)
    } else if width == 16 {
        Some(2)
    } else if width == 32 {
        Some(4)
    } else if width == 64 {
        Some(8)
    } else {
        None
    }
}

/// Whether the `count` bytes from `addr` on all lie inside the store.
pub open spec fn in_store(addr: u64, count: nat) -> bool {
    DRAM_BASE <= addr && addr - DRAM_BASE + count <= MAX_MEMORY
}

/// The number whose little-endian digits are the `count` bytes of `mem` from
/// index `at` on.
pub open spec fn le_value(mem: Seq<u8>, at: int, count: nat) -> nat
    decreases count,
{
    if count == 0 {
        0
    } else {
        mem[at] as nat + 256 * le_value(mem, at + 1, (count - 1) as nat)
    }
}

/// `mem` with the `count` bytes from index `at` on replaced by the `count`
/// lowest little-endian digits of `value`.
pub open spec fn le_store(mem: Seq<u8>, at: int, count: nat, value: nat) -> Seq<u8>
    decreases count,
{
    if count == 0 {
        mem
    } else {
        le_store(mem.update(at, (value % 256) as u8), at + 1, (count - 1) as nat, value / 256)
    }
}

/// What a load of `width` bits at `addr` gives on the store contents `mem`.
pub open spec fn mem_load(mem: Seq<u8>, addr: u64, width: u64) -> Result<u64, Fault> {
    match width_bytes(width) {
        None => Err(Fault::UnsupportedWidth),
        Some(count) => if in_store(addr, count) {
            Ok(le_value(mem, addr - DRAM_BASE, count) as u64)
        } else {
            Err(Fault::AddressRange)
        },
    }
}

/// The store contents after a store of the low `width` bits of `value` at
/// `addr` into `mem`.
pub open spec fn mem_store(mem: Seq<u8>, addr: u64, width: u64, value: u64) -> Result<
    Seq<u8>,
    Fault,
> {
    match width_bytes(width) {
        None => Err(Fault::UnsupportedWidth),
        Some(count) => if in_store(addr, count) {
            Ok(le_store(mem, addr - DRAM_BASE, count, value as nat))
        } else {
            Err(Fault::AddressRange)
        },
    }
}

/// What a load through the bus gives: addresses below the base are refused
/// before the width is looked at.
pub open spec fn bus_load(mem: Seq<u8>, addr: u64, width: u64) -> Result<u64, Fault> {
    if addr < DRAM_BASE {
        Err(Fault::AddressRange)
    } else {
        mem_load(mem, addr, width)
    }
}

/// The store contents after a store through the bus, with the same rule as
/// [`bus_load`].
pub open spec fn bus_store(mem: Seq<u8>, addr: u64, width: u64, value: u64) -> Result<
    Seq<u8>,
    Fault,
> {
    if addr < DRAM_BASE {
        Err(Fault::AddressRange)
    } else {
        mem_store(mem, addr, width, value)
    }
}

/// The contents of a fresh store that was loaded with `code`: the image at
/// offset 0, zero bytes behind it.
pub open spec fn image(code: Seq<u8>) -> Seq<u8> {
    Seq::new(
        MAX_MEMORY as nat,
        |i: int|
            if i < code.len() {
                code[i]
            } else {
                0u8
            },
    )
}

/// The raw byte store. It always holds exactly [`MAX_MEMORY`] bytes.
#[derive(Debug)]
pub struct Memory {
    dram: Vec<u8>,
}

impl View for Memory {
    type V = Seq<u8>;

    closed spec fn view(&self) -> Seq<u8> {
        self.dram@
    }
}

impl Clone for Memory {
    fn clone(&self) -> (copy: Self)
        ensures
            copy@ == self@,
            copy@.len() == MAX_MEMORY,
    {
        proof {
            use_type_invariant(self);
        }
        let dram = self.dram.clone();
        assert(dram@ =~= self.dram@);
        Memory { dram }
    }
}

impl Memory {
    /// The store's length never changes.
    #[verifier::type_invariant]
    spec fn wf(&self) -> bool {
        self.dram@.len() == MAX_MEMORY
    }

    /// A store that holds `code` from offset 0 on and zero bytes elsewhere.
    pub fn new(code: Vec<u8>) -> (memory: Self)
        requires
            code@.len() <= MAX_MEMORY,
        ensures
            memory@ == image(code@),
            memory@.len() == MAX_MEMORY,
    {
        let mut dram: Vec<u8> = vec![0u8; MAX_MEMORY as usize];
        let mut i: usize = 0;
        while i < code.len()
            invariant
                i <= code@.len() <= MAX_MEMORY,
                dram@.len() == MAX_MEMORY,
                forall|j: int| 0 <= j < i ==> dram@[j] == code@[j],
                forall|j: int| i <= j < MAX_MEMORY ==> dram@[j] == 0u8,
            decreases code@.len() - i,
        {
            dram[i] = code[i];
            i = i + 1;
        }
        assert(dram@ =~= image(code@));
        Memory { dram }
    }

    fn load8(&self, addr: u64) -> (value: u64)
        requires
            in_store(addr, 1),
        ensures
            value == le_value(self@, addr - DRAM_BASE, 1),
    {
        proof {
            use_type_invariant(self);
            reveal_with_fuel(le_value, 2);
        }
        let index = (addr - DRAM_BASE) as usize;
        self.dram[index] as u64
    }

    fn load16(&self, addr: u64) -> (value: u64)
        requires
            in_store(addr, 2),
        ensures
            value == le_value(self@, addr - DRAM_BASE, 2),
    {
        proof {
            use_type_invariant(self);
            reveal_with_fuel(le_value, 3);
        }
        let index = (addr - DRAM_BASE) as usize;
        let b0 = self.dram[index];
        let b1 = self.dram[index + 1];
        assert((b0 as u64) | ((b1 as u64) << 8) == b0 + 256 * b1) by (bit_vector);
        (b0 as u64) | ((b1 as u64) << 8)
    }

    fn load32(&self, addr: u64) -> (value: u64)
        requires
            in_store(addr, 4),
        ensures
            value == le_value(self@, addr - DRAM_BASE, 4),
    {
        proof {
            use_type_invariant(self);
            reveal_with_fuel(le_value, 5);
        }
        let index = (addr - DRAM_BASE) as usize;
        let b0 = self.dram[index];
        let b1 = self.dram[index + 1];
        let b2 = self.dram[index + 2];
        let b3 = self.dram[index + 3];
        assert((b0 as u64) | ((b1 as u64) << 8) | ((b2 as u64) << 16) | ((b3 as u64) << 24) == b0
            + 256 * (b1 + 256 * (b2 + 256 * b3))) by (bit_vector);
        (b0 as u64) | ((b1 as u64) << 8) | ((b2 as u64) << 16) | ((b3 as u64) << 24)
    }

    fn load64(&self, addr: u64) -> (value: u64)
        requires
            in_store(addr, 8),
        ensures
            value == le_value(self@, addr - DRAM_BASE, 8),
    {
        proof {
            use_type_invariant(self);
            reveal_with_fuel(le_value, 9);
        }
        let index = (addr - DRAM_BASE) as usize;
        let b0 = self.dram[index];
        let b1 = self.dram[index + 1];
        let b2 = self.dram[index + 2];
        let b3 = self.dram[index + 3];
        let b4 = self.dram[index + 4];
        let b5 = self.dram[index + 5];
        let b6 = self.dram[index + 6];
        let b7 = self.dram[index + 7];
        assert((b0 as u64) | ((b1 as u64) << 8) | ((b2 as u64) << 16) | ((b3 as u64) << 24) | ((
        b4 as u64) << 32) | ((b5 as u64) << 40) | ((b6 as u64) << 48) | ((b7 as u64) << 56) == b0
            + 256 * (b1 + 256 * (b2 + 256 * (b3 + 256 * (b4 + 256 * (b5 + 256 * (b6 + 256
            * b7))))))) by (bit_vector);
        (b0 as u64) | ((b1 as u64) << 8) | ((b2 as u64) << 16) | ((b3 as u64) << 24) | ((b4 as u64)
            << 32) | ((b5 as u64) << 40) | ((b6 as u64) << 48) | ((b7 as u64) << 56)
    }

    fn store8(&mut self, addr: u64, value: u64)
        requires
            in_store(addr, 1),
        ensures
            final(self)@ == le_store(old(self)@, addr - DRAM_BASE, 1, value as nat),
        no_unwind
    {
        proof {
            use_type_invariant(&*self);
            reveal_with_fuel(le_store, 2);
        }
        let index = (addr - DRAM_BASE) as usize;
        assert(value & 0xff == value % 256) by (bit_vector);
        self.dram[index] = (value & 0xff) as u8;
    }

    fn store16(&mut self, addr: u64, value: u64)
        requires
            in_store(addr, 2),
        ensures
            final(self)@ == le_store(old(self)@, addr - DRAM_BASE, 2, value as nat),
        no_unwind
    {
        proof {
            use_type_invariant(&*self);
            reveal_with_fuel(le_store, 3);
        }
        let index = (addr - DRAM_BASE) as usize;
        assert(value & 0xff == value % 256 && (value >> 8) & 0xff == value / 256 % 256)
            by (bit_vector);
        self.dram[index] = (value & 0xff) as u8;
        self.dram[index + 1] = ((value >> 8) & 0xff) as u8;
    }

    fn store32(&mut self, addr: u64, value: u64)
        requires
            in_store(addr, 4),
        ensures
            final(self)@ == le_store(old(self)@, addr - DRAM_BASE, 4, value as nat),
        no_unwind
    {
        proof {
            use_type_invariant(&*self);
            reveal_with_fuel(le_store, 5);
        }
        let index = (addr - DRAM_BASE) as usize;
        assert({
            &&& value & 0xff == value % 256
            &&& (value >> 8) & 0xff == value / 256 % 256
            &&& (value >> 16) & 0xff == value / 256 / 256 % 256
            &&& (value >> 24) & 0xff == value / 256 / 256 / 256 % 256
        }) by (bit_vector);
        self.dram[index] = (value & 0xff) as u8;
        self.dram[index + 1] = ((value >> 8) & 0xff) as u8;
        self.dram[index + 2] = ((value >> 16) & 0xff) as u8;
        self.dram[index + 3] = ((value >> 24) & 0xff) as u8;
    }

    fn store64(&mut self, addr: u64, value: u64)
        requires
            in_store(addr, 8),
        ensures
            final(self)@ == le_store(old(self)@, addr - DRAM_BASE, 8, value as nat),
        no_unwind
    {
        proof {
            use_type_invariant(&*self);
            reveal_with_fuel(le_store, 9);
        }
        let index = (addr - DRAM_BASE) as usize;
        assert({
            &&& value & 0xff == value % 256
            &&& (value >> 8) & 0xff == value / 256 % 256
            &&& (value >> 16) & 0xff == value / 256 / 256 % 256
            &&& (value >> 24) & 0xff == value / 256 / 256 / 256 % 256
            &&& (value >> 32) & 0xff == value / 256 / 256 / 256 / 256 % 256
            &&& (value >> 40) & 0xff == value / 256 / 256 / 256 / 256 / 256 % 256
            &&& (value >> 48) & 0xff == value / 256 / 256 / 256 / 256 / 256 / 256 % 256
            &&& (value >> 56) & 0xff == value / 256 / 256 / 256 / 256 / 256 / 256 / 256 % 256
        }) by (bit_vector);
        self.dram[index] = (value & 0xff) as u8;
        self.dram[index + 1] = ((value >> 8) & 0xff) as u8;
        self.dram[index + 2] = ((value >> 16) & 0xff) as u8;
        self.dram[index + 3] = ((value >> 24) & 0xff) as u8;
        self.dram[index + 4] = ((value >> 32) & 0xff) as u8;
        self.dram[index + 5] = ((value >> 40) & 0xff) as u8;
        self.dram[index + 6] = ((value >> 48) & 0xff) as u8;
        self.dram[index + 7] = ((value >> 56) & 0xff) as u8;
    }

    /// Reads `size` bits at `addr`, little-endian, zero-extended to 64 bits.
    ///
    /// A `size` other than 8, 16, 32 and 64 is refused first; after that an
    /// access that does not lie inside the store.
    pub fn load(&self, addr: u64, size: u64) -> (result: Result<u64, Fault>)
        ensures
            result == mem_load(self@, addr, size),
            self@.len() == MAX_MEMORY,
    {
        proof {
            use_type_invariant(self);
        }
        match size {
            8 => if covers(addr, 1) {
                Ok(self.load8(addr))
            } else {
                Err(Fault::AddressRange)
            },
            16 => if covers(addr, 2) {
                Ok(self.load16(addr))
            } else {
                Err(Fault::AddressRange)
            },
            32 => if covers(addr, 4) {
                Ok(self.load32(addr))
            } else {
                Err(Fault::AddressRange)
            },
            64 => if covers(addr, 8) {
                Ok(self.load64(addr))
            } else {
                Err(Fault::AddressRange)
            },
            _ => Err(Fault::UnsupportedWidth),
        }
    }

    /// Writes the low `size` bits of `value` at `addr`, little-endian.
    ///
    /// Refused on the same inputs as [`Memory::load`]; a refused store leaves
    /// the contents as they were.
    pub fn store(&mut self, addr: u64, size: u64, value: u64) -> (result: Result<(), Fault>)
        ensures
            match mem_store(old(self)@, addr, size, value) {
                Ok(after) => result is Ok && final(self)@ == after,
                Err(fault) => result == Err::<(), Fault>(fault) && final(self)@ == old(self)@,
            },
            old(self)@.len() == MAX_MEMORY,
            final(self)@.len() == MAX_MEMORY,
        no_unwind
    {
        proof {
            use_type_invariant(&*self);
            if let Some(count) = width_bytes(size) {
                if in_store(addr, count) {
                    lemma_le_store_frame(old(self)@, addr - DRAM_BASE, count, value as nat);
                }
            }
        }
        match size {
            8 => if covers(addr, 1) {
                Ok(self.store8(addr, value))
            } else {
                Err(Fault::AddressRange)
            },
            16 => if covers(addr, 2) {
                Ok(self.store16(addr, value))
            } else {
                Err(Fault::AddressRange)
            },
            32 => if covers(addr, 4) {
                Ok(self.store32(addr, value))
            } else {
                Err(Fault::AddressRange)
            },
            64 => if covers(addr, 8) {
                Ok(self.store64(addr, value))
            } else {
                Err(Fault::AddressRange)
            },
            _ => Err(Fault::UnsupportedWidth),
        }
    }
}

/// Tests whether `count` bytes from `addr` on lie inside the store.
fn covers(addr: u64, count: u64) -> (inside: bool)
    requires
        count <= 8,
    ensures
        inside == in_store(addr, count as nat),
    no_unwind
{
    DRAM_BASE <= addr && addr - DRAM_BASE <= MAX_MEMORY - count
}

/// Stands between the processor and the byte store: the one place that
/// decides which addresses exist.
#[derive(Debug)]
pub struct Bus {
    memory: Memory,
}

impl View for Bus {
    type V = Seq<u8>;

    closed spec fn view(&self) -> Seq<u8> {
        self.memory@
    }
}

impl Clone for Bus {
    fn clone(&self) -> (copy: Self)
        ensures
            copy@ == self@,
            copy@.len() == MAX_MEMORY,
    {
        Bus { memory: self.memory.clone() }
    }
}

impl Bus {
    /// A bus in front of `memory`.
    pub fn new(memory: Memory) -> (bus: Self)
        ensures
            bus@ == memory@,
            bus@.len() == MAX_MEMORY,
    {
        proof {
            use_type_invariant(&memory);
        }
        Self { memory }
    }

    /// Loads `size` bits at `addr`. Every address below [`DRAM_BASE`] is
    /// refused, whatever the width.
    pub fn load(&self, addr: u64, size: u64) -> (result: Result<u64, Fault>)
        ensures
            result == bus_load(self@, addr, size),
            addr < DRAM_BASE ==> result == Err::<u64, Fault>(Fault::AddressRange),
            self@.len() == MAX_MEMORY,
    {
        proof {
            use_type_invariant(&self.memory);
        }
        if DRAM_BASE <= addr {
            return self.memory.load(addr, size);
        }
        Err(Fault::AddressRange)
    }

    /// Stores the low `size` bits of `value` at `addr`. Every address below
    /// [`DRAM_BASE`] is refused, whatever the width and the value; a refused
    /// store changes nothing.
    pub fn store(&mut self, addr: u64, size: u64, value: u64) -> (result: Result<(), Fault>)
        ensures
            match bus_store(old(self)@, addr, size, value) {
                Ok(after) => result is Ok && final(self)@ == after,
                Err(fault) => result == Err::<(), Fault>(fault) && final(self)@ == old(self)@,
            },
            addr < DRAM_BASE ==> result == Err::<(), Fault>(Fault::AddressRange),
            old(self)@.len() == MAX_MEMORY,
            final(self)@.len() == MAX_MEMORY,
        no_unwind
    {
        proof {
            use_type_invariant(&self.memory);
        }
        if DRAM_BASE <= addr {
            return self.memory.store(addr, size, value);
        }
        Err(Fault::AddressRange)
    }
}

/// 256 to the power `count`: the number of values that `count` bytes can spell.
pub open spec fn radix(count: nat) -> nat
    decreases count,
{
    if count == 0 {
        1
    } else {
        256 * radix((count - 1) as nat)
    }
}

/// The powers of 256 that the four access widths need.
pub proof fn lemma_radix_values()
    ensures
        radix(1) == 0x100,
        radix(2) == 0x1_0000,
        radix(4) == 0x1_0000_0000,
        radix(8) == 0x1_0000_0000_0000_0000,
{
    reveal_with_fuel(radix, 9);
}

/// Writing digits changes no byte outside the range written, and not the
/// length.
pub proof fn lemma_le_store_frame(mem: Seq<u8>, at: int, count: nat, value: nat)
    requires
        0 <= at,
        at + count <= mem.len(),
    ensures
        le_store(mem, at, count, value).len() == mem.len(),
        forall|i: int|
            0 <= i < mem.len() && !(at <= i < at + count) ==> #[trigger] le_store(
                mem,
                at,
                count,
                value,
            )[i] == mem[i],
    decreases count,
{
    if count > 0 {
        let first = mem.update(at, (value % 256) as u8);
        let rest = (count - 1) as nat;
        lemma_le_store_frame(first, at + 1, rest, value / 256);
        let written = le_store(mem, at, count, value);
        assert forall|i: int|
            0 <= i < mem.len() && !(at <= i < at + count) implies #[trigger] written[i]
            == mem[i] by {
            assert(le_store(first, at + 1, rest, value / 256)[i] == first[i]);
        }
    }
}

/// The number read depends on the bytes in the range read alone.
pub proof fn lemma_le_value_frame(before: Seq<u8>, after: Seq<u8>, at: int, count: nat)
    requires
        forall|i: int| at <= i < at + count ==> before[i] == after[i],
    ensures
        le_value(before, at, count) == le_value(after, at, count),
    decreases count,
{
    if count > 0 {
        lemma_le_value_frame(before, after, at + 1, (count - 1) as nat);
    }
}

/// `count` bytes spell a number below 256 to the power `count`.
pub proof fn lemma_le_value_bound(mem: Seq<u8>, at: int, count: nat)
    ensures
        le_value(mem, at, count) < radix(count),
    decreases count,
{
    if count > 0 {
        lemma_le_value_bound(mem, at + 1, (count - 1) as nat);
    }
}

/// Reading back the digits that were written gives the number written,
/// reduced modulo 256 to the power `count`.
pub proof fn lemma_le_round_trip(mem: Seq<u8>, at: int, count: nat, value: nat)
    requires
        0 <= at,
        at + count <= mem.len(),
    ensures
        le_value(le_store(mem, at, count, value), at, count) == value % radix(count),
    decreases count,
{
    if count > 0 {
        let rest = (count - 1) as nat;
        let first = mem.update(at, (value % 256) as u8);
        let written = le_store(mem, at, count, value);
        lemma_le_store_frame(first, at + 1, rest, value / 256);
        lemma_le_round_trip(first, at + 1, rest, value / 256);
        assert(written[at] == first[at]);
        assert(radix(rest) > 0) by {
            lemma_le_value_bound(mem, at, rest);
        }
        lemma_mod_breakdown(value as int, 256, radix(rest) as int);
    }
}

/// A load of `width` bits gives a number below 2 to the power `width`.
pub proof fn lemma_load_bound(mem: Seq<u8>, addr: u64, width: u64)
    ensures
        mem_load(mem, addr, width) matches Ok(value) ==> value == le_value(
            mem,
            addr - DRAM_BASE,
            width_bytes(width).unwrap(),
        ) && value < pow2(width as nat),
{
    if let Some(count) = width_bytes(width) {
        lemma_le_value_bound(mem, addr - DRAM_BASE, count);
        lemma_radix_values();
        lemma2_to64();
    }
}

/// Store, then load: a value stored with a supported width at an address
/// inside the store and loaded again with the same width from the same
/// address comes back reduced to its low `width` bits, so a value that fits
/// in `width` bits comes back as it was.
pub proof fn lemma_store_then_load(mem: Seq<u8>, addr: u64, width: u64, value: u64)
    requires
        mem.len() == MAX_MEMORY,
        width_bytes(width) matches Some(count) && in_store(addr, count),
    ensures
        mem_store(mem, addr, width, value) matches Ok(after) && after.len() == MAX_MEMORY
            && mem_load(after, addr, width) == Ok::<u64, Fault>(
            (value as nat % pow2(width as nat)) as u64,
        ),
        value < pow2(width as nat) ==> mem_load(
            mem_store(mem, addr, width, value).unwrap(),
            addr,
            width,
        ) == Ok::<u64, Fault>(value),
{
    let count = width_bytes(width).unwrap();
    let at = addr - DRAM_BASE;
    lemma_le_store_frame(mem, at, count, value as nat);
    lemma_le_round_trip(mem, at, count, value as nat);
    lemma_radix_values();
    lemma2_to64();
    if value < pow2(width as nat) {
        lemma_small_mod(value as nat, pow2(width as nat));
    }
}

/// A store leaves every load alone whose bytes it does not touch: where the
/// two ranges do not overlap, the load gives after the store what it gave
/// before.
pub proof fn lemma_store_spares_other_loads(
    mem: Seq<u8>,
    addr: u64,
    width: u64,
    value: u64,
    other: u64,
    other_width: u64,
)
    requires
        mem.len() == MAX_MEMORY,
        mem_store(mem, addr, width, value) is Ok,
        mem_load(mem, other, other_width) is Ok,
        other + width_bytes(other_width).unwrap() <= addr || addr + width_bytes(width).unwrap()
            <= other,
    ensures
        mem_load(mem_store(mem, addr, width, value).unwrap(), other, other_width) == mem_load(
            mem,
            other,
            other_width,
        ),
{
    let after = mem_store(mem, addr, width, value).unwrap();
    lemma_le_store_frame(mem, addr - DRAM_BASE, width_bytes(width).unwrap(), value as nat);
    lemma_le_value_frame(mem, after, other - DRAM_BASE, width_bytes(other_width).unwrap());
}

/// A load and a store with the same address and width are refused on the
/// same inputs and for the same reason.
pub proof fn lemma_same_refusals(mem: Seq<u8>, addr: u64, width: u64, value: u64)
    ensures
        mem_load(mem, addr, width) is Err <==> mem_store(mem, addr, width, value) is Err,
        mem_load(mem, addr, width) matches Err(fault) ==> mem_store(mem, addr, width, value)
            == Err::<Seq<u8>, Fault>(fault),
{
}

/// The bus lets through exactly the accesses at or above the base: below
/// it both a load and a store are refused as out of range, whatever the
/// width and the value; from the base on the bus answers as the store does.
pub proof fn lemma_bus_rule(mem: Seq<u8>, addr: u64, width: u64, value: u64)
    ensures
        addr < DRAM_BASE ==> bus_load(mem, addr, width) == Err::<u64, Fault>(Fault::AddressRange),
        addr < DRAM_BASE ==> bus_store(mem, addr, width, value) == Err::<Seq<u8>, Fault>(
            Fault::AddressRange,
        ),
        addr >= DRAM_BASE ==> bus_load(mem, addr, width) == mem_load(mem, addr, width),
        addr >= DRAM_BASE ==> bus_store(mem, addr, width, value) == mem_store(
            mem,
            addr,
            width,
            value,
        ),
{
}

} // verus!
