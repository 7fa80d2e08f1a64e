//! The harness's picture of the code region: the bytes it has written there.

use vstd::prelude::*;
use crate::encoding::{cmd_size, spec_cmd_size};

verus! {

/// Mathematical model of a contiguous stretch of memory.
pub struct MemoryView {
    /// Address of the first byte.
    pub base: u64,
    /// The bytes, from `base` upwards.
    pub bytes: Seq<u8>,
}

impl MemoryView {
    /// One past the address of the last byte.
    pub open spec fn end(self) -> int {
        self.base + self.bytes.len()
    }

    /// Whether `len` bytes from `address` can be read or written. Nothing is
    /// always accessible, wherever it is asked for.
    pub open spec fn readable(self, address: int, len: nat) -> bool {
        len == 0 || (self.base <= address && address + len <= self.end())
    }

    /// The `len` bytes from `address`.
    pub open spec fn read(self, address: int, len: nat) -> Seq<u8> {
        Seq::new(len, |i: int| self.bytes[address - self.base + i])
    }

    /// The memory after `data` has been stored from `address`.
    pub open spec fn write(self, address: int, data: Seq<u8>) -> MemoryView {
        MemoryView {
            base: self.base,
            bytes: Seq::new(
                self.bytes.len(),
                |i: int|
                    if address - self.base <= i < address - self.base + data.len() {
                        data[i - (address - self.base)]
                    } else {
                        self.bytes[i]
                    },
            ),
        }
    }

    /// Width of the instruction that starts at `address`, where its first
    /// halfword can be read.
    pub open spec fn cmd_size_at(self, address: int) -> Option<nat> {
        if self.readable(address, 2) {
            Some(spec_cmd_size(self.read(address, 2)[1]))
        } else {
            None
        }
    }

    /// Number of bytes that the `count` instructions from `address` occupy,
    /// each as wide as its own first halfword says, where every one of those
    /// halfwords can be read.
    pub open spec fn span(self, address: int, count: nat) -> Option<nat>
        decreases count,
    {
        if count == 0 {
            Some(0)
        } else {
            match self.cmd_size_at(address) {
                None => None,
                Some(width) => match self.span(address + width, (count - 1) as nat) {
                    None => None,
                    Some(rest) => Some(width + rest),
                },
            }
        }
    }
}

/// A contiguous stretch of byte-addressed memory.
pub struct Memory {
    base: u64,
    bytes: Vec<u8>,
}

impl View for Memory {
    type V = MemoryView;

    closed spec fn view(&self) -> MemoryView {
        MemoryView { base: self.base, bytes: self.bytes@ }
    }
}

impl Memory {
    /// The memory ends within the 64-bit address space, and its size can be
    /// held in a `usize`.
    pub open spec fn wf(&self) -> bool {
        self@.end() <= u64::MAX && self@.bytes.len() <= usize::MAX
    }

    /// `size` zero bytes from `base`.
    pub fn zeroed(base: u64, size: usize) -> (memory: Memory)
        requires
            base + size <= u64::MAX,
        ensures
            memory.wf(),
            memory@.base == base,
            memory@.bytes == Seq::new(size as nat, |i: int| 0u8),
    {
        let mut bytes: Vec<u8> = Vec::new();
        let mut i: usize = 0;
        while i < size
            invariant
                i <= size,
                bytes@ == Seq::new(i as nat, |k: int| 0u8),
            decreases size - i,
        {
            bytes.push(0u8);
            i = i + 1;
            assert(bytes@ =~= Seq::new(i as nat, |k: int| 0u8));
        }
        Memory { base, bytes }
    }

    /// `size` zero bytes from `base`, or nothing where they would reach past
    /// the address space.
    pub fn new(base: u64, size: usize) -> (memory: Option<Memory>)
        ensures
            memory is Some <==> base + size <= u64::MAX,
            memory matches Some(m) ==> m.wf() && m@.base == base && m@.bytes == Seq::new(
                size as nat,
                |i: int| 0u8,
            ),
    {
        if size as u64 > u64::MAX - base {
            None
        } else {
            Some(Memory::zeroed(base, size))
        }
    }

    /// Address of the first byte.
    pub fn base(&self) -> (base: u64)
        ensures
            base == self@.base,
    {
        self.base
    }

    /// Number of bytes.
    pub fn len(&self) -> (len: usize)
        ensures
            len == self@.bytes.len(),
    {
        self.bytes.len()
    }

    /// Whether `len` bytes from `address` lie inside this memory.
    pub fn is_readable(&self, address: u64, len: usize) -> (ok: bool)
        requires
            self.wf(),
        ensures
            ok == self@.readable(address as int, len as nat),
    {
        if len == 0 {
            return true;
        }
        if address < self.base {
            return false;
        }
        let offset: u64 = address - self.base;
        let size: u64 = self.bytes.len() as u64;
        offset <= size && len as u64 <= size - offset
    }

    /// Reads `len` bytes from `address`; nothing where they are not all
    /// inside this memory.
    pub fn mem_read(&self, address: u64, len: usize) -> (data: Option<Vec<u8>>)
        requires
            self.wf(),
        ensures
            data is Some <==> self@.readable(address as int, len as nat),
            data matches Some(d) ==> d@ == self@.read(address as int, len as nat),
    {
        if !self.is_readable(address, len) {
            return None;
        }
        let mut data: Vec<u8> = Vec::new();
        if len == 0 {
            assert(data@ =~= self@.read(address as int, 0));
            return Some(data);
        }
        let size: usize = self.bytes.len();
        let offset: usize = (address - self.base) as usize;
        let mut i: usize = 0;
        while i < len
            invariant
                i <= len,
                offset + len <= self.bytes.len(),
                offset == address - self.base,
                data@ == self@.read(address as int, i as nat),
            decreases len - i,
        {
            data.push(self.bytes[offset + i]);
            i = i + 1;
            assert(data@ =~= self@.read(address as int, i as nat));
        }
        Some(data)
    }

    /// Stores `data` from `address`. Where the bytes do not all lie inside
    /// this memory nothing is stored and the answer is `false`.
    pub fn mem_write(&mut self, address: u64, data: &Vec<u8>) -> (ok: bool)
        requires
            old(self).wf(),
        ensures
            final(self).wf(),
            ok == old(self)@.readable(address as int, data@.len()),
            ok ==> final(self)@ == old(self)@.write(address as int, data@),
            !ok ==> final(self)@ == old(self)@,
    {
        let len: usize = data.len();
        if !self.is_readable(address, len) {
            return false;
        }
        if len == 0 {
            assert(self@.bytes =~= old(self)@.write(address as int, data@).bytes);
            return true;
        }
        let size: usize = self.bytes.len();
        let offset: usize = (address - self.base) as usize;
        let mut i: usize = 0;
        while i < len
            invariant
                i <= len,
                len == data@.len(),
                offset + len <= self.bytes.len(),
                offset == address - self.base,
                self.base == old(self).base,
                self.bytes@.len() == old(self).bytes@.len(),
                forall|k: int|
                    0 <= k < self.bytes@.len() ==> self.bytes@[k] == if offset <= k < offset + i {
                        data@[k - offset]
                    } else {
                        old(self).bytes@[k]
                    },
            decreases len - i,
        {
            self.bytes.set(offset + i, data[i]);
            i = i + 1;
        }
        assert(self@.bytes =~= old(self)@.write(address as int, data@).bytes);
        true
    }

    /// A copy of this memory.
    pub fn snapshot(&self) -> (copy: Memory)
        ensures
            copy@ == self@,
    {
        let mut bytes: Vec<u8> = Vec::new();
        let mut i: usize = 0;
        while i < self.bytes.len()
            invariant
                i <= self.bytes@.len(),
                bytes@ == self.bytes@.subrange(0, i as int),
            decreases self.bytes@.len() - i,
        {
            bytes.push(self.bytes[i]);
            i = i + 1;
            assert(bytes@ =~= self.bytes@.subrange(0, i as int));
        }
        assert(bytes@ =~= self.bytes@);
        Memory { base: self.base, bytes }
    }

    /// The bytes of this memory, from its base upwards.
    pub fn contents(&self) -> (bytes: Vec<u8>)
        ensures
            bytes@ == self@.bytes,
    {
        self.snapshot().bytes
    }

    /// Width of the instruction that starts at `address`: reads its first
    /// halfword and classifies it. Nothing where the halfword cannot be read.
    pub fn get_asm_cmd_size(&self, address: u64) -> (size: Option<usize>)
        requires
            self.wf(),
        ensures
            size is Some <==> self@.readable(address as int, 2),
            size matches Some(s) ==> Some(s as nat) == self@.cmd_size_at(address as int),
            size matches Some(s) ==> s == 2 || s == 4,
    {
        match self.mem_read(address, 2) {
            Some(data) => Some(cmd_size(data[0], data[1])),
            None => None,
        }
    }
}

/// Storing back what was read from a place leaves memory as it was, whatever
/// was stored there in between.
pub proof fn lemma_write_back_restores(memory: MemoryView, address: int, changed: Seq<u8>)
    requires
        memory.readable(address, changed.len()),
    ensures
        memory.write(address, changed).write(address, memory.read(address, changed.len()))
            == memory,
{
    let captured = memory.read(address, changed.len());
    let restored = memory.write(address, changed).write(address, captured);
    assert(restored.bytes =~= memory.bytes);
}

/// What a store changes: the bytes stored read back, and every other byte
/// keeps its value.
pub proof fn lemma_write_then_read(memory: MemoryView, address: int, data: Seq<u8>)
    requires
        memory.readable(address, data.len()),
    ensures
        memory.write(address, data).read(address, data.len()) == data,
        memory.write(address, data).bytes.len() == memory.bytes.len(),
        forall|a: int|
            memory.base <= a < memory.end() && !(address <= a < address + data.len())
                ==> #[trigger] memory.write(address, data).bytes[a - memory.base]
                == memory.bytes[a - memory.base],
{
    assert(memory.write(address, data).read(address, data.len()) =~= data);
}

} // verus!
