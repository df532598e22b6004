//! A simulated flat memory with the VM's register layout: stack pointer,
//! segment base registers, temporary and static regions, and a stack area.
//! Segment names are resolved to addresses by a fixed table; arithmetic
//! operations work on the cells at and below the stack pointer.

use vstd::prelude::*;
use crate::text::str_eq;

verus! {

pub const MEMORY_SIZE: usize = 32 * 1024;

/// The simulated memory and its register map.
#[derive(Debug)]
pub struct VirtualRAM {
    pub memory: Vec<i16>,
    pub sp: usize,
    pub lcl: usize,
    pub arg: usize,
    pub this: usize,
    pub that: usize,
    pub temp_start: usize,
    pub temp_end: usize,
    pub r13: usize,
    pub r14: usize,
    pub r15: usize,
    pub static_start: usize,
    pub static_end: usize,
    pub stack_start: usize,
    pub stack_end: usize,
}

impl VirtualRAM {
    /// The register map, unchanged by every operation.
    pub open spec fn config(self) -> (
        usize,
        usize,
        usize,
        usize,
        usize,
        usize,
        usize,
        usize,
        usize,
        usize,
        usize,
        usize,
        usize,
    ) {
        (
            self.lcl,
            self.arg,
            self.this,
            self.that,
            self.temp_start,
            self.temp_end,
            self.r13,
            self.r14,
            self.r15,
            self.static_start,
            self.static_end,
            self.stack_start,
            self.stack_end,
        )
    }

    /// Whether `seg` names a segment of the resolution table.
    pub open spec fn segment_known(seg: Seq<char>) -> bool {
        seg == "local"@ || seg == "argument"@ || seg == "pointer"@ || seg == "temp"@ || seg
            == "constant"@ || seg == "static"@
    }

    /// Whether `index` lies inside the region of `seg`.
    pub open spec fn index_ok(self, seg: Seq<char>, index: usize) -> bool {
        if seg == "pointer"@ {
            index <= 1
        } else if seg == "temp"@ {
            self.temp_start <= self.temp_end && index <= self.temp_end - self.temp_start
        } else if seg == "static"@ {
            self.static_start <= self.static_end && index <= self.static_end - self.static_start
        } else {
            true
        }
    }

    /// The address that `seg[index]` resolves to.
    pub open spec fn resolve_spec(self, seg: Seq<char>, index: usize) -> int {
        if seg == "local"@ {
            self.lcl as int
        } else if seg == "argument"@ {
            self.arg as int
        } else if seg == "pointer"@ {
            if index == 0 {
                self.this as int
            } else {
                self.that as int
            }
        } else if seg == "temp"@ {
            self.temp_start + index
        } else if seg == "constant"@ {
            self.sp as int
        } else {
            self.static_start + index
        }
    }

    /// A fresh machine: 32K words of zeroed memory and the conventional
    /// register map.
    pub fn new() -> (r: VirtualRAM)
        ensures
            r.memory@.len() == MEMORY_SIZE,
            forall|i: int| 0 <= i < r.memory@.len() ==> r.memory@[i] == 0,
            r.sp == 256,
            r.config() == (
                1usize,
                2usize,
                3usize,
                4usize,
                5usize,
                12usize,
                13usize,
                14usize,
                15usize,
                16usize,
                255usize,
                256usize,
                2047usize,
            ),
    {
        VirtualRAM {
            memory: vec![0i16; MEMORY_SIZE],
            sp: 256,
            lcl: 1,
            arg: 2,
            this: 3,
            that: 4,
            temp_start: 5,
            temp_end: 12,
            r13: 13,
            r14: 14,
            r15: 15,
            static_start: 16,
            static_end: 255,
            stack_start: 256,
            stack_end: 2047,
        }
    }

    /// The address of `segment[index]` under the resolution table.
    pub fn resolve_segment(&self, segment: &str, index: usize) -> (r: usize)
        requires
            Self::segment_known(segment@),
            self.index_ok(segment@, index),
        ensures
            r == self.resolve_spec(segment@, index),
    {
        if str_eq(segment, "local") {
            self.lcl
        } else if str_eq(segment, "argument") {
            self.arg
        } else if str_eq(segment, "pointer") {
            if index == 0 {
                self.this
            } else {
                self.that
            }
        } else if str_eq(segment, "temp") {
            self.temp_start + index
        } else if str_eq(segment, "constant") {
            self.sp
        } else {
            self.static_start + index
        }
    }

    /// Copies the value at `segment[index]` onto the stack top and
    /// advances the stack pointer.
    pub fn push(&mut self, segment: &str, index: usize)
        requires
            Self::segment_known(segment@),
            old(self).index_ok(segment@, index),
            old(self).resolve_spec(segment@, index) < old(self).memory@.len(),
            old(self).sp < old(self).memory@.len(),
        ensures
            final(self).memory@ == old(self).memory@.update(
                old(self).sp as int,
                old(self).memory@[old(self).resolve_spec(segment@, index)],
            ),
            final(self).sp == old(self).sp + 1,
            final(self).config() == old(self).config(),
    {
        let n = self.memory.len();
        let address = self.resolve_segment(segment, index);
        let value = self.memory[address];
        self.memory[self.sp] = value;
        assert(self.sp < n);
        self.sp += 1;
    }

    /// Pops the stack top into `segment[index]`: the stack pointer
    /// retreats by exactly one cell before the value is loaded, and the
    /// popped value lands at the resolved address. The address itself is
    /// resolved before the pointer moves.
    pub fn pop(&mut self, segment: &mut &str, index: usize)
        requires
            Self::segment_known(old(segment)@),
            old(self).index_ok(old(segment)@, index),
            old(self).resolve_spec(old(segment)@, index) < old(self).memory@.len(),
            1 <= old(self).sp <= old(self).memory@.len(),
        ensures
            *final(segment) == *old(segment),
            final(self).memory@ == old(self).memory@.update(
                old(self).resolve_spec(old(segment)@, index),
                old(self).memory@[old(self).sp - 1],
            ),
            final(self).sp == old(self).sp - 1,
            final(self).config() == old(self).config(),
    {
        let address = self.resolve_segment(*segment, index);
        self.sp -= 1;
        let value = self.memory[self.sp];
        self.memory[address] = value;
    }

    /// Integer addition: x + y, with y at the stack pointer and x below.
    pub fn add(&mut self)
        requires
            1 <= old(self).sp < old(self).memory@.len(),
            i16::MIN <= old(self).memory@[old(self).sp - 1] + old(self).memory@[old(self).sp as int]
                <= i16::MAX,
        ensures
            final(self).memory@ == old(self).memory@.update(old(self).sp as int, 0i16).update(
                old(self).sp - 1,
                (old(self).memory@[old(self).sp - 1] + old(self).memory@[old(
                    self,
                ).sp as int]) as i16,
            ),
            final(self).sp == old(self).sp - 1,
            final(self).config() == old(self).config(),
    {
        let y = self.memory[self.sp];
        self.memory[self.sp] = 0;
        self.sp -= 1;
        let x = self.memory[self.sp];
        let result = x + y;
        self.memory[self.sp] = result;
    }

    /// Integer subtraction: x - y.
    pub fn sub(&mut self)
        requires
            1 <= old(self).sp < old(self).memory@.len(),
            i16::MIN <= old(self).memory@[old(self).sp - 1] - old(self).memory@[old(self).sp as int]
                <= i16::MAX,
        ensures
            final(self).memory@ == old(self).memory@.update(old(self).sp as int, 0i16).update(
                old(self).sp - 1,
                (old(self).memory@[old(self).sp - 1] - old(self).memory@[old(
                    self,
                ).sp as int]) as i16,
            ),
            final(self).sp == old(self).sp - 1,
            final(self).config() == old(self).config(),
    {
        let y = self.memory[self.sp];
        self.memory[self.sp] = 0;
        self.sp -= 1;
        let x = self.memory[self.sp];
        let result = x - y;
        self.memory[self.sp] = result;
    }

    /// Arithmetic negation of y, in place at the stack pointer.
    pub fn neg(&mut self)
        requires
            old(self).sp < old(self).memory@.len(),
            old(self).memory@[old(self).sp as int] != i16::MIN,
        ensures
            final(self).memory@ == old(self).memory@.update(
                old(self).sp as int,
                (-old(self).memory@[old(self).sp as int]) as i16,
            ),
            final(self).sp == old(self).sp,
            final(self).config() == old(self).config(),
    {
        let y = self.memory[self.sp];
        self.memory[self.sp] = -y;
    }

    /// Equality test: the result cell holds -1 (all ones, boolean true)
    /// when x equals y, else 0; the vacated cell is cleared and the stack
    /// pointer moves down one cell.
    pub fn eq(&mut self)
        requires
            1 <= old(self).sp < old(self).memory@.len(),
        ensures
            final(self).memory@ == old(self).memory@.update(old(self).sp as int, 0i16).update(
                old(self).sp - 1,
                if old(self).memory@[old(self).sp - 1] == old(self).memory@[old(self).sp as int] {
                    -1i16
                } else {
                    0i16
                },
            ),
            final(self).sp == old(self).sp - 1,
            final(self).config() == old(self).config(),
    {
        let y = self.memory[self.sp];
        self.memory[self.sp] = 0;
        self.sp -= 1;
        let x = self.memory[self.sp];
        if x == y {
            self.memory[self.sp] = -1;
        } else {
            self.memory[self.sp] = 0;
        }
    }

    /// Greater-than test: the result cell holds -1 (all ones, boolean
    /// true) when x > y, else 0; the vacated cell is cleared and the
    /// stack pointer moves down one cell.
    pub fn gt(&mut self)
        requires
            1 <= old(self).sp < old(self).memory@.len(),
        ensures
            final(self).memory@ == old(self).memory@.update(old(self).sp as int, 0i16).update(
                old(self).sp - 1,
                if old(self).memory@[old(self).sp - 1] > old(self).memory@[old(self).sp as int] {
                    -1i16
                } else {
                    0i16
                },
            ),
            final(self).sp == old(self).sp - 1,
            final(self).config() == old(self).config(),
    {
        let y = self.memory[self.sp];
        self.memory[self.sp] = 0;
        self.sp -= 1;
        let x = self.memory[self.sp];
        if x > y {
            self.memory[self.sp] = -1;
        } else {
            self.memory[self.sp] = 0;
        }
    }

    /// Less-than test: the result cell holds -1 (all ones, boolean true)
    /// when x < y, else 0; the vacated cell is cleared and the stack
    /// pointer moves down one cell.
    pub fn lt(&mut self)
        requires
            1 <= old(self).sp < old(self).memory@.len(),
        ensures
            final(self).memory@ == old(self).memory@.update(old(self).sp as int, 0i16).update(
                old(self).sp - 1,
                if old(self).memory@[old(self).sp - 1] < old(self).memory@[old(self).sp as int] {
                    -1i16
                } else {
                    0i16
                },
            ),
            final(self).sp == old(self).sp - 1,
            final(self).config() == old(self).config(),
    {
        let y = self.memory[self.sp];
        self.memory[self.sp] = 0;
        self.sp -= 1;
        let x = self.memory[self.sp];
        if x < y {
            self.memory[self.sp] = -1;
        } else {
            self.memory[self.sp] = 0;
        }
    }

    /// Bitwise and of x and y.
    pub fn and(&mut self)
        requires
            1 <= old(self).sp < old(self).memory@.len(),
        ensures
            final(self).memory@ == old(self).memory@.update(old(self).sp as int, 0i16).update(
                old(self).sp - 1,
                old(self).memory@[old(self).sp - 1] & old(self).memory@[old(self).sp as int],
            ),
            final(self).sp == old(self).sp - 1,
            final(self).config() == old(self).config(),
    {
        let y = self.memory[self.sp];
        self.memory[self.sp] = 0;
        self.sp -= 1;
        let x = self.memory[self.sp];
        let result = x & y;
        self.memory[self.sp] = result;
    }

    /// Bitwise or of x and y.
    pub fn or(&mut self)
        requires
            1 <= old(self).sp < old(self).memory@.len(),
        ensures
            final(self).memory@ == old(self).memory@.update(old(self).sp as int, 0i16).update(
                old(self).sp - 1,
                old(self).memory@[old(self).sp - 1] | old(self).memory@[old(self).sp as int],
            ),
            final(self).sp == old(self).sp - 1,
            final(self).config() == old(self).config(),
    {
        let y = self.memory[self.sp];
        self.memory[self.sp] = 0;
        self.sp -= 1;
        let x = self.memory[self.sp];
        let result = x | y;
        self.memory[self.sp] = result;
    }

    /// Bitwise complement of y, in place at the stack pointer.
    pub fn not(&mut self)
        requires
            old(self).sp < old(self).memory@.len(),
        ensures
            final(self).memory@ == old(self).memory@.update(
                old(self).sp as int,
                !old(self).memory@[old(self).sp as int],
            ),
            final(self).sp == old(self).sp,
            final(self).config() == old(self).config(),
    {
        let y = self.memory[self.sp];
        self.memory[self.sp] = !y;
    }
}

} // verus!
