//! A growable stack of 16-bit words with the VM's arithmetic-logical
//! operations, used to simulate stack behaviour. The top of the stack is
//! logically `y`; the cell below it is `x`.

use vstd::prelude::*;

verus! {

/// A stack of words; `sp` always equals the number of stored words after
/// any method of this type returns.
#[derive(Debug, PartialEq, Eq)]
pub struct Stack {
    pub memory: Vec<i16>,
    pub sp: usize,
}

impl View for Stack {
    type V = Seq<i16>;

    open spec fn view(&self) -> Seq<i16> {
        self.memory@
    }
}

impl Stack {
    /// Whether the stack pointer agrees with the stored words.
    pub open spec fn wf(&self) -> bool {
        self.sp == self@.len()
    }

    /// An empty stack.
    pub fn new() -> (r: Stack)
        ensures
            r@ == Seq::<i16>::empty(),
            r.wf(),
    {
        Stack { memory: Vec::new(), sp: 0 }
    }

    /// Inserts `value` at the stack pointer; on a well-formed stack that
    /// pushes it on top.
    pub fn push(&mut self, value: i16)
        requires
            old(self).sp <= old(self)@.len(),
        ensures
            final(self)@ == old(self)@.insert(old(self).sp as int, value),
            old(self).wf() ==> final(self)@ == old(self)@.push(value),
            final(self).wf(),
    {
        proof {
            if self.wf() {
                assert(self@.insert(self.sp as int, value) =~= self@.push(value));
            }
        }
        self.memory.insert(self.sp, value);
        self.sp = self.memory.len();
    }

    /// Pops the top value, if any.
    pub fn pop(&mut self) -> (r: Option<i16>)
        ensures
            old(self)@.len() > 0 ==> r == Some(old(self)@.last()) && final(self)@ == old(
                self,
            )@.drop_last(),
            old(self)@.len() == 0 ==> r == None::<i16> && final(self)@ == old(self)@,
            final(self).wf(),
    {
        let v = self.memory.pop();
        self.sp = self.memory.len();
        v
    }

    /// Pops y and x and pushes x + y.
    pub fn add(&mut self)
        requires
            old(self)@.len() >= 2,
            i16::MIN <= old(self)@[old(self)@.len() - 2] + old(self)@.last() <= i16::MAX,
        ensures
            final(self)@ == old(self)@.drop_last().drop_last().push(
                (old(self)@[old(self)@.len() - 2] + old(self)@.last()) as i16,
            ),
            final(self).wf(),
    {
        let y = self.pop().unwrap();
        let x = self.pop().unwrap();
        let _ = self.push(x + y);
    }

    /// Pops y and x and pushes x - y.
    pub fn sub(&mut self)
        requires
            old(self)@.len() >= 2,
            i16::MIN <= old(self)@[old(self)@.len() - 2] - old(self)@.last() <= i16::MAX,
        ensures
            final(self)@ == old(self)@.drop_last().drop_last().push(
                (old(self)@[old(self)@.len() - 2] - old(self)@.last()) as i16,
            ),
            final(self).wf(),
    {
        let y = self.pop().unwrap();
        let x = self.pop().unwrap();
        let _ = self.push(x - y);
    }

    /// Pops y and pushes -y.
    pub fn neg(&mut self)
        requires
            old(self)@.len() >= 1,
            old(self)@.last() != i16::MIN,
        ensures
            final(self)@ == old(self)@.drop_last().push((-old(self)@.last()) as i16),
            final(self).wf(),
    {
        let x = self.pop().unwrap();
        let _ = self.push(-x);
    }

    /// Pops y and x and pushes 1 when x equals y, else 0.
    pub fn equal(&mut self)
        requires
            old(self)@.len() >= 2,
        ensures
            final(self)@ == old(self)@.drop_last().drop_last().push(
                if old(self)@[old(self)@.len() - 2] == old(self)@.last() {
                    1i16
                } else {
                    0i16
                },
            ),
            final(self).wf(),
    {
        let y = self.pop().unwrap();
        let x = self.pop().unwrap();
        if x == y {
            let _ = self.push(1);
        } else {
            let _ = self.push(0);
        }
    }

    /// Pops y and x and pushes 1 when x > y, else 0.
    pub fn gt(&mut self)
        requires
            old(self)@.len() >= 2,
        ensures
            final(self)@ == old(self)@.drop_last().drop_last().push(
                if old(self)@[old(self)@.len() - 2] > old(self)@.last() {
                    1i16
                } else {
                    0i16
                },
            ),
            final(self).wf(),
    {
        let y = self.pop().unwrap();
        let x = self.pop().unwrap();
        if x > y {
            let _ = self.push(1);
        } else {
            let _ = self.push(0);
        }
    }

    /// Pops y and x and pushes 1 when x < y, else 0.
    pub fn lt(&mut self)
        requires
            old(self)@.len() >= 2,
        ensures
            final(self)@ == old(self)@.drop_last().drop_last().push(
                if old(self)@[old(self)@.len() - 2] < old(self)@.last() {
                    1i16
                } else {
                    0i16
                },
            ),
            final(self).wf(),
    {
        let y = self.pop().unwrap();
        let x = self.pop().unwrap();
        if x < y {
            let _ = self.push(1);
        } else {
            let _ = self.push(0);
        }
    }

    /// Pops y and x and pushes the bitwise value x & y.
    pub fn and(&mut self)
        requires
            old(self)@.len() >= 2,
        ensures
            final(self)@ == old(self)@.drop_last().drop_last().push(
                old(self)@[old(self)@.len() - 2] & old(self)@.last(),
            ),
            final(self).wf(),
    {
        let y = self.pop().unwrap();
        let x = self.pop().unwrap();
        let _ = self.push(x & y);
    }

    /// Pops y and x and pushes the bitwise value x | y.
    pub fn or(&mut self)
        requires
            old(self)@.len() >= 2,
        ensures
            final(self)@ == old(self)@.drop_last().drop_last().push(
                old(self)@[old(self)@.len() - 2] | old(self)@.last(),
            ),
            final(self).wf(),
    {
        let y = self.pop().unwrap();
        let x = self.pop().unwrap();
        let _ = self.push(x | y);
    }

    /// Pops y and pushes its bitwise complement.
    pub fn not(&mut self)
        requires
            old(self)@.len() >= 1,
        ensures
            final(self)@ == old(self)@.drop_last().push(!old(self)@.last()),
            final(self).wf(),
    {
        let x = self.pop().unwrap();
        self.push(!x);
    }
}

/// Pushing a value and popping it right back returns that value and
/// leaves the stack exactly as it was: the push/pop round trip is a
/// stack-neutral no-op.
pub proof fn lemma_push_pop_round_trip(s: Seq<i16>, value: i16)
    ensures
        s.push(value).last() == value,
        s.push(value).drop_last() == s,
{
    assert(s.push(value).drop_last() =~= s);
}

} // verus!
