//! The TTY ring buffer between the keyboard and the screen: input
//! characters are queued, and reading drains everything queued so the
//! caller can echo it.

use vstd::prelude::*;

verus! {

/// Capacity of the ring buffer.
pub const NTTY_BUF: u32 = 512;

/// A ring buffer of typed characters. Write and read positions only
/// grow; the slot of a position is the position modulo the capacity.
#[allow(non_camel_case_types)]
pub struct TTY_Buf {
    nread: u32,
    nwrite: u32,
    buf: Vec<char>,
}

impl TTY_Buf {
    /// Positions in range and a buffer of the fixed capacity.
    pub closed spec fn wf(&self) -> bool {
        &&& self.buf@.len() == NTTY_BUF
        &&& self.nread <= self.nwrite
        &&& self.nwrite - self.nread <= NTTY_BUF
    }

    /// The characters queued and not yet drained, oldest first.
    pub closed spec fn pending(&self) -> Seq<char> {
        Seq::new((self.nwrite - self.nread) as nat, |i: int| self.buf@[(self.nread + i) % (NTTY_BUF as int)])
    }

    /// How much room the queue has left before it is full.
    pub closed spec fn room(&self) -> int {
        NTTY_BUF - (self.nwrite - self.nread)
    }

    /// How many characters have ever been queued.
    pub closed spec fn written(&self) -> u32 {
        self.nwrite
    }

    /// An empty buffer.
    pub fn new() -> (r: TTY_Buf)
        ensures
            r.wf(),
            r.pending() == Seq::<char>::empty(),
            r.written() == 0,
    {
        let r = TTY_Buf { nread: 0, nwrite: 0, buf: vec!['\0'; NTTY_BUF as usize] };
        proof {
            assert(r.pending() =~= Seq::<char>::empty());
        }
        r
    }

    /// Whether the queue is full.
    pub fn check_full(&self) -> (r: bool)
        requires
            self.wf(),
        ensures
            r == (self.room() == 0),
    {
        self.nwrite - self.nread == NTTY_BUF
    }

    /// Queue one character, then drain the queue and hand back
    /// everything to echo (the queued characters, this one last).
    pub fn input(&mut self, ch: char) -> (r: Vec<char>)
        requires
            old(self).wf(),
            old(self).room() > 0,
            old(self).written() < u32::MAX,
        ensures
            final(self).wf(),
            r@ == old(self).pending().push(ch),
            final(self).pending() == Seq::<char>::empty(),
            final(self).written() == old(self).written() + 1,
    {
        let pos: usize = (self.nwrite % NTTY_BUF) as usize;
        let ghost before = self.pending();
        self.nwrite = self.nwrite + 1;
        self.buf[pos] = ch;
        proof {
            assert(self.pending() =~= before.push(ch)) by {
                assert forall|i: int| 0 <= i < before.len() implies self.pending()[i]
                    == before[i] by {
                    assert((self.nread + i) % (NTTY_BUF as int) != (self.nwrite - 1) % (
                    NTTY_BUF as int)) by (nonlinear_arith)
                        requires
                            0 <= i < (self.nwrite - 1 - self.nread),
                            self.nwrite - 1 - self.nread < NTTY_BUF,
                            0 <= self.nread,
                            self.nread <= self.nwrite - 1,
                            NTTY_BUF == 512,
                    ;
                }
                assert((self.nread + (before.len() as int)) % (NTTY_BUF as int) == (self.nwrite
                    - 1) % (NTTY_BUF as int));
            }
        }
        self.read()
    }

    /// Drain the queue: everything queued comes back, oldest first.
    pub fn read(&mut self) -> (r: Vec<char>)
        requires
            old(self).wf(),
        ensures
            final(self).wf(),
            r@ == old(self).pending(),
            final(self).pending() == Seq::<char>::empty(),
            final(self).written() == old(self).written(),
    {
        let mut r: Vec<char> = Vec::new();
        let mut i: u32 = self.nread;
        while i < self.nwrite
            invariant
                self.wf(),
                *self == *old(self),
                old(self).nread <= i <= self.nwrite,
                r@ =~= old(self).pending().take(i - old(self).nread),
            decreases self.nwrite - i,
        {
            let ch = self.buf[(i % NTTY_BUF) as usize];
            r.push(ch);
            proof {
                assert(old(self).pending().take(i + 1 - old(self).nread) =~= old(
                    self,
                ).pending().take(i - old(self).nread).push(ch));
            }
            i = i + 1;
        }
        proof {
            assert(old(self).pending().take(self.nwrite - old(self).nread) =~= old(
                self,
            ).pending());
        }
        self.nread = self.nwrite;
        proof {
            assert(self.pending() =~= Seq::<char>::empty());
        }
        r
    }
}

} // verus!
