//! The display task's text buffer: a fixed-capacity byte buffer that
//! accepts appended text only while it fits, refusing an overflowing
//! write outright instead of truncating it.
//!
//! Font rendering and the pixel-buffer flush belong to the display
//! collaborator outside this library; what is verified here is the byte
//! accounting the renderer is fed from.

use vstd::prelude::*;
use vstd::string::StringSliceAdditionalSpecFns;

verus! {

/// An appended string did not fit in the remaining space; the buffer is
/// unchanged.
#[derive(Debug, PartialEq, Eq, Clone, Copy, Structural)]
pub struct TextOverflow;

/// A fixed-capacity text buffer, filled front to back.
pub struct TextBuffer {
    buf: Vec<u8>,
    cap: usize,
}

impl TextBuffer {
    /// The bytes written so far, in order.
    pub closed spec fn bytes(self) -> Seq<u8> {
        self.buf@
    }

    /// The fixed capacity.
    pub closed spec fn cap(self) -> nat {
        self.cap as nat
    }

    /// The buffer invariant: the contents never exceed the capacity.
    pub open spec fn wf(self) -> bool {
        self.bytes().len() <= self.cap()
    }

    /// An empty buffer of `cap` bytes.
    pub fn new(cap: usize) -> (b: TextBuffer)
        ensures
            b.wf(),
            b.cap() == cap,
            b.bytes() == Seq::<u8>::empty(),
    {
        let b = TextBuffer { buf: Vec::new(), cap };
        proof {
            assert(b.buf@ =~= Seq::<u8>::empty());
        }
        b
    }

    /// How many bytes are in the buffer.
    pub fn len(&self) -> (n: usize)
        ensures
            n == self.bytes().len(),
    {
        self.buf.len()
    }

    /// Appends the bytes of `s` when the remaining space holds them all;
    /// a string that does not fit is refused whole, leaving the buffer as
    /// it was.
    pub fn write_str(&mut self, s: &str) -> (r: Result<(), TextOverflow>)
        requires
            old(self).wf(),
        ensures
            final(self).wf(),
            final(self).cap() == old(self).cap(),
            if old(self).bytes().len() + s.spec_bytes().len() <= old(self).cap() {
                r == Ok::<(), TextOverflow>(()) && final(self).bytes() == old(self).bytes()
                    + s.spec_bytes()
            } else {
                r == Err::<(), TextOverflow>(TextOverflow) && final(self).bytes() == old(
                    self,
                ).bytes()
            },
    {
        let bytes = s.as_bytes();
        let space_remaining = self.cap - self.buf.len();
        if bytes.len() > space_remaining {
            return Err(TextOverflow);
        }
        let mut i: usize = 0;
        while i < bytes.len()
            invariant
                i <= bytes@.len(),
                self.cap == old(self).cap,
                self.buf@ == old(self).buf@ + bytes@.take(i as int),
            decreases bytes@.len() - i,
        {
            self.buf.push(bytes[i]);
            proof {
                assert(old(self).buf@ + bytes@.take(i + 1) =~= (old(self).buf@ + bytes@.take(
                    i as int,
                )).push(bytes@[i as int]));
            }
            i = i + 1;
        }
        proof {
            assert(bytes@.take(bytes@.len() as int) =~= bytes@);
        }
        Ok(())
    }

    /// The buffered text as bytes; the renderer decodes and draws them.
    pub fn as_bytes(&self) -> (r: &[u8])
        ensures
            r@ == self.bytes(),
    {
        self.buf.as_slice()
    }
}

} // verus!
