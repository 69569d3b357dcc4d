use crate::decoder::DecodeError;
use vstd::prelude::*;

verus! {

/// A single-pass view over the input bytes. It reads forward only and
/// remembers where the instruction being decoded began, which is the offset
/// that a read past the end reports.
pub struct ByteCursor<'a> {
    bytes: &'a [u8],
    pos: usize,
    start: usize,
}

impl<'a> ByteCursor<'a> {
    /// The bytes being read.
    pub closed spec fn data(&self) -> Seq<u8> {
        self.bytes@
    }

    /// The offset of the next byte to read.
    pub closed spec fn position(&self) -> int {
        self.pos as int
    }

    /// The offset where the current instruction began.
    pub closed spec fn instruction_start(&self) -> int {
        self.start as int
    }

    /// The instruction began at or before the read position, which lies
    /// within the bytes.
    pub open spec fn wf(&self) -> bool {
        0 <= self.instruction_start() <= self.position() <= self.data().len()
    }

    /// A cursor at the first byte.
    pub fn new(bytes: &'a [u8]) -> (r: Self)
        ensures
            r.data() == bytes@,
            r.position() == 0,
            r.instruction_start() == 0,
    {
        ByteCursor { bytes, pos: 0, start: 0 }
    }

    /// The offset of the next byte to read.
    pub fn offset(&self) -> (r: usize)
        ensures
            r == self.position(),
    {
        self.pos
    }

    /// The offset where the current instruction began.
    pub fn instruction_offset(&self) -> (r: usize)
        ensures
            r == self.instruction_start(),
    {
        self.start
    }

    /// The next byte, without consuming it.
    pub fn peek(&self) -> (r: Option<u8>)
        requires
            self.wf(),
        ensures
            r == (if self.position() < self.data().len() {
                Some(self.data()[self.position()])
            } else {
                None
            }),
    {
        if self.pos < self.bytes.len() {
            Some(self.bytes[self.pos])
        } else {
            None
        }
    }

    /// Marks the read position as the start of a new instruction.
    pub fn begin_instruction(&mut self)
        requires
            old(self).wf(),
        ensures
            final(self).wf(),
            final(self).data() == old(self).data(),
            final(self).position() == old(self).position(),
            final(self).instruction_start() == old(self).position(),
    {
        self.start = self.pos;
    }

    /// Consumes the next byte. With none left, the input is truncated: the
    /// error names the offset where the current instruction began.
    pub fn next(&mut self) -> (r: Result<u8, DecodeError>)
        requires
            old(self).wf(),
        ensures
            final(self).wf(),
            final(self).data() == old(self).data(),
            final(self).instruction_start() == old(self).instruction_start(),
            old(self).position() < old(self).data().len() ==> r == Ok::<u8, DecodeError>(
                old(self).data()[old(self).position()],
            ) && final(self).position() == old(self).position() + 1,
            old(self).position() >= old(self).data().len() ==> r == Err::<u8, DecodeError>(
                DecodeError::TruncatedInput { offset: old(self).instruction_start() as usize },
            ) && final(self).position() == old(self).position(),
    {
        if self.pos < self.bytes.len() {
            let b = self.bytes[self.pos];
            self.pos = self.pos + 1;
            Ok(b)
        } else {
            Err(DecodeError::TruncatedInput { offset: self.start })
        }
    }
}

} // verus!
