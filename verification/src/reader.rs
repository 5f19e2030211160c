//! Bytes that have arrived and wait to be interpreted.
use crate::error::{Error, IoErrorKind};
use vstd::prelude::*;

verus! {

/// The error of a read for which too few bytes are left.
pub open spec fn unexpected_eof() -> Error {
    Error::IoError(IoErrorKind::UnexpectedEof)
}

/// A cursor over bytes received from the other side. Its view is what has not been read yet.
pub struct Reader {
    bytes: Vec<u8>,
    position: usize,
}

impl View for Reader {
    type V = Seq<u8>;

    closed spec fn view(&self) -> Seq<u8> {
        if self.position <= self.bytes@.len() {
            self.bytes@.skip(self.position as int)
        } else {
            Seq::empty()
        }
    }
}

impl Reader {
    /// Creates a reader at the start of the given bytes.
    pub fn new(bytes: Vec<u8>) -> (reader: Self)
        ensures
            reader@ == bytes@,
    {
        let reader = Self { bytes, position: 0 };
        assert(reader@ =~= bytes@);
        reader
    }

    /// The number of bytes that have not been read yet.
    pub fn remaining(&self) -> (count: usize)
        ensures
            count == self@.len(),
    {
        if self.position <= self.bytes.len() {
            self.bytes.len() - self.position
        } else {
            0
        }
    }

    /// Reads exactly the given number of bytes. If fewer are left, they are all dropped and the
    /// read fails with an unexpected end of input.
    pub fn read_exact(&mut self, count: usize) -> (result: Result<Vec<u8>, Error>)
        ensures
            match result {
                Ok(bytes) => {
                    &&& count <= old(self)@.len()
                    &&& bytes@ == old(self)@.take(count as int)
                    &&& final(self)@ == old(self)@.skip(count as int)
                },
                Err(error) => {
                    &&& count > old(self)@.len()
                    &&& error == unexpected_eof()
                    &&& final(self)@ == Seq::<u8>::empty()
                },
            },
    {
        if count > self.remaining() {
            self.position = self.bytes.len();
            assert(self@ =~= Seq::<u8>::empty());
            return Err(Error::IoError(IoErrorKind::UnexpectedEof));
        }
        let ghost before = self@;
        if self.position > self.bytes.len() {
            self.position = self.bytes.len();
        }
        assert(self@ =~= before);
        let start: usize = self.position;
        let mut taken: Vec<u8> = Vec::new();
        let unread = vstd::slice::slice_subrange(self.bytes.as_slice(), start, start + count);
        taken.extend_from_slice(unread);
        assert(taken@ =~= before.take(count as int));
        self.position = start + count;
        assert(self@ =~= before.skip(count as int));
        Ok(taken)
    }
}

} // verus!
