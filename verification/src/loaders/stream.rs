//! The byte cursor: a forward-only reader over a borrowed buffer.

use vstd::prelude::*;
use vstd::slice::{slice_subrange, slice_to_vec};

use crate::loaders::wire::{
    i16_of, i32_of, i64_of, i8_of, lemma_text_length, text_at, u16_at, u32_at, u64_at,
};

verus! {

/// `String::push` of std appends one character to the end of the string.
pub assume_specification[ String::push ](text: &mut String, character: char)
    ensures
        final(text)@ == old(text)@.push(character),
;

/// Why a value could not be decoded.
#[derive(Clone, Copy, Debug, PartialEq, Eq, Structural)]
pub enum ConversionError {
    /// Fewer bytes remain than the value spans. More data may complete it.
    Incomplete,
    /// The bytes can never be a value of the type: an unassigned code, or a
    /// length prefix that does not fit the layout.
    Invalid,
    /// The frame at the cursor belongs to another packet type.
    WrongHeader,
}

/// The version of a versioned file format.
#[derive(Clone, Copy, Debug, PartialEq, Eq, Structural)]
pub struct Version {
    pub major: u8,
    pub minor: u8,
}

impl Version {
    pub fn new(major: u8, minor: u8) -> (version: Self)
        ensures
            version == (Version { major, minor }),
    {
        Version { major, minor }
    }

    /// `self` is the given version or a later one.
    pub open spec fn at_least(self, major: u8, minor: u8) -> bool {
        self.major > major || (self.major == major && self.minor >= minor)
    }

    pub fn equals_or_above(&self, major: u8, minor: u8) -> (above: bool)
        ensures
            above == self.at_least(major, minor),
    {
        self.major > major || (self.major == major && self.minor >= minor)
    }
}

/// A forward-only reader over a byte buffer, with the version of the format
/// that the buffer holds. The buffer is borrowed, never copied.
pub struct ByteStream<'a> {
    data: &'a [u8],
    offset: usize,
    version: Version,
}

impl<'a> ByteStream<'a> {
    #[verifier::type_invariant]
    spec fn in_bounds(self) -> bool {
        self.offset <= self.data@.len()
    }

    /// The whole buffer.
    pub closed spec fn data(&self) -> Seq<u8> {
        self.data@
    }

    /// The number of bytes read so far.
    pub closed spec fn offset(&self) -> nat {
        self.offset as nat
    }

    /// The version of the format.
    pub closed spec fn version(&self) -> Version {
        self.version
    }

    /// The bytes not yet read.
    pub open spec fn remaining(&self) -> Seq<u8> {
        self.data().skip(self.offset() as int)
    }

    pub fn new(data: &'a [u8]) -> (stream: Self)
        ensures
            stream.data() == data@,
            stream.offset() == 0,
            stream.version() == (Version { major: 0, minor: 0 }),
    {
        ByteStream { data, offset: 0, version: Version { major: 0, minor: 0 } }
    }

    /// A cursor at the start of `data`, for a buffer in the given version of its
    /// format.
    pub fn with_version(data: &'a [u8], version: Version) -> (stream: Self)
        ensures
            stream.data() == data@,
            stream.offset() == 0,
            stream.version() == version,
    {
        ByteStream { data, offset: 0, version }
    }

    pub fn get_version(&self) -> (version: Version)
        ensures
            version == self.version(),
    {
        self.version
    }

    pub fn get_offset(&self) -> (offset: usize)
        ensures
            offset == self.offset(),
            offset <= self.data().len(),
    {
        proof {
            use_type_invariant(self);
        }
        self.offset
    }

    /// The number of bytes not yet read.
    pub fn remaining_length(&self) -> (length: usize)
        ensures
            length == self.data().len() - self.offset(),
            self.data().len() <= usize::MAX,
    {
        proof {
            use_type_invariant(self);
        }
        self.data.len() - self.offset
    }

    pub fn is_empty(&self) -> (empty: bool)
        ensures
            empty == (self.offset() == self.data().len()),
    {
        proof {
            use_type_invariant(self);
        }
        self.offset >= self.data.len()
    }

    /// A second cursor at the same place of the same buffer.
    pub fn fork(&self) -> (stream: ByteStream<'a>)
        ensures
            stream == *self,
    {
        proof {
            use_type_invariant(self);
        }
        ByteStream { data: self.data, offset: self.offset, version: self.version }
    }

    /// A second cursor at the same place, over the buffer up to position `end`
    /// and no further.
    pub fn frame(&self, end: usize) -> (stream: ByteStream<'a>)
        requires
            self.offset() <= end <= self.data().len(),
        ensures
            stream.data() == self.data().take(end as int),
            stream.offset() == self.offset(),
            stream.version() == self.version(),
    {
        proof {
            use_type_invariant(self);
        }
        ByteStream {
            data: slice_subrange(self.data, 0, end),
            offset: self.offset,
            version: self.version,
        }
    }

    /// Moves the cursor to where `other`, a cursor over the same buffer or over
    /// its beginning, stands.
    pub fn follow(&mut self, other: &ByteStream<'a>)
        requires
            other.data() == old(self).data() || other.offset() <= old(self).data().len(),
        ensures
            final(self).data() == old(self).data(),
            final(self).version() == old(self).version(),
            final(self).offset() == other.offset(),
    {
        proof {
            use_type_invariant(&*self);
            use_type_invariant(other);
        }
        self.offset = other.offset;
    }

    /// Skips `count` bytes.
    pub fn skip(&mut self, count: usize) -> (result: Result<(), ConversionError>)
        ensures
            final(self).data() == old(self).data(),
            final(self).version() == old(self).version(),
            match result {
                Ok(_) => {
                    &&& old(self).offset() + count <= old(self).data().len()
                    &&& final(self).offset() == old(self).offset() + count
                },
                Err(error) => {
                    &&& old(self).offset() + count > old(self).data().len()
                    &&& error == ConversionError::Incomplete
                    &&& final(self).offset() == old(self).offset()
                },
            },
    {
        proof {
            use_type_invariant(&*self);
        }
        if self.data.len() - self.offset < count {
            return Err(ConversionError::Incomplete);
        }
        self.offset = self.offset + count;
        Ok(())
    }

    /// The next byte.
    pub fn next(&mut self) -> (result: Result<u8, ConversionError>)
        ensures
            final(self).data() == old(self).data(),
            final(self).version() == old(self).version(),
            match result {
                Ok(byte) => {
                    &&& old(self).offset() < old(self).data().len()
                    &&& byte == old(self).data()[old(self).offset() as int]
                    &&& final(self).offset() == old(self).offset() + 1
                },
                Err(error) => {
                    &&& old(self).offset() == old(self).data().len()
                    &&& error == ConversionError::Incomplete
                    &&& final(self).offset() == old(self).offset()
                },
            },
    {
        proof {
            use_type_invariant(&*self);
        }
        if self.offset >= self.data.len() {
            return Err(ConversionError::Incomplete);
        }
        let byte = self.data[self.offset];
        self.offset = self.offset + 1;
        Ok(byte)
    }

    /// The next `count` bytes, borrowed from the buffer.
    pub fn slice(&mut self, count: usize) -> (result: Result<&'a [u8], ConversionError>)
        ensures
            final(self).data() == old(self).data(),
            final(self).version() == old(self).version(),
            match result {
                Ok(bytes) => {
                    &&& old(self).offset() + count <= old(self).data().len()
                    &&& bytes@ == old(self).data().subrange(
                        old(self).offset() as int,
                        old(self).offset() + count,
                    )
                    &&& final(self).offset() == old(self).offset() + count
                },
                Err(error) => {
                    &&& old(self).offset() + count > old(self).data().len()
                    &&& error == ConversionError::Incomplete
                    &&& final(self).offset() == old(self).offset()
                },
            },
    {
        proof {
            use_type_invariant(&*self);
        }
        if self.data.len() - self.offset < count {
            return Err(ConversionError::Incomplete);
        }
        let bytes = slice_subrange(self.data, self.offset, self.offset + count);
        self.offset = self.offset + count;
        Ok(bytes)
    }

    /// All the bytes not yet read, as a copy. The cursor moves to the end.
    pub fn remaining_bytes(&mut self) -> (bytes: Vec<u8>)
        ensures
            final(self).data() == old(self).data(),
            final(self).version() == old(self).version(),
            final(self).offset() == old(self).data().len(),
            bytes@ == old(self).remaining(),
    {
        proof {
            use_type_invariant(&*self);
        }
        let rest = slice_subrange(self.data, self.offset, self.data.len());
        let bytes = slice_to_vec(rest);
        self.offset = self.data.len();
        assert(bytes@ =~= old(self).remaining());
        bytes
    }

    /// The next byte as an unsigned integer.
    pub fn read_u8(&mut self) -> (result: Result<u8, ConversionError>)
        ensures
            final(self).data() == old(self).data(),
            final(self).version() == old(self).version(),
            match result {
                Ok(value) => {
                    &&& old(self).offset() + 1 <= old(self).data().len()
                    &&& value == old(self).data()[old(self).offset() as int]
                    &&& final(self).offset() == old(self).offset() + 1
                },
                Err(error) => {
                    &&& old(self).offset() + 1 > old(self).data().len()
                    &&& error == ConversionError::Incomplete
                    &&& final(self).offset() == old(self).offset()
                },
            },
    {
        self.next()
    }

    /// The next two bytes as an unsigned little-endian integer.
    pub fn read_u16(&mut self) -> (result: Result<u16, ConversionError>)
        ensures
            final(self).data() == old(self).data(),
            final(self).version() == old(self).version(),
            match result {
                Ok(value) => {
                    &&& old(self).offset() + 2 <= old(self).data().len()
                    &&& value == u16_at(old(self).data(), old(self).offset() as int)
                    &&& final(self).offset() == old(self).offset() + 2
                },
                Err(error) => {
                    &&& old(self).offset() + 2 > old(self).data().len()
                    &&& error == ConversionError::Incomplete
                    &&& final(self).offset() == old(self).offset()
                },
            },
    {
        proof {
            use_type_invariant(&*self);
        }
        if self.data.len() - self.offset < 2 {
            return Err(ConversionError::Incomplete);
        }
        let low: u16 = self.data[self.offset] as u16;
        let high: u16 = self.data[self.offset + 1] as u16;
        self.offset = self.offset + 2;
        Ok(low + 0x100 * high)
    }

    /// The next four bytes as an unsigned little-endian integer.
    pub fn read_u32(&mut self) -> (result: Result<u32, ConversionError>)
        ensures
            final(self).data() == old(self).data(),
            final(self).version() == old(self).version(),
            match result {
                Ok(value) => {
                    &&& old(self).offset() + 4 <= old(self).data().len()
                    &&& value == u32_at(old(self).data(), old(self).offset() as int)
                    &&& final(self).offset() == old(self).offset() + 4
                },
                Err(error) => {
                    &&& old(self).offset() + 4 > old(self).data().len()
                    &&& error == ConversionError::Incomplete
                    &&& final(self).offset() == old(self).offset()
                },
            },
    {
        proof {
            use_type_invariant(&*self);
        }
        if self.data.len() - self.offset < 4 {
            return Err(ConversionError::Incomplete);
        }
        let low: u32 = match self.read_u16() {
            Ok(value) => value as u32,
            Err(error) => return Err(error),
        };
        let high: u32 = match self.read_u16() {
            Ok(value) => value as u32,
            Err(error) => return Err(error),
        };
        Ok(low + 0x1_0000 * high)
    }

    /// The next eight bytes as an unsigned little-endian integer.
    pub fn read_u64(&mut self) -> (result: Result<u64, ConversionError>)
        ensures
            final(self).data() == old(self).data(),
            final(self).version() == old(self).version(),
            match result {
                Ok(value) => {
                    &&& old(self).offset() + 8 <= old(self).data().len()
                    &&& value == u64_at(old(self).data(), old(self).offset() as int)
                    &&& final(self).offset() == old(self).offset() + 8
                },
                Err(error) => {
                    &&& old(self).offset() + 8 > old(self).data().len()
                    &&& error == ConversionError::Incomplete
                    &&& final(self).offset() == old(self).offset()
                },
            },
    {
        proof {
            use_type_invariant(&*self);
        }
        if self.data.len() - self.offset < 8 {
            return Err(ConversionError::Incomplete);
        }
        let low: u64 = match self.read_u32() {
            Ok(value) => value as u64,
            Err(error) => return Err(error),
        };
        let high: u64 = match self.read_u32() {
            Ok(value) => value as u64,
            Err(error) => return Err(error),
        };
        Ok(low + 0x1_0000_0000 * high)
    }

    /// The next byte as a signed integer.
    pub fn read_i8(&mut self) -> (result: Result<i8, ConversionError>)
        ensures
            final(self).data() == old(self).data(),
            final(self).version() == old(self).version(),
            match result {
                Ok(value) => {
                    &&& old(self).offset() + 1 <= old(self).data().len()
                    &&& value == i8_of(old(self).data()[old(self).offset() as int])
                    &&& final(self).offset() == old(self).offset() + 1
                },
                Err(error) => {
                    &&& old(self).offset() + 1 > old(self).data().len()
                    &&& error == ConversionError::Incomplete
                    &&& final(self).offset() == old(self).offset()
                },
            },
    {
        let bits = self.read_u8()?;
        if bits < 0x80 {
            Ok(bits as i8)
        } else {
            Ok((bits - 0x80) as i8 + i8::MIN)
        }
    }

    /// The next two bytes as a signed little-endian integer.
    pub fn read_i16(&mut self) -> (result: Result<i16, ConversionError>)
        ensures
            final(self).data() == old(self).data(),
            final(self).version() == old(self).version(),
            match result {
                Ok(value) => {
                    &&& old(self).offset() + 2 <= old(self).data().len()
                    &&& value == i16_of(u16_at(old(self).data(), old(self).offset() as int))
                    &&& final(self).offset() == old(self).offset() + 2
                },
                Err(error) => {
                    &&& old(self).offset() + 2 > old(self).data().len()
                    &&& error == ConversionError::Incomplete
                    &&& final(self).offset() == old(self).offset()
                },
            },
    {
        let bits = self.read_u16()?;
        if bits < 0x8000 {
            Ok(bits as i16)
        } else {
            Ok((bits - 0x8000) as i16 + i16::MIN)
        }
    }

    /// The next four bytes as a signed little-endian integer.
    pub fn read_i32(&mut self) -> (result: Result<i32, ConversionError>)
        ensures
            final(self).data() == old(self).data(),
            final(self).version() == old(self).version(),
            match result {
                Ok(value) => {
                    &&& old(self).offset() + 4 <= old(self).data().len()
                    &&& value == i32_of(u32_at(old(self).data(), old(self).offset() as int))
                    &&& final(self).offset() == old(self).offset() + 4
                },
                Err(error) => {
                    &&& old(self).offset() + 4 > old(self).data().len()
                    &&& error == ConversionError::Incomplete
                    &&& final(self).offset() == old(self).offset()
                },
            },
    {
        let bits = self.read_u32()?;
        if bits < 0x8000_0000 {
            Ok(bits as i32)
        } else {
            Ok((bits - 0x8000_0000) as i32 + i32::MIN)
        }
    }

    /// The next eight bytes as a signed little-endian integer.
    pub fn read_i64(&mut self) -> (result: Result<i64, ConversionError>)
        ensures
            final(self).data() == old(self).data(),
            final(self).version() == old(self).version(),
            match result {
                Ok(value) => {
                    &&& old(self).offset() + 8 <= old(self).data().len()
                    &&& value == i64_of(u64_at(old(self).data(), old(self).offset() as int))
                    &&& final(self).offset() == old(self).offset() + 8
                },
                Err(error) => {
                    &&& old(self).offset() + 8 > old(self).data().len()
                    &&& error == ConversionError::Incomplete
                    &&& final(self).offset() == old(self).offset()
                },
            },
    {
        let bits = self.read_u64()?;
        if bits < 0x8000_0000_0000_0000 {
            Ok(bits as i64)
        } else {
            Ok((bits - 0x8000_0000_0000_0000) as i64 + i64::MIN)
        }
    }

    /// The text of the field that the next `width` bytes are: one character for
    /// each byte before the first zero byte. The cursor moves behind the field.
    pub fn read_string(&mut self, width: usize) -> (result: Result<String, ConversionError>)
        ensures
            final(self).data() == old(self).data(),
            final(self).version() == old(self).version(),
            match result {
                Ok(text) => {
                    &&& old(self).offset() + width <= old(self).data().len()
                    &&& text@ == text_at(old(self).data(), old(self).offset() as int, width as nat)
                    &&& final(self).offset() == old(self).offset() + width
                },
                Err(error) => {
                    &&& old(self).offset() + width > old(self).data().len()
                    &&& error == ConversionError::Incomplete
                    &&& final(self).offset() == old(self).offset()
                },
            },
    {
        let ghost data = self.data@;
        let ghost at = self.offset as int;
        let field = self.slice(width)?;
        let mut text = String::new();
        let mut index: usize = 0;
        while index < width && field[index] != 0
            invariant
                index <= width,
                field@.len() == width,
                0 <= at,
                at + width <= data.len(),
                field@ == data.subrange(at, at + width),
                forall|i: int| 0 <= i < index ==> #[trigger] data[at + i] != 0,
                text@ == Seq::new(index as nat, |i: int| data[at + i] as char),
            decreases width - index,
        {
            let ghost before = text@;
            assert(field@[index as int] == data[at + index]);
            text.push(field[index] as char);
            index = index + 1;
            assert(text@ =~= Seq::new(index as nat, |i: int| data[at + i] as char));
        }
        proof {
            if index < width {
                assert(field@[index as int] == data[at + index]);
            }
            lemma_text_length(data, at, width as nat, index as nat);
        }
        Ok(text)
    }
}

} // verus!
