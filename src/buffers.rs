use vstd::prelude::*;
use vstd::string::*;
use vstd::utf8::*;

verus! {

/// How the bytes of a buffer encode characters.
#[derive(Clone, Copy, Debug, PartialEq, Eq, Structural)]
pub enum Encoding {
    Ascii,
    Utf8,
}

/// A buffer of encoded characters that can be searched.
pub trait EncodedStringBuffer {
    /// The bytes of the buffer.
    spec fn buffer_bytes(&self) -> Seq<u8>;

    /// The encoding the bytes are in.
    spec fn buffer_encoding(&self) -> Encoding;

    /// Offset of the first byte.
    fn start_offset(&self) -> (r: usize)
        ensures
            r == 0,
    ;

    /// Offset just past the last byte.
    fn limit_offset(&self) -> (r: usize)
        ensures
            r == self.buffer_bytes().len(),
    ;

    /// The encoding of the bytes.
    fn encoding(&self) -> (r: Encoding)
        ensures
            r == self.buffer_encoding(),
    ;
}

impl EncodedStringBuffer for str {
    open spec fn buffer_bytes(&self) -> Seq<u8> {
        self.spec_bytes()
    }

    open spec fn buffer_encoding(&self) -> Encoding {
        Encoding::Utf8
    }

    fn start_offset(&self) -> usize {
        0
    }

    fn limit_offset(&self) -> usize {
        self.as_bytes().len()
    }

    fn encoding(&self) -> Encoding {
        Encoding::Utf8
    }
}

impl EncodedStringBuffer for String {
    open spec fn buffer_bytes(&self) -> Seq<u8> {
        encode_utf8(self@)
    }

    open spec fn buffer_encoding(&self) -> Encoding {
        Encoding::Utf8
    }

    fn start_offset(&self) -> usize {
        0
    }

    fn limit_offset(&self) -> usize {
        self.as_str().as_bytes().len()
    }

    fn encoding(&self) -> Encoding {
        Encoding::Utf8
    }
}

/// Borrowed bytes with the encoding they are in.
pub struct ByteBuffer<'a> {
    bytes: &'a [u8],
    enc: Encoding,
}

impl<'a> ByteBuffer<'a> {
    pub closed spec fn bytes_spec(&self) -> Seq<u8> {
        self.bytes@
    }

    pub closed spec fn encoding_spec(&self) -> Encoding {
        self.enc
    }

    /// A buffer of `bytes` in the encoding `enc`.
    pub fn from_parts(bytes: &'a [u8], enc: Encoding) -> (r: ByteBuffer<'a>)
        ensures
            r.bytes_spec() == bytes@,
            r.encoding_spec() == enc,
    {
        ByteBuffer { bytes, enc }
    }

    /// A buffer of ASCII bytes.
    pub fn ascii(bytes: &'a [u8]) -> (r: ByteBuffer<'a>)
        ensures
            r.bytes_spec() == bytes@,
            r.encoding_spec() == Encoding::Ascii,
    {
        ByteBuffer { bytes, enc: Encoding::Ascii }
    }

    /// The number of bytes.
    pub fn len(&self) -> (r: usize)
        ensures
            r == self.bytes_spec().len(),
    {
        self.bytes.len()
    }
}

impl<'a> EncodedStringBuffer for ByteBuffer<'a> {
    open spec fn buffer_bytes(&self) -> Seq<u8> {
        self.bytes_spec()
    }

    open spec fn buffer_encoding(&self) -> Encoding {
        self.encoding_spec()
    }

    fn start_offset(&self) -> usize {
        0
    }

    fn limit_offset(&self) -> usize {
        self.bytes.len()
    }

    fn encoding(&self) -> Encoding {
        self.enc
    }
}

} // verus!
