use onig::{ByteBuffer, EncodedStringBuffer, Encoding};

#[test]
fn rust_string_encoding_is_utf8() {
    let foo = "foo";
    assert_eq!(Encoding::Utf8, foo.encoding());

    let bar = String::from(".*");
    assert_eq!(Encoding::Utf8, bar.encoding());
}

#[test]
fn rust_bytes_encoding_is_ascii() {
    let fizz = b"fizz";
    let buff = ByteBuffer::ascii(fizz);
    assert_eq!(Encoding::Ascii, buff.encoding());
}

#[test]
fn rust_string_ptr_offsets_are_valid() {
    let test_string = "hello world";
    assert_eq!(test_string.limit_offset() - test_string.start_offset(), test_string.len());
}

#[test]
fn rust_bytes_ptr_offsets_are_valid() {
    let fozz = b"foo.*bar";
    let buff = ByteBuffer::ascii(fozz);
    assert_eq!(buff.limit_offset() - buff.start_offset(), fozz.len());
}

#[test]
fn byte_buffer_create() {
    let buff = b"hello world";
    let enc_buffer = ByteBuffer::from_parts(buff, Encoding::Ascii);
    assert_eq!(Encoding::Ascii, enc_buffer.encoding());
    assert_eq!(enc_buffer.limit_offset() - enc_buffer.start_offset(), buff.len());
}

#[test]
fn byte_buffer_keeps_length_and_encoding() {
    let buff = ByteBuffer::from_parts("héllo".as_bytes(), Encoding::Utf8);
    assert_eq!(buff.len(), 6);
    assert_eq!(buff.encoding(), Encoding::Utf8);
}
