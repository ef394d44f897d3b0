use xdr::{DecodeError, Xdr, XdrPrimitive, XdrResult};

#[test]
fn new_decoder_starts_at_zero() {
    let x = Xdr::new(&[1u8, 2, 3]);
    assert_eq!(x.cursor(), 0);
    assert_eq!(x.remaining(), 3);
}

#[test]
fn empty_buffer_has_nothing_to_read() {
    let mut x = Xdr::new(&[]);
    assert_eq!(x.remaining(), 0);
    assert_eq!(x.unpack_uint(), Err(DecodeError::UnexpectedEof));
    assert_eq!(x.unpack_bytes(0), Ok(vec![]));
    assert_eq!(x.unpack_array::<u64>(0), Ok(vec![]));
    assert_eq!(x.cursor(), 0);
}

#[test]
fn uint_is_big_endian() {
    let mut x = Xdr::new(&[0x12, 0x34, 0x56, 0x78]);
    assert_eq!(x.unpack_uint(), Ok(0x1234_5678));
    assert_eq!(x.cursor(), 4);
}

#[test]
fn uint_extremes() {
    let mut x = Xdr::new(&[0xff, 0xff, 0xff, 0xff, 0, 0, 0, 0, 0x80, 0, 0, 0]);
    assert_eq!(x.unpack_uint(), Ok(u32::MAX));
    assert_eq!(x.unpack_uint(), Ok(0));
    assert_eq!(x.unpack_uint(), Ok(0x8000_0000));
}

#[test]
fn int_extremes() {
    let mut x = Xdr::new(&[0x80, 0, 0, 0, 0x7f, 0xff, 0xff, 0xff, 0xff, 0xff, 0xff, 0xff]);
    assert_eq!(x.unpack_int(), Ok(i32::MIN));
    assert_eq!(x.unpack_int(), Ok(i32::MAX));
    assert_eq!(x.unpack_int(), Ok(-1));
    assert_eq!(x.cursor(), 12);
}

#[test]
fn ulong_is_big_endian() {
    let mut x = Xdr::new(&[0x01, 0x23, 0x45, 0x67, 0x89, 0xab, 0xcd, 0xef]);
    assert_eq!(x.unpack_ulong(), Ok(0x0123_4567_89ab_cdef));
    assert_eq!(x.cursor(), 8);
}

#[test]
fn ulong_extremes() {
    let mut x = Xdr::new(&[0xff; 8]);
    assert_eq!(x.unpack_ulong(), Ok(u64::MAX));
    let mut x = Xdr::new(&[0x80, 0, 0, 0, 0, 0, 0, 0]);
    assert_eq!(x.unpack_ulong(), Ok(0x8000_0000_0000_0000));
}

#[test]
fn long_extremes() {
    let mut x = Xdr::new(&[0x80, 0, 0, 0, 0, 0, 0, 0]);
    assert_eq!(x.unpack_long(), Ok(i64::MIN));
    let mut x = Xdr::new(&[0x7f, 0xff, 0xff, 0xff, 0xff, 0xff, 0xff, 0xff]);
    assert_eq!(x.unpack_long(), Ok(i64::MAX));
    let mut x = Xdr::new(&[0xff; 8]);
    assert_eq!(x.unpack_long(), Ok(-1));
}

#[test]
fn named_reads_agree_with_generic_read() {
    let buffer = [0xffu8, 0xff, 0xff, 0xe7, 0xff, 0xff, 0xff, 0xe7];
    let mut a = Xdr::new(&buffer);
    let mut b = Xdr::new(&buffer);
    assert_eq!(a.unpack_uint(), b.unpack_primitive::<u32>());
    assert_eq!(a.unpack_int(), b.unpack_primitive::<i32>());
    let mut a = Xdr::new(&buffer);
    let mut b = Xdr::new(&buffer);
    assert_eq!(a.unpack_ulong(), b.unpack_primitive::<u64>());
    let mut a = Xdr::new(&buffer);
    let mut b = Xdr::new(&buffer);
    assert_eq!(a.unpack_long(), b.unpack_primitive::<i64>());
    assert_eq!(a.cursor(), b.cursor());
}

#[test]
fn read_from_xdr_reads_at_the_cursor() {
    let mut x = Xdr::new(&[0, 0, 0, 7, 0, 0, 0, 1]);
    let first: XdrResult<u32> = XdrPrimitive::read_from_xdr(&mut x, None);
    let second: XdrResult<bool> = XdrPrimitive::read_from_xdr(&mut x, None);
    assert_eq!(first, Ok(7));
    assert_eq!(second, Ok(true));
    assert_eq!(x.cursor(), 8);
}

#[test]
fn word_one_byte_short_is_eof_and_consumes_nothing() {
    let mut x = Xdr::new(&[0, 0, 1]);
    assert_eq!(x.unpack_uint(), Err(DecodeError::UnexpectedEof));
    assert_eq!(x.cursor(), 0);
    assert_eq!(x.unpack_int(), Err(DecodeError::UnexpectedEof));
    assert_eq!(x.cursor(), 0);
    assert_eq!(x.unpack_boolean(), Err(DecodeError::UnexpectedEof));
    assert_eq!(x.cursor(), 0);
}

#[test]
fn double_word_one_byte_short_is_eof_and_consumes_nothing() {
    let mut x = Xdr::new(&[0, 0, 0, 0, 0, 0, 1]);
    assert_eq!(x.unpack_ulong(), Err(DecodeError::UnexpectedEof));
    assert_eq!(x.cursor(), 0);
    assert_eq!(x.unpack_long(), Err(DecodeError::UnexpectedEof));
    assert_eq!(x.cursor(), 0);
}

#[test]
fn exact_fit_succeeds_and_ends_at_the_end() {
    let mut x = Xdr::new(&[0, 0, 0, 1]);
    assert_eq!(x.unpack_uint(), Ok(1));
    assert_eq!(x.cursor(), 4);
    assert_eq!(x.remaining(), 0);
    let mut x = Xdr::new(&[0, 0, 0, 1]);
    assert_eq!(x.unpack_int(), Ok(1));
    assert_eq!(x.cursor(), 4);
    let mut x = Xdr::new(&[0, 0, 0, 1]);
    assert_eq!(x.unpack_boolean(), Ok(true));
    assert_eq!(x.cursor(), 4);
    let mut x = Xdr::new(&[0, 0, 0, 0, 0, 0, 0, 1]);
    assert_eq!(x.unpack_ulong(), Ok(1));
    assert_eq!(x.cursor(), 8);
    let mut x = Xdr::new(&[0, 0, 0, 0, 0, 0, 0, 1]);
    assert_eq!(x.unpack_long(), Ok(1));
    assert_eq!(x.cursor(), 8);
}

#[test]
fn boolean_accepts_only_zero_and_one() {
    let mut x = Xdr::new(&[0, 0, 0, 1, 0, 0, 0, 0, 0, 0, 0, 20, 0, 0, 1, 0, 0, 0, 0, 1]);
    assert_eq!(x.unpack_boolean(), Ok(true));
    assert_eq!(x.unpack_boolean(), Ok(false));
    assert_eq!(x.unpack_boolean(), Err(DecodeError::InvalidBoolean(20)));
    assert_eq!(x.unpack_boolean(), Err(DecodeError::InvalidBoolean(256)));
    assert_eq!(x.unpack_boolean(), Ok(true));
}

#[test]
fn invalid_boolean_word_is_consumed() {
    let mut x = Xdr::new(&[0, 0, 0, 2, 0, 0, 0, 9]);
    assert_eq!(x.unpack_boolean(), Err(DecodeError::InvalidBoolean(2)));
    assert_eq!(x.cursor(), 4);
    assert_eq!(x.unpack_uint(), Ok(9));
}

#[test]
fn bytes_consume_their_padding() {
    for n in 0usize..=9 {
        let buffer: Vec<u8> = (0u8..16).collect();
        let mut x = Xdr::new(&buffer);
        let got = x.unpack_bytes(n).unwrap();
        assert_eq!(got, buffer[..n].to_vec());
        assert_eq!(x.cursor(), n + (4 - n % 4) % 4);
        assert_eq!(x.cursor() % 4, 0);
    }
}

#[test]
fn bytes_padding_lengths() {
    let expected = [0usize, 4, 4, 4, 4, 8, 8, 8, 8, 12];
    for n in 0usize..10 {
        let mut x = Xdr::new(&[0u8; 12]);
        assert!(x.unpack_bytes(n).is_ok());
        assert_eq!(x.cursor(), expected[n]);
    }
}

#[test]
fn bytes_padding_is_not_inspected() {
    let mut x = Xdr::new(&[7, 0xaa, 0xbb, 0xcc, 0, 0, 0, 5]);
    assert_eq!(x.unpack_bytes(1), Ok(vec![7]));
    assert_eq!(x.cursor(), 4);
    assert_eq!(x.unpack_uint(), Ok(5));
}

#[test]
fn bytes_without_room_for_padding_fail_unchanged() {
    let mut x = Xdr::new(&[1, 2, 3, 4, 5, 6, 7]);
    assert_eq!(x.unpack_bytes(5), Err(DecodeError::UnexpectedEof));
    assert_eq!(x.unpack_bytes(7), Err(DecodeError::UnexpectedEof));
    assert_eq!(x.unpack_bytes(8), Err(DecodeError::UnexpectedEof));
    assert_eq!(x.cursor(), 0);
    assert_eq!(x.unpack_bytes(4), Ok(vec![1, 2, 3, 4]));
    assert_eq!(x.cursor(), 4);
}

#[test]
fn bytes_of_the_largest_length_fail_unchanged() {
    let mut x = Xdr::new(&[1, 2, 3, 4]);
    assert_eq!(x.unpack_bytes(usize::MAX), Err(DecodeError::UnexpectedEof));
    assert_eq!(x.unpack_bytes(usize::MAX - 2), Err(DecodeError::UnexpectedEof));
    assert_eq!(x.cursor(), 0);
}

#[test]
fn bytes_start_at_the_cursor() {
    let mut x = Xdr::new(&[0, 0, 0, 1, 9, 8, 7, 6]);
    assert_eq!(x.unpack_uint(), Ok(1));
    assert_eq!(x.unpack_bytes(3), Ok(vec![9, 8, 7]));
    assert_eq!(x.cursor(), 8);
}

#[test]
fn varlen_bytes_follow_their_prefix() {
    let mut x = Xdr::new(&[0, 0, 0, 3, 10, 11, 12, 0, 0, 0, 0, 25]);
    assert_eq!(x.unpack_varlen_bytes(), Ok(vec![10, 11, 12]));
    assert_eq!(x.cursor(), 8);
    assert_eq!(x.unpack_uint(), Ok(25));
}

#[test]
fn varlen_bytes_of_length_zero() {
    let mut x = Xdr::new(&[0, 0, 0, 0, 0, 0, 0, 25]);
    assert_eq!(x.unpack_varlen_bytes(), Ok(vec![]));
    assert_eq!(x.cursor(), 4);
    assert_eq!(x.unpack_uint(), Ok(25));
}

#[test]
fn varlen_bytes_with_a_short_prefix_consume_nothing() {
    let mut x = Xdr::new(&[0, 0, 3]);
    assert_eq!(x.unpack_varlen_bytes(), Err(DecodeError::UnexpectedEof));
    assert_eq!(x.cursor(), 0);
}

#[test]
fn varlen_bytes_with_a_short_body_keep_the_prefix_consumed() {
    let mut x = Xdr::new(&[0, 0, 0, 6, 1, 2, 3, 4, 5, 6]);
    assert_eq!(x.unpack_varlen_bytes(), Err(DecodeError::UnexpectedEof));
    assert_eq!(x.cursor(), 4);
}

#[test]
fn varlen_bytes_with_the_largest_prefix_fail() {
    let mut x = Xdr::new(&[0xff, 0xff, 0xff, 0xff, 1, 2, 3, 4]);
    assert_eq!(x.unpack_varlen_bytes(), Err(DecodeError::UnexpectedEof));
    assert_eq!(x.cursor(), 4);
}

#[test]
fn string_then_word() {
    let mut x = Xdr::new(&[0, 0, 0, 4, b'R', b'U', b'S', b'T', 0, 0, 0, 25]);
    assert_eq!(x.unpack_string(), Ok(String::from("RUST")));
    assert_eq!(x.cursor(), 8);
    assert_eq!(x.unpack_uint(), Ok(25));
    let mut x = Xdr::new(&[0, 0, 0, 5, b'R', b'U', b'S', b'T', b'Y', 0, 0, 0, 0, 0, 0, 25]);
    assert_eq!(x.unpack_string(), Ok(String::from("RUSTY")));
    assert_eq!(x.cursor(), 12);
    assert_eq!(x.unpack_uint(), Ok(25));
}

#[test]
fn string_of_several_byte_characters() {
    let text = "h\u{e9}llo \u{4e16}\u{754c} \u{1f980}";
    let body = text.as_bytes();
    let mut buffer = vec![0u8, 0, 0, body.len() as u8];
    buffer.extend_from_slice(body);
    while buffer.len() % 4 != 0 {
        buffer.push(0);
    }
    let mut x = Xdr::new(&buffer);
    assert_eq!(x.unpack_string(), Ok(String::from(text)));
    assert_eq!(x.remaining(), 0);
}

#[test]
fn empty_string() {
    let mut x = Xdr::new(&[0, 0, 0, 0]);
    assert_eq!(x.unpack_string(), Ok(String::new()));
    assert_eq!(x.cursor(), 4);
}

#[test]
fn string_that_is_not_utf8_is_rejected_after_it_is_consumed() {
    let mut x = Xdr::new(&[0, 0, 0, 2, 0xc3, 0x28, 0, 0, 0, 0, 0, 25]);
    assert_eq!(x.unpack_string(), Err(DecodeError::InvalidEncoding));
    assert_eq!(x.cursor(), 8);
    assert_eq!(x.unpack_uint(), Ok(25));
}

#[test]
fn string_with_a_surrogate_or_an_overlong_form_is_rejected() {
    let mut x = Xdr::new(&[0, 0, 0, 3, 0xed, 0xa0, 0x80, 0]);
    assert_eq!(x.unpack_string(), Err(DecodeError::InvalidEncoding));
    let mut x = Xdr::new(&[0, 0, 0, 2, 0xc0, 0x80, 0, 0]);
    assert_eq!(x.unpack_string(), Err(DecodeError::InvalidEncoding));
    let mut x = Xdr::new(&[0, 0, 0, 1, 0x80, 0, 0, 0]);
    assert_eq!(x.unpack_string(), Err(DecodeError::InvalidEncoding));
}

#[test]
fn string_padding_is_no_part_of_the_text() {
    let mut x = Xdr::new(&[0, 0, 0, 1, b'a', 0xff, 0xff, 0xff]);
    assert_eq!(x.unpack_string(), Ok(String::from("a")));
    assert_eq!(x.cursor(), 8);
}

#[test]
fn string_cut_short() {
    let mut x = Xdr::new(&[0, 0]);
    assert_eq!(x.unpack_string(), Err(DecodeError::UnexpectedEof));
    assert_eq!(x.cursor(), 0);
    let mut x = Xdr::new(&[0, 0, 0, 45, 82, 85, 83, 84, 89, 0]);
    assert_eq!(x.unpack_string(), Err(DecodeError::UnexpectedEof));
    assert_eq!(x.cursor(), 4);
}

#[test]
fn array_of_words() {
    let buffer = [0u8, 0, 0, 1, 0, 0, 0, 2, 0, 0, 0, 3];
    let mut x = Xdr::new(&buffer);
    assert_eq!(x.unpack_array::<u32>(3), Ok(vec![1, 2, 3]));
    assert_eq!(x.cursor(), 12);
    let mut x = Xdr::new(&buffer);
    assert_eq!(x.unpack_array::<u32>(4), Err(DecodeError::UnexpectedEof));
    assert_eq!(x.cursor(), 12);
}

#[test]
fn array_reads_only_what_is_asked() {
    let mut x = Xdr::new(&[0, 0, 0, 1, 0, 0, 0, 2, 0, 0, 0, 3]);
    assert_eq!(x.unpack_array::<i32>(2), Ok(vec![1, 2]));
    assert_eq!(x.cursor(), 8);
    assert_eq!(x.unpack_array::<i32>(0), Ok(vec![]));
    assert_eq!(x.cursor(), 8);
    assert_eq!(x.unpack_uint(), Ok(3));
}

#[test]
fn array_of_double_words() {
    let mut x = Xdr::new(&[0, 0, 0, 0, 0, 0, 0, 5, 0xff, 0xff, 0xff, 0xff, 0xff, 0xff, 0xff, 0xfe, 0, 0, 0, 0]);
    assert_eq!(x.unpack_array::<i64>(2), Ok(vec![5, -2]));
    assert_eq!(x.cursor(), 16);
    assert_eq!(x.unpack_array::<u64>(1), Err(DecodeError::UnexpectedEof));
    assert_eq!(x.cursor(), 16);
}

#[test]
fn array_failure_keeps_what_was_consumed() {
    let mut x = Xdr::new(&[0, 0, 0, 0, 0, 0, 0, 1, 0, 0, 0, 5, 0, 0, 0, 1]);
    assert_eq!(x.unpack_array::<bool>(4), Err(DecodeError::InvalidBoolean(5)));
    assert_eq!(x.cursor(), 12);
    assert_eq!(x.unpack_array::<bool>(1), Ok(vec![true]));
}

#[test]
fn array_of_a_huge_count_fails_at_the_first_missing_element() {
    let mut x = Xdr::new(&[0, 0, 0, 1, 0, 0]);
    assert_eq!(x.unpack_array::<u32>(usize::MAX), Err(DecodeError::UnexpectedEof));
    assert_eq!(x.cursor(), 4);
}

#[test]
fn varlen_array_follows_its_prefix() {
    let mut x = Xdr::new(&[0, 0, 0, 3, 0, 0, 0, 1, 0, 0, 0, 2, 0, 0, 0, 3, 0, 0, 0, 4]);
    assert_eq!(x.unpack_varlen_array::<u32>(), Ok(vec![1, 2, 3]));
    assert_eq!(x.cursor(), 16);
    assert_eq!(x.unpack_uint(), Ok(4));
}

#[test]
fn varlen_array_with_too_large_a_count_is_eof() {
    let mut x = Xdr::new(&[0, 0, 0, 10, 0, 0, 0, 1, 0, 0, 0, 2, 0, 0, 0, 3]);
    assert_eq!(x.unpack_varlen_array::<u32>(), Err(DecodeError::UnexpectedEof));
    assert_eq!(x.cursor(), 16);
    let mut x = Xdr::new(&[0xff, 0xff, 0xff, 0xff, 0, 0, 0, 1]);
    assert_eq!(x.unpack_varlen_array::<u32>(), Err(DecodeError::UnexpectedEof));
    assert_eq!(x.cursor(), 8);
}

#[test]
fn varlen_array_with_a_short_prefix_consumes_nothing() {
    let mut x = Xdr::new(&[0, 0, 0]);
    assert_eq!(x.unpack_varlen_array::<u32>(), Err(DecodeError::UnexpectedEof));
    assert_eq!(x.cursor(), 0);
}

#[test]
fn varlen_array_of_count_zero() {
    let mut x = Xdr::new(&[0, 0, 0, 0]);
    assert_eq!(x.unpack_varlen_array::<u64>(), Ok(vec![]));
    assert_eq!(x.cursor(), 4);
}

#[test]
fn cursor_never_moves_back() {
    let buffer = [0u8, 0, 0, 1, 0, 0, 0, 9, 0, 0, 0, 2, b'h', b'i', 0, 0, 0, 0, 0, 2, 0, 0, 0, 7];
    let mut x = Xdr::new(&buffer);
    let mut last = x.cursor();
    assert!(x.unpack_boolean().is_ok());
    assert!(x.cursor() >= last);
    last = x.cursor();
    assert!(x.unpack_boolean().is_err());
    assert!(x.cursor() >= last);
    last = x.cursor();
    assert!(x.unpack_string().is_ok());
    assert!(x.cursor() >= last);
    last = x.cursor();
    assert!(x.unpack_varlen_array::<u32>().is_err());
    assert!(x.cursor() >= last);
    last = x.cursor();
    assert!(x.unpack_ulong().is_err());
    assert_eq!(x.cursor(), last);
    assert!(x.cursor() <= buffer.len());
}

#[test]
fn decoder_reads_a_copy_of_its_input() {
    let mut buffer = vec![0u8, 0, 0, 1];
    let mut x = Xdr::new(&buffer);
    buffer[3] = 2;
    assert_eq!(x.unpack_uint(), Ok(1));
}

#[test]
fn error_messages() {
    assert_eq!(DecodeError::UnexpectedEof.message(), "unexpected end of buffer");
    assert_eq!(DecodeError::InvalidBoolean(20).message(), "boolean values must be 0 or 1");
    assert_eq!(DecodeError::InvalidEncoding.message(), "string is not valid UTF-8");
}
