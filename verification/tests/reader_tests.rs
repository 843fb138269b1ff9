//! The reader's primitives and the end-to-end behavior of whole reads:
//! trailing input, consume mismatches, typed reads, context chains and
//! UTF-8 failures.

use dangerous::bytes::Bytes;
use dangerous::context::OperationContext;
use dangerous::expected::{Expected, ExpectedInner};
use dangerous::input;
use dangerous::reader::Reader;

fn bytes_input(data: &[u8]) -> Bytes {
    input(data)
}

#[test]
fn read_all_trailing_input() {
    let err = bytes_input(b"abc")
        .read_all(|mut r: Reader| {
            let res = r.take(2);
            (r, res)
        })
        .unwrap_err();
    match err.inner() {
        ExpectedInner::Length(le) => {
            assert_eq!(le.min(), 0);
            assert_eq!(le.max(), Some(0));
            assert_eq!(le.exact(), Some(0));
            assert!(le.is_exact());
        }
        _ => panic!("expected a length error"),
    }
    // the span points at the trailing byte of the input
    assert_eq!(err.span().as_dangerous(), b"c");
    assert_eq!(err.span().start_index(), 2);
    // excess input is fatal: no extension can remove the trailing byte
    assert!(err.is_fatal());
    assert!(err.to_retry_requirement().is_none());
}

#[test]
fn consume_mismatch_retryable() {
    // with a fully bounded input the shortfall is final
    let mut bound_reader = Reader::new(bytes_input(b"fo").into_bound());
    let err = bound_reader.consume(b"foo").unwrap_err();
    match err.inner() {
        ExpectedInner::Value(ve) => {
            assert_eq!(ve.expected().as_dangerous(), b"foo");
            assert!(ve.is_fatal());
        }
        _ => panic!("expected a value error"),
    }
    assert!(err.is_fatal());
    assert!(err.to_retry_requirement().is_none());

    // unbound, the same call asks for exactly one more byte
    let mut reader = Reader::new(bytes_input(b"fo"));
    let err = reader.consume(b"foo").unwrap_err();
    let retry = err.to_retry_requirement().unwrap();
    assert_eq!(retry.needed_more(), 1);
    assert!(!err.is_fatal());
}

#[test]
fn consume_mismatch_fatal_on_divergence() {
    let mut reader = Reader::new(bytes_input(b"fxo"));
    let err = reader.consume(b"foo").unwrap_err();
    assert!(err.to_retry_requirement().is_none());
    assert!(err.is_fatal());
}

#[test]
fn primitive_integer() {
    let value = bytes_input(&[0x01, 0x02, 0x03, 0x04])
        .read_all(|mut r: Reader| {
            let res = r.read_u32_be();
            (r, res)
        })
        .unwrap();
    assert_eq!(value, 0x0102_0304);
}

#[test]
fn context_chain() {
    let err = bytes_input(b"ab")
        .into_bound()
        .read_all(|r: Reader| {
            r.context(&OperationContext("decode thing"), |r: Reader| {
                r.context(&OperationContext("expect magic"), |mut r: Reader| {
                    let res = r.consume(b"abc");
                    (r, res)
                })
            })
        })
        .unwrap_err();
    assert!(matches!(err.inner(), ExpectedInner::Value(_)));
    let backtrace = err.context().backtrace();
    assert_eq!(backtrace[0].operation, "read all");
    assert_eq!(backtrace[1].operation, "decode thing");
    assert_eq!(backtrace[2].operation, "expect magic");
    // the innermost node is the failing primitive itself
    assert_eq!(backtrace[3].operation, "consume");
    // the error's input was widened to the whole original view
    assert_eq!(err.input().as_dangerous(), b"ab");
}

#[test]
fn utf8_invalid() {
    let err = bytes_input(b"\xFF\xFE")
        .read_all(|mut r: Reader| {
            let res = r.take_str_while(|_| true);
            (r, res)
        })
        .unwrap_err();
    match err.inner() {
        ExpectedInner::Valid(ve) => {
            assert_eq!(ve.context().expected, "utf-8 code point");
        }
        _ => panic!("expected an invalid-content error"),
    }
    assert!(err.is_fatal());
}

#[test]
fn take_str_while_truncated_is_retryable() {
    // the first three bytes of a four-byte encoding: one more byte may
    // complete it
    let mut reader = Reader::new(bytes_input(b"\xF0\x90\x8D"));
    let err = reader.take_str_while(|_| true).unwrap_err();
    let retry = err.to_retry_requirement().unwrap();
    assert_eq!(retry.needed_more(), 1);
}

#[test]
fn take_str_while_stops_at_predicate() {
    let mut reader = Reader::new(bytes_input("ab1cd".as_bytes()));
    let head = reader.take_str_while(|c| c.is_alphabetic()).unwrap();
    assert_eq!(head.as_dangerous(), b"ab");
    assert_eq!(reader.remaining(), 3);
}

#[test]
fn remaining_is_non_increasing() {
    let mut reader = Reader::new(bytes_input(b"abcdef"));
    let mut last = reader.remaining();
    assert_eq!(last, 6);
    reader.take(2).unwrap();
    assert!(reader.remaining() <= last);
    last = reader.remaining();
    reader.skip(1).unwrap();
    assert!(reader.remaining() <= last);
    last = reader.remaining();
    reader.peek(2).unwrap();
    assert_eq!(reader.remaining(), last);
    reader.take_remaining();
    assert_eq!(reader.remaining(), 0);
    assert!(reader.at_end());
}

#[test]
fn failed_primitives_leave_reader_unmoved() {
    let mut reader = Reader::new(bytes_input(b"abc"));
    assert!(reader.take(4).is_err());
    assert_eq!(reader.remaining(), 3);
    assert!(reader.skip(9).is_err());
    assert_eq!(reader.remaining(), 3);
    assert!(reader.consume(b"xyz").is_err());
    assert_eq!(reader.remaining(), 3);
    assert!(reader.read_u32_be().is_err());
    assert_eq!(reader.remaining(), 3);
    assert_eq!(reader.take_remaining().as_dangerous(), b"abc");
}

#[test]
fn peek_and_take_and_skip() {
    let mut reader = Reader::new(bytes_input(b"hello"));
    assert_eq!(reader.peek(2).unwrap().as_dangerous(), b"he");
    assert_eq!(reader.peek_opt(2).unwrap().as_dangerous(), b"he");
    assert!(reader.peek_opt(9).is_none());
    assert_eq!(reader.take(2).unwrap().as_dangerous(), b"he");
    reader.skip(1).unwrap();
    assert_eq!(reader.take_remaining().as_dangerous(), b"lo");
}

#[test]
fn consume_opt_advances_only_on_match() {
    let mut reader = Reader::new(bytes_input(b"abcd"));
    assert!(!reader.consume_opt(b"zz"));
    assert_eq!(reader.remaining(), 4);
    assert!(reader.consume_opt(b"ab"));
    assert_eq!(reader.take_remaining().as_dangerous(), b"cd");
}

#[test]
fn read_u8_and_i8() {
    let mut reader = Reader::new(bytes_input(&[0xFF, 0x7F]));
    assert_eq!(reader.read_u8().unwrap(), 0xFF);
    assert_eq!(reader.read_i8().unwrap(), 0x7F);
    assert!(reader.read_u8().is_err());
}

#[test]
fn typed_reads_every_width() {
    let mut r = Reader::new(bytes_input(&[0x01, 0x02]));
    assert_eq!(r.read_u16_le().unwrap(), 0x0201);
    let mut r = Reader::new(bytes_input(&[0x01, 0x02]));
    assert_eq!(r.read_u16_be().unwrap(), 0x0102);
    let mut r = Reader::new(bytes_input(&[0x01, 0x02, 0x03, 0x04]));
    assert_eq!(r.read_u32_le().unwrap(), 0x0403_0201);
    let mut r = Reader::new(bytes_input(&[1, 2, 3, 4, 5, 6, 7, 8]));
    assert_eq!(r.read_u64_be().unwrap(), 0x0102_0304_0506_0708);
    let mut r = Reader::new(bytes_input(&[1, 2, 3, 4, 5, 6, 7, 8]));
    assert_eq!(r.read_u64_le().unwrap(), 0x0807_0605_0403_0201);
    let mut r = Reader::new(bytes_input(&[0xFF; 16]));
    assert_eq!(r.read_u128_le().unwrap(), u128::MAX);
    let mut r = Reader::new(bytes_input(&[0xFF, 0xFF]));
    assert_eq!(r.read_i16_be().unwrap(), -1);
    let mut r = Reader::new(bytes_input(&[0x80, 0, 0, 0]));
    assert_eq!(r.read_i32_be().unwrap(), i32::MIN);
    let mut r = Reader::new(bytes_input(&[0xFF; 8]));
    assert_eq!(r.read_i64_le().unwrap(), -1);
    let mut r = Reader::new(bytes_input(&[0xFF; 16]));
    assert_eq!(r.read_i128_be().unwrap(), -1);
    let mut r = Reader::new(bytes_input(&[0x01, 0x02, 0x03, 0x04]));
    assert_eq!(r.read_u32_be().unwrap(), 0x0102_0304);
    let mut r = Reader::new(bytes_input(&[0x01]));
    assert!(r.read_u16_le().is_err());
    let mut r = Reader::new(bytes_input(&[0xFE, 0xFF]));
    assert_eq!(r.read_i16_le().unwrap(), -2);
    let mut r = Reader::new(bytes_input(&[0x01, 0, 0, 0]));
    assert_eq!(r.read_i32_le().unwrap(), 1);
    let mut r = Reader::new(bytes_input(&[0, 0, 0, 0, 0, 0, 0, 0x2A]));
    assert_eq!(r.read_i64_be().unwrap(), 42);
    let mut r = Reader::new(bytes_input(&[0x2A; 16]));
    assert!(r.read_i128_le().is_ok());
    let mut r = Reader::new(bytes_input(&[0xAB; 16]));
    assert!(r.read_u128_be().is_ok());
}

#[test]
fn numeric_reads_round_trip() {
    for &v in &[0u32, 1, 0xDEAD_BEEF, u32::MAX] {
        let mut r = Reader::new(bytes_input(&v.to_le_bytes()));
        assert_eq!(r.read_u32_le().unwrap(), v);
        let mut r = Reader::new(bytes_input(&v.to_be_bytes()));
        assert_eq!(r.read_u32_be().unwrap(), v);
    }
    for &v in &[0u16, 515, u16::MAX] {
        let mut r = Reader::new(bytes_input(&v.to_le_bytes()));
        assert_eq!(r.read_u16_le().unwrap(), v);
        let mut r = Reader::new(bytes_input(&v.to_be_bytes()));
        assert_eq!(r.read_u16_be().unwrap(), v);
    }
    for &v in &[0u64, 77, u64::MAX] {
        let mut r = Reader::new(bytes_input(&v.to_le_bytes()));
        assert_eq!(r.read_u64_le().unwrap(), v);
        let mut r = Reader::new(bytes_input(&v.to_be_bytes()));
        assert_eq!(r.read_u64_be().unwrap(), v);
    }
    for &v in &[0u128, 9, u128::MAX] {
        let mut r = Reader::new(bytes_input(&v.to_le_bytes()));
        assert_eq!(r.read_u128_le().unwrap(), v);
        let mut r = Reader::new(bytes_input(&v.to_be_bytes()));
        assert_eq!(r.read_u128_be().unwrap(), v);
    }
    for &v in &[i32::MIN, -1, 0, 1, i32::MAX] {
        let mut r = Reader::new(bytes_input(&v.to_le_bytes()));
        assert_eq!(r.read_i32_le().unwrap(), v);
        let mut r = Reader::new(bytes_input(&v.to_be_bytes()));
        assert_eq!(r.read_i32_be().unwrap(), v);
    }
    for &v in &[i16::MIN, -2, 7, i16::MAX] {
        let mut r = Reader::new(bytes_input(&v.to_le_bytes()));
        assert_eq!(r.read_i16_le().unwrap(), v);
        let mut r = Reader::new(bytes_input(&v.to_be_bytes()));
        assert_eq!(r.read_i16_be().unwrap(), v);
    }
    for &v in &[i64::MIN, -3, i64::MAX] {
        let mut r = Reader::new(bytes_input(&v.to_le_bytes()));
        assert_eq!(r.read_i64_le().unwrap(), v);
        let mut r = Reader::new(bytes_input(&v.to_be_bytes()));
        assert_eq!(r.read_i64_be().unwrap(), v);
    }
    for &v in &[i128::MIN, -4, i128::MAX] {
        let mut r = Reader::new(bytes_input(&v.to_le_bytes()));
        assert_eq!(r.read_i128_le().unwrap(), v);
        let mut r = Reader::new(bytes_input(&v.to_be_bytes()));
        assert_eq!(r.read_i128_be().unwrap(), v);
    }
}

#[test]
fn verify_accepts_and_rejects() {
    let mut reader = Reader::new(bytes_input(b"abc"));
    reader
        .verify("lowercase start", 1, |b: Bytes| b.as_dangerous()[0].is_ascii_lowercase())
        .unwrap();
    assert_eq!(reader.remaining(), 2);
    let err = reader
        .verify("uppercase next", 1, |b: Bytes| b.as_dangerous()[0].is_ascii_uppercase())
        .unwrap_err();
    assert!(matches!(err.inner(), ExpectedInner::Valid(_)));
    assert_eq!(reader.remaining(), 2);
}

#[test]
fn recover_restores_state() {
    let reader = Reader::new(bytes_input(b"abc"));
    let (mut reader, value) = reader.recover(|mut r: Reader| {
        let res = r.take(9);
        (r, res)
    });
    assert!(value.is_none());
    assert_eq!(reader.remaining(), 3);
    let (value, rest) = reader.take_remaining().read_infallible(|mut r: Reader| {
        let v = r.take_remaining();
        (r, v)
    });
    assert_eq!(value.as_dangerous(), b"abc");
    assert_eq!(rest.as_dangerous(), b"");
}

#[test]
fn recover_if_classifies_errors(){
    let reader = Reader::new(bytes_input(b"abc"));
    let (reader, res) = reader.recover_if(
        |mut r: Reader| {
            let res = r.take(9);
            (r, res)
        },
        |e: &Expected| e.to_retry_requirement().is_some(),
    );
    assert!(res.unwrap().is_none());
    let (_, res) = reader.recover_if(
        |mut r: Reader| {
            let res = r.consume(b"zzz");
            (r, res)
        },
        |e: &Expected| e.to_retry_requirement().is_some(),
    );
    assert!(res.is_err());
}

#[test]
fn take_while_and_until_with_patterns() {
    let mut reader = Reader::new(bytes_input(b"aaabcd"));
    let head = reader.take_while(&b'a');
    assert_eq!(head.as_dangerous(), b"aaa");
    let head = reader.take_until(&b'c').unwrap();
    assert_eq!(head.as_dangerous(), b"b");
    // the match itself is not consumed
    assert_eq!(reader.remaining(), 2);
    let mut reader = Reader::new(bytes_input(b"key=value"));
    let key = reader.take_until_consume(&b'=').unwrap();
    assert_eq!(key.as_dangerous(), b"key");
    assert_eq!(reader.take_remaining().as_dangerous(), b"value");
    let mut reader = Reader::new(bytes_input(b"abab--rest"));
    let head = reader.take_while(&b"ab".to_vec());
    assert_eq!(head.as_dangerous(), b"abab");
    let mut reader = Reader::new(bytes_input(b"head##tail"));
    let head = reader.take_until(&b"##".to_vec()).unwrap();
    assert_eq!(head.as_dangerous(), b"head");
    let err = reader.take_until(&b"@@".to_vec()).unwrap_err();
    assert!(err.is_fatal() || err.to_retry_requirement().is_some());
}

#[test]
fn read_partial_returns_the_rest() {
    let (value, rest) = bytes_input(b"numtail")
        .read_partial(|mut r: Reader| {
            let res = r.take(3);
            (r, res)
        })
        .unwrap();
    assert_eq!(value.as_dangerous(), b"num");
    assert_eq!(rest.as_dangerous(), b"tail");
}

#[test]
fn bounded_take_is_fatal() {
    let err = bytes_input(b"1234")
        .into_bound()
        .read_partial(|mut r: Reader| {
            let res = r.take(5);
            (r, res)
        })
        .unwrap_err();
    // if the input was not bound, this would not be fatal
    assert!(err.is_fatal());
    assert!(err.to_retry_requirement().is_none());
    let err = bytes_input(b"1234")
        .read_partial(|mut r: Reader| {
            let res = r.take(5);
            (r, res)
        })
        .unwrap_err();
    assert_eq!(err.to_retry_requirement().unwrap().needed_more(), 1);
}
