//! The error model from outside: retry requirements, catch-all
//! conversions, bounds, spans, context chains and rendering.

use dangerous::bound::Bound;
use dangerous::bytes::Bytes;
use dangerous::context::{ContextChain, ExpectedContext, OperationContext};
use dangerous::context::{Context, ParentContext};
use dangerous::display::{byte_count_string, InputDisplay};
use dangerous::expected::ExpectedInner;
use dangerous::fatal::{Fatal, Invalid};
use dangerous::input;
use dangerous::input::{Input, IntoInput, Private};
use dangerous::reader::Reader;
use dangerous::retry::RetryRequirement;
use dangerous::text::{MaybeString, Text};

fn bytes_input(data: &[u8]) -> Bytes {
    input(data)
}

fn sample_error(data: &'static [u8]) -> dangerous::expected::Expected {
    let mut reader = Reader::new(bytes_input(data));
    reader.consume(b"expected-value").unwrap_err()
}

#[test]
fn retry_requirement_construction() {
    assert!(RetryRequirement::new(0).is_none());
    assert_eq!(RetryRequirement::new(7).unwrap().needed_more(), 7);
    assert_eq!(
        RetryRequirement::from_had_and_needed(2, 5).unwrap().needed_more(),
        3
    );
    // an input that already sufficed needs nothing more
    assert!(RetryRequirement::from_had_and_needed(5, 5).is_none());
    assert!(RetryRequirement::from_had_and_needed(6, 5).is_none());
}

#[test]
fn fatal_forgets_everything() {
    let err = sample_error(b"other");
    let fatal = Fatal::from_expected(err);
    assert!(fatal.is_fatal());
    assert!(fatal.to_retry_requirement().is_none());
    assert_eq!(fatal.to_display_string(), "invalid input");
    assert_eq!(fatal.display().to_display_string(), "invalid input");
}

#[test]
fn invalid_keeps_only_the_requirement() {
    let err = sample_error(b"expected-v");
    let expected_retry = err.to_retry_requirement();
    assert!(expected_retry.is_some());
    let invalid = Invalid::from_expected(err);
    assert_eq!(invalid.to_retry_requirement(), expected_retry);
    assert!(!invalid.is_fatal());
    let fatal_err = sample_error(b"zzz");
    let invalid = Invalid::from_expected(fatal_err);
    assert!(invalid.is_fatal());
}

#[test]
fn retry_extension_changes_the_outcome() {
    // the reported requirement is exactly what lets a re-run succeed
    let mut reader = Reader::new(bytes_input(b"fo"));
    let needed = reader
        .consume(b"foo")
        .unwrap_err()
        .to_retry_requirement()
        .unwrap()
        .needed_more();
    assert_eq!(needed, 1);
    let mut extended = Reader::new(bytes_input(b"foo"));
    assert!(extended.consume(b"foo").is_ok());
    // extending with diverging content yields a fatal error instead
    let mut diverged = Reader::new(bytes_input(b"fox"));
    let err = diverged.consume(b"foo").unwrap_err();
    assert!(err.is_fatal());
    // a fatal error stays fatal under any extension
    let mut still_diverged = Reader::new(bytes_input(b"fxo-and-more"));
    let err = still_diverged.consume(b"foo").unwrap_err();
    assert!(err.to_retry_requirement().is_none());
}

#[test]
fn span_inclusion_in_input() {
    let err = bytes_input(b"abcdef")
        .read_all(|mut r: Reader| {
            let res = r.take(3).and_then(|_| r.consume(b"xyz"));
            (r, res)
        })
        .unwrap_err();
    // the error's span lies within the error's own (widened) input
    let parent = err.input().clone().into_bytes();
    let (lo, hi) = err.span().span_of(&parent).unwrap();
    assert_eq!((lo, hi), (3, 6));
    assert_eq!(err.input().as_dangerous(), b"abcdef");
}

#[test]
fn update_input_widens_only_within() {
    let parent = bytes_input(b"abcd");
    let (_, rest) = parent
        .clone()
        .read_partial(|mut r: Reader| {
            let res = r.take(1);
            (r, res)
        })
        .unwrap();
    let mut reader = Reader::new(rest);
    let mut err = reader.consume(b"zz").unwrap_err();
    assert_eq!(err.input().as_dangerous(), b"bcd");
    err.update_input(&MaybeString::Bytes(parent.clone()));
    assert_eq!(err.input().as_dangerous(), b"abcd");
    // an input the error's own view does not lie within is not taken
    err.update_input(&MaybeString::Bytes(bytes_input(b"zzzz")));
    assert_eq!(err.input().as_dangerous(), b"abcd");
}

#[test]
fn bound_is_idempotent() {
    let once = bytes_input(b"xyz").into_bound();
    let twice = once.clone().into_bound();
    assert_eq!(once.bound(), Bound::Both);
    assert_eq!(twice.bound(), Bound::Both);
    assert_eq!(once.as_dangerous(), twice.as_dangerous());
    assert_eq!(once.start_index(), twice.start_index());
}

#[test]
fn bound_weakening_and_claims() {
    let b = bytes_input(b"xyz");
    assert_eq!(b.bound(), Bound::Start);
    assert!(!b.is_bound());
    let b = b.into_bound();
    assert!(b.is_bound());
    let b = b.into_unbound_end();
    assert_eq!(b.bound(), Bound::Start);
}

#[test]
fn split_heads_are_end_anchored() {
    // the head of a split cannot grow any further: a Start bound
    // strengthens to Both
    let (head, tail) = bytes_input(b"abcd").split_at_opt(2).unwrap();
    assert_eq!(head.bound(), Bound::Both);
    assert_eq!(tail.bound(), Bound::Start);
    assert_eq!(head.as_dangerous(), b"ab");
    assert_eq!(tail.as_dangerous(), b"cd");
    assert!(bytes_input(b"abcd").split_at_opt(9).is_none());
}

#[test]
fn split_prefix_and_first() {
    let (head, tail) = bytes_input(b"prefix-rest").split_prefix(b"prefix", "test").unwrap();
    assert_eq!(head.as_dangerous(), b"prefix");
    assert_eq!(tail.as_dangerous(), b"-rest");
    let err = bytes_input(b"nope").split_prefix(b"prefix", "test").unwrap_err();
    assert!(matches!(err.inner(), ExpectedInner::Value(_)));
    let (token, tail) = bytes_input(b"xy").split_first("test").unwrap();
    assert_eq!(token, b'x');
    assert_eq!(tail.as_dangerous(), b"y");
    let err = bytes_input(b"").split_first("test").unwrap_err();
    assert!(matches!(err.inner(), ExpectedInner::Length(_)));
}

#[test]
fn try_split_while_reports_predicate_errors() {
    let ok = bytes_input(b"aaab").try_split_while(&|b: u8| Ok(b == b'a'), "test");
    let (head, tail) = ok.unwrap();
    assert_eq!(head.as_dangerous(), b"aaa");
    assert_eq!(tail.as_dangerous(), b"b");
    let err = bytes_input(b"abc")
        .try_split_while(
            &|_b: u8| {
                let mut failing = Reader::new(input(b"zzz" as &[u8]));
                Err(failing.consume(b"aaa").unwrap_err())
            },
            "while testing",
        )
        .unwrap_err();
    assert_eq!(err.context().operation(), "while testing");
}

#[test]
fn split_consumed_weakens_unbounded_heads() {
    let (head, tail) = bytes_input(b"numtail").split_consumed(|mut r: Reader| {
        let res = r.take(3);
        (r, res)
    });
    assert_eq!(head.as_dangerous(), b"num");
    assert_eq!(tail.as_dangerous(), b"tail");
    // a Start-bounded input yields a fully bounded consumed head
    assert_eq!(head.bound(), Bound::Both);
}

#[test]
fn split_expect_reports_the_consumed_region() {
    let ok = bytes_input(b"ab").split_expect(
        |mut r: Reader| {
            let res = r.read_u8().ok();
            (r, res)
        },
        "a byte",
        "read one",
    );
    let (value, tail) = ok.unwrap();
    assert_eq!(value, b'a');
    assert_eq!(tail.as_dangerous(), b"b");
    let err = bytes_input(b"ab")
        .split_expect(
            |mut r: Reader| {
                let _ = r.read_u8();
                (r, Option::<u8>::None)
            },
            "something readable",
            "read one",
        )
        .unwrap_err();
    match err.inner() {
        ExpectedInner::Valid(ve) => {
            assert_eq!(ve.context().operation, "read one");
            assert_eq!(ve.context().expected, "something readable");
            assert_eq!(ve.span().as_dangerous(), b"a");
        }
        _ => panic!("expected an invalid-content error"),
    }
}

#[test]
fn try_split_expect_and_erased() {
    let (value, tail) = bytes_input(b"ab")
        .try_split_expect(
            |mut r: Reader| {
                let res = r.read_u8().map(Some);
                (r, res)
            },
            "a byte",
            "read one",
        )
        .unwrap();
    assert_eq!(value, b'a');
    assert_eq!(tail.as_dangerous(), b"b");
    let err = bytes_input(b"ab")
        .try_split_expect_erased(
            |r: Reader| {
                let res: Result<u8, _> = Err(RetryRequirement::new(2));
                (r, res)
            },
            "a longer value",
            "read more",
        )
        .unwrap_err();
    assert_eq!(err.to_retry_requirement().unwrap().needed_more(), 2);
}

#[test]
fn expected_length_description() {
    let err = bytes_input(b"abc")
        .read_all(|mut r: Reader| {
            let res = r.take(2);
            (r, res)
        })
        .unwrap_err();
    assert_eq!(
        err.description(),
        "found 1 byte when at most 0 bytes was expected"
    );
    let mut reader = Reader::new(bytes_input(b"a"));
    let err = reader.take(3).unwrap_err();
    assert_eq!(
        err.description(),
        "found 1 byte when at least 3 bytes was expected"
    );
    let err = sample_error(b"unrelated");
    assert_eq!(
        err.description(),
        "found a different value to the exact expected"
    );
    assert_eq!(err.display().to_display_string(), err.description());
    let details = err.details();
    assert_eq!(details.description, err.description());
    assert_eq!(details.input.as_dangerous(), b"unrelated");
}

#[test]
fn input_display_renders_hex() {
    let display = InputDisplay::new(MaybeString::Bytes(bytes_input(&[0x0A, 0xFF, 0x00])));
    assert_eq!(display.to_display_string(), "[0a ff 00]");
    let display = bytes_input(b"").display();
    assert_eq!(display.to_display_string(), "[]");
}

#[test]
fn byte_counts_render_with_units() {
    assert_eq!(byte_count_string(0), "0 bytes");
    assert_eq!(byte_count_string(1), "1 byte");
    assert_eq!(byte_count_string(42), "42 bytes");
}

#[test]
fn context_chain_walks_root_to_leaf() {
    let chain = ContextChain::new(&ExpectedContext { operation: "read magic", expected: "magic" });
    assert_eq!(chain.operation(), "read magic");
    assert!(chain.child().is_none());
    assert_eq!(chain.consolidated(), 0);
    let chain = chain.with_parent(&OperationContext("decode header"));
    assert_eq!(chain.operation(), "decode header");
    assert_eq!(chain.expected(), None);
    let child = chain.child().unwrap();
    assert_eq!(child.operation, "read magic");
    let nodes = chain.backtrace();
    assert_eq!(nodes.len(), 2);
    assert_eq!(nodes[0].operation, "decode header");
    assert_eq!(nodes[1].operation, "read magic");
    // the context types themselves answer both questions
    assert_eq!(OperationContext("op").operation(), "op");
    assert_eq!(OperationContext("op").expected(), None);
    let ec = ExpectedContext { operation: "op", expected: "thing" };
    assert_eq!(ec.operation(), "op");
    assert_eq!(ec.expected(), Some("thing"));
    assert!(ec.child().is_none());
    assert_eq!(ec.consolidated(), 0);
}

#[test]
fn str_contexts_describe_expectations() {
    let (_, res) = Reader::new(bytes_input(b"ab")).context(&"magic bytes", |mut r: Reader| {
        let res = r.consume(b"xyz");
        (r, res)
    });
    let err = res.unwrap_err();
    let outer = err.context().backtrace()[0];
    assert_eq!(outer.operation, "read");
    assert_eq!(outer.expected, Some("magic bytes"));
}

#[test]
fn split_until_and_consume() {
    let (head, tail) = bytes_input(b"a,b").split_until(&b',', "test").unwrap();
    assert_eq!(head.as_dangerous(), b"a");
    assert_eq!(tail.as_dangerous(), b",b");
    let (head, tail) = bytes_input(b"a,b").split_until_consume(&b',', "test").unwrap();
    assert_eq!(head.as_dangerous(), b"a");
    assert_eq!(tail.as_dangerous(), b"b");
    assert!(bytes_input(b"ab").split_until_opt(&b',').is_none());
    let (head, tail) = bytes_input(b"xxy").split_while_opt(&b'x').unwrap();
    assert_eq!(head.as_dangerous(), b"xx");
    assert_eq!(tail.as_dangerous(), b"y");
    // an empty byte-sequence pattern matches before every byte
    let empty_pattern: Vec<u8> = Vec::new();
    let found = dangerous::pattern::Pattern::find_match(&empty_pattern, &bytes_input(b"abc"));
    assert_eq!(found, Some((0, 0)));
    let err = bytes_input(b"abc").split_until(&b'z', "test").unwrap_err();
    assert!(matches!(err.inner(), ExpectedInner::Value(_)));
}

#[test]
fn try_split_consumed_annotates_errors() {
    let (head, tail) = bytes_input(b"numrest")
        .try_split_consumed(
            |mut r: Reader| {
                let res = r.take(3);
                (r, res)
            },
            "read num",
        )
        .unwrap();
    assert_eq!(head.as_dangerous(), b"num");
    assert_eq!(tail.as_dangerous(), b"rest");
    let err = bytes_input(b"x")
        .try_split_consumed(
            |mut r: Reader| {
                let res = r.take(5);
                (r, res)
            },
            "read num",
        )
        .unwrap_err();
    assert_eq!(err.context().operation(), "read num");
}

#[test]
fn text_validates_utf8() {
    assert!(Text::new(b"\xFF".to_vec(), Bound::Start).is_none());
    let text = Text::new("héllo".as_bytes().to_vec(), Bound::Start).unwrap();
    assert_eq!(text.as_dangerous(), "héllo".as_bytes());
    // splitting inside the two-byte é is refused
    assert!(text.clone().split_at_opt(2).is_none());
    let (head, tail) = text.clone().split_at_opt(3).unwrap();
    assert!(std::str::from_utf8(head.as_dangerous()).is_ok());
    assert!(std::str::from_utf8(tail.as_dangerous()).is_ok());
    assert_eq!(head.as_dangerous(), "hé".as_bytes());
    assert_eq!(tail.as_dangerous(), "llo".as_bytes());
    // the text offers a code-point cursor, readable from either end
    let mut chars = text.chars();
    assert_eq!(chars.next().unwrap().unwrap(), 'h');
    assert_eq!(chars.next().unwrap().unwrap(), 'é');
    assert_eq!(chars.next_back().unwrap().unwrap(), 'o');
}

#[test]
fn input_trait_spans() {
    let parent = bytes_input(&[1, 2, 3, 4]);
    let (value, _rest) = parent
        .clone()
        .read_partial(|mut r: Reader| {
            let res = r.skip(1).and_then(|_| r.take(2));
            (r, res)
        })
        .unwrap();
    assert!(Input::is_within(&value, &parent));
    assert_eq!(Input::span_of(&value, &parent), Some((1, 3)));
    assert!(Input::span_of_non_empty(&value, &parent).is_some());
    let empty = Private::end(parent.clone());
    assert!(Input::span_of_non_empty(&empty, &parent).is_none());
    let foreign = bytes_input(b"unrelated-input");
    assert_eq!(Input::span_of(&foreign, &parent), None);
    assert_eq!(Input::byte_len(&parent), 4);
    assert!(!Input::is_empty(&parent));
    let maybe = parent.clone().into_maybe_string();
    assert!(!maybe.is_string());
    assert_eq!(maybe.byte_len(), 4);
}

#[test]
fn into_input_anchors_the_start() {
    let from_vec: Bytes = vec![9u8, 8, 7].into_input();
    assert_eq!(from_vec.bound(), Bound::Start);
    assert_eq!(from_vec.as_dangerous(), &[9, 8, 7]);
    assert_eq!(from_vec.start_index(), 0);
    // a string enters as text, its bytes already known valid UTF-8
    let from_str: Text = input("héllo");
    assert_eq!(from_str.bound(), Bound::Start);
    assert_eq!(from_str.as_dangerous(), "héllo".as_bytes());
}
