//! UTF-8 decoding of received bytes.
use vstd::prelude::*;
use vstd::string::StringSliceAdditionalSpecFns;
use vstd::utf8::*;

verus! {

/// Why a byte sequence is not UTF-8, as the standard library reports it:
/// the length of its longest valid prefix and, when an invalid sequence
/// (rather than the end of the input) stopped the decoding, that sequence's length.
#[derive(Debug, Clone, Copy, PartialEq, Eq, Structural)]
pub struct Utf8Failure {
    pub valid_up_to: usize,
    pub error_len: Option<usize>,
}

/// What the standard library promises of a failure on `bytes`: `valid_up_to`
/// is the largest length of a prefix of `bytes` that is valid UTF-8; an
/// `error_len` of `Some(len)` is the length (at least one byte) of the invalid
/// sequence that starts there, within `bytes`, and means that no bytes added
/// at the end could make the rest valid; `None` means that the input ended in
/// the middle of a character, one to three bytes after `valid_up_to`, so that
/// some bytes added at the end would complete it.
pub open spec fn reports_failure_of(failure: Utf8Failure, bytes: Seq<u8>) -> bool {
    &&& failure.valid_up_to <= bytes.len()
    &&& valid_utf8(bytes.take(failure.valid_up_to as int))
    &&& forall|j: int| failure.valid_up_to < j <= bytes.len() ==> !valid_utf8(#[trigger] bytes.take(j))
    &&& match failure.error_len {
        Some(len) => {
            &&& 1 <= len
            &&& failure.valid_up_to + len <= bytes.len()
            &&& forall|more: Seq<u8>|
                !valid_utf8(#[trigger] (bytes.skip(failure.valid_up_to as int) + more))
        },
        None => {
            &&& failure.valid_up_to + 1 <= bytes.len() <= failure.valid_up_to + 3
            &&& exists|more: Seq<u8>| valid_utf8(#[trigger] (bytes.skip(failure.valid_up_to as int) + more))
        },
    }
}

/// What `std::str::from_utf8` reports of bytes that are not UTF-8: the
/// `valid_up_to` and `error_len` of its `Utf8Error`.
pub uninterp spec fn utf8_failure(bytes: Seq<u8>) -> (usize, Option<usize>);

/// The failure that `std::str::from_utf8` reports on `bytes`.
pub open spec fn failure_of(bytes: Seq<u8>) -> Utf8Failure {
    Utf8Failure { valid_up_to: utf8_failure(bytes).0, error_len: utf8_failure(bytes).1 }
}

/// Calls `std::str::from_utf8`. Trusted: it succeeds exactly on valid UTF-8,
/// and the `str` it returns is made of the very bytes it was given (so its
/// characters are their decoding); on failure, `Utf8Error::valid_up_to` is
/// the length of the longest valid prefix, and `Utf8Error::error_len` is
/// `None` when the input ended unexpectedly, one to three bytes after that
/// prefix, in a character that more bytes could complete, or else the length
/// of the invalid sequence that starts there, after an unexpected byte, as
/// their documentation says. The failure is a function of the bytes alone,
/// named `utf8_failure`. The documentation gives no upper bound on the
/// length, and none is claimed.
#[verifier::external_body]
fn std_from_utf8(bytes: &[u8]) -> (r: Result<&str, Utf8Failure>)
    ensures
        r is Ok <==> valid_utf8(bytes@),
        r matches Ok(s) ==> s.spec_bytes() == bytes@,
        r matches Err(f) ==> reports_failure_of(f, bytes@),
        r matches Err(f) ==> (f.valid_up_to, f.error_len) == utf8_failure(bytes@),
{
    match std::str::from_utf8(bytes) {
        Ok(s) => Ok(s),
        Err(e) => Err(Utf8Failure { valid_up_to: e.valid_up_to(), error_len: e.error_len() }),
    }
}

/// Decodes `bytes` as UTF-8, failing exactly when they are not UTF-8.
pub fn decode(bytes: &[u8]) -> (r: Result<&str, Utf8Failure>)
    ensures
        r is Ok <==> valid_utf8(bytes@),
        r matches Ok(s) ==> s@ == decode_utf8(bytes@),
        r matches Err(f) ==> reports_failure_of(f, bytes@),
        r matches Err(f) ==> f == failure_of(bytes@),
{
    let r = std_from_utf8(bytes);
    proof {
        if let Ok(s) = r {
            encode_utf8_decode_utf8(s@);
        }
    }
    r
}

/// Encoding a concatenation of characters concatenates their encodings.
pub proof fn lemma_encode_concat(a: Seq<char>, b: Seq<char>)
    ensures
        encode_utf8(a + b) == encode_utf8(a) + encode_utf8(b),
    decreases a.len(),
{
    if a.len() == 0 {
        assert(a + b =~= b);
        assert(encode_utf8(a) =~= Seq::<u8>::empty());
        assert(encode_utf8(a) + encode_utf8(b) =~= encode_utf8(b));
    } else {
        lemma_encode_concat(a.drop_first(), b);
        assert((a + b).drop_first() =~= a.drop_first() + b);
        assert((a + b)[0] == a[0]);
        assert(encode_utf8(a + b) == encode_scalar(a[0] as u32) + encode_utf8(a.drop_first() + b));
        assert(encode_utf8(a) == encode_scalar(a[0] as u32) + encode_utf8(a.drop_first()));
        assert(encode_utf8(a + b) =~= encode_utf8(a) + encode_utf8(b));
    }
}

/// Law: decoding two valid UTF-8 byte sequences one after the other gives
/// the decoding of their concatenation, which is itself valid UTF-8.
pub proof fn lemma_decode_concat(a: Seq<u8>, b: Seq<u8>)
    requires
        valid_utf8(a),
        valid_utf8(b),
    ensures
        valid_utf8(a + b),
        decode_utf8(a + b) == decode_utf8(a) + decode_utf8(b),
{
    decode_utf8_encode_utf8(a);
    decode_utf8_encode_utf8(b);
    lemma_encode_concat(decode_utf8(a), decode_utf8(b));
    valid_utf8_concat(a, b);
    encode_utf8_decode_utf8(decode_utf8(a) + decode_utf8(b));
}

} // verus!
