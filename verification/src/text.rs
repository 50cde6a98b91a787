use vstd::prelude::*;
use vstd::utf8::{decode_utf8, valid_utf8};
use crate::error::{EzpError, EzpErrorView};

verus! {

/// `q` is the first index at or after `start` that holds a zero byte.
pub open spec fn is_first_zero(s: Seq<u8>, start: int, q: int) -> bool {
    &&& start <= q < s.len()
    &&& s[q] == 0
    &&& forall|j: int| start <= j < q ==> s[j] != 0
}

/// The index of the first zero byte at or after `start`, if there is one.
pub open spec fn first_zero(s: Seq<u8>, start: int) -> Option<int> {
    if exists|q: int| is_first_zero(s, start, q) {
        Some(choose|q: int| is_first_zero(s, start, q))
    } else {
        None
    }
}

/// The message of std's UTF-8 error for the invalid byte sequence `bytes`
/// (which tells where the first invalid sequence starts and how long it is).
pub uninterp spec fn utf8_error_message(bytes: Seq<u8>) -> Seq<char>;

/// What decoding `bytes` as UTF-8 text gives.
pub open spec fn utf8_text(bytes: Seq<u8>) -> Result<Seq<char>, EzpErrorView> {
    if valid_utf8(bytes) {
        Ok(decode_utf8(bytes))
    } else {
        Err(EzpErrorView::InvalidUtf8(utf8_error_message(bytes)))
    }
}

/// The characters of a text result, or its error.
pub open spec fn text_view(r: Result<String, EzpError>) -> Result<Seq<char>, EzpErrorView> {
    match r {
        Ok(s) => Ok(s@),
        Err(e) => Err(e@),
    }
}

proof fn lemma_first_zero_is(s: Seq<u8>, start: int, q: int)
    requires
        is_first_zero(s, start, q),
    ensures
        first_zero(s, start) == Some(q),
{
    let c = choose|p: int| is_first_zero(s, start, p);
    assert(is_first_zero(s, start, c));
    if c < q {
        assert(s[c] != 0);
    } else if q < c {
        assert(s[q] != 0);
    }
}

/// The position of the first zero byte in `data` at or after `start`.
pub fn find_zero(data: &[u8], start: usize) -> (r: Option<usize>)
    requires
        start <= data@.len(),
    ensures
        match r {
            Some(q) => first_zero(data@, start as int) == Some(q as int),
            None => first_zero(data@, start as int) is None,
        },
{
    let mut i = start;
    while i < data.len()
        invariant
            start <= i <= data@.len(),
            forall|j: int| start <= j < i ==> data@[j] != 0,
        decreases data@.len() - i,
    {
        if data[i] == 0 {
            proof {
                lemma_first_zero_is(data@, start as int, i as int);
            }
            return Some(i);
        }
        i = i + 1;
    }
    assert(!exists|q: int| is_first_zero(data@, start as int, q)) by {
        assert forall|q: int| !is_first_zero(data@, start as int, q) by {
            if start <= q < data@.len() {
                assert(data@[q] != 0);
            }
        }
    }
    None
}

/// A copy of `data[from..to]`.
pub fn copy_range(data: &[u8], from: usize, to: usize) -> (r: Vec<u8>)
    requires
        from <= to <= data@.len(),
    ensures
        r@ == data@.subrange(from as int, to as int),
{
    let mut r: Vec<u8> = Vec::new();
    let mut i = from;
    while i < to
        invariant
            from <= i <= to <= data@.len(),
            r@ == data@.subrange(from as int, i as int),
        decreases to - i,
    {
        r.push(data[i]);
        i = i + 1;
    }
    r
}

/// Calls `String::from_utf8` of std, which succeeds exactly on valid UTF-8
/// and then holds the decoded characters; on failure it gives the text of
/// std's error, which depends on the bytes alone.
#[verifier::external_body]
fn string_from_utf8(bytes: Vec<u8>) -> (r: Result<String, String>)
    ensures
        r is Ok <==> valid_utf8(bytes@),
        r matches Ok(s) ==> s@ == decode_utf8(bytes@),
        r matches Err(m) ==> m@ == utf8_error_message(bytes@),
{
    match String::from_utf8(bytes) {
        Ok(s) => Ok(s),
        Err(e) => Err(e.to_string()),
    }
}

/// Turns the outcome of a UTF-8 conversion into text or an `InvalidUtf8`
/// error that carries the conversion's message.
pub fn text_or_error(r: Result<String, String>) -> (t: Result<String, EzpError>)
    ensures
        match r {
            Ok(s) => t == Ok::<String, EzpError>(s),
            Err(m) => t == Err::<String, EzpError>(EzpError::InvalidUtf8(m)),
        },
{
    match r {
        Ok(s) => Ok(s),
        Err(m) => Err(EzpError::InvalidUtf8(m)),
    }
}

/// Decodes `bytes` as UTF-8 text.
pub fn decode_text(bytes: Vec<u8>) -> (r: Result<String, EzpError>)
    ensures
        text_view(r) == utf8_text(bytes@),
{
    text_or_error(string_from_utf8(bytes))
}

/// The first zero at or after `start` is the index `q` at or after `start`
/// that holds a zero with no zero between `start` and `q`; where no index at
/// or after `start` holds a zero, there is none.
pub proof fn first_zero_law(s: Seq<u8>, start: int, q: int)
    ensures
        (start <= q < s.len() && s[q] == 0 && forall|j: int| start <= j < q ==> s[j] != 0)
            ==> first_zero(s, start) == Some(q),
        (forall|j: int| start <= j < s.len() ==> s[j] != 0) ==> first_zero(s, start) is None,
{
    if start <= q < s.len() && s[q] == 0 && forall|j: int| start <= j < q ==> s[j] != 0 {
        lemma_first_zero_is(s, start, q);
    }
    if forall|j: int| start <= j < s.len() ==> s[j] != 0 {
        assert forall|p: int| !is_first_zero(s, start, p) by {
            if start <= p < s.len() {
                assert(s[p] != 0);
            }
        }
    }
}

/// Decoding text succeeds exactly on valid UTF-8 and gives the decoded
/// characters; otherwise it is an `InvalidUtf8` error with std's message.
/// A text result's view keeps the text or the error.
pub proof fn text_decoding_law(b: Seq<u8>, s: String, e: EzpError)
    ensures
        valid_utf8(b) ==> utf8_text(b) == Ok::<Seq<char>, EzpErrorView>(decode_utf8(b)),
        !valid_utf8(b) ==> utf8_text(b) == Err::<Seq<char>, EzpErrorView>(
            EzpErrorView::InvalidUtf8(utf8_error_message(b)),
        ),
        text_view(Ok::<String, EzpError>(s)) == Ok::<Seq<char>, EzpErrorView>(s@),
        text_view(Err::<String, EzpError>(e)) == Err::<Seq<char>, EzpErrorView>(e@),
{
}

} // verus!
