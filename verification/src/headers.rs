//! Reading request header values as text, and the client address a request
//! is counted against: the first hop that a proxy recorded in
//! `X-Forwarded-For`, else `X-Real-IP`, else `"unknown"`.

use vstd::prelude::*;

verus! {

/// The raw values of the two forwarding headers of a request, where present.
pub struct ForwardingHeaders {
    pub forwarded_for: Option<Vec<u8>>,
    pub real_ip: Option<Vec<u8>>,
}

/// A byte that a header value may hold and still read as text: visible
/// ASCII or a horizontal tab.
pub open spec fn is_visible_ascii(b: u8) -> bool {
    (32 <= b && b < 127) || b == 9
}

/// A header value reads as text when all its bytes are visible ASCII.
pub open spec fn is_header_text(bytes: Seq<u8>) -> bool {
    forall|i: int| 0 <= i < bytes.len() ==> is_visible_ascii(#[trigger] bytes[i])
}

/// The bytes before the first comma.
pub open spec fn first_segment(bytes: Seq<u8>) -> Seq<u8>
    decreases bytes.len(),
{
    if bytes.len() == 0 || bytes[0] == 44 {
        Seq::empty()
    } else {
        seq![bytes[0]] + first_segment(bytes.drop_first())
    }
}

/// A space or a horizontal tab.
pub open spec fn is_blank(b: u8) -> bool {
    b == 32 || b == 9
}

/// `bytes` without its leading blanks.
pub open spec fn trim_start(bytes: Seq<u8>) -> Seq<u8>
    decreases bytes.len(),
{
    if bytes.len() > 0 && is_blank(bytes[0]) {
        trim_start(bytes.drop_first())
    } else {
        bytes
    }
}

/// `bytes` without its trailing blanks.
pub open spec fn trim_end(bytes: Seq<u8>) -> Seq<u8>
    decreases bytes.len(),
{
    if bytes.len() > 0 && is_blank(bytes.last()) {
        trim_end(bytes.drop_last())
    } else {
        bytes
    }
}

/// The characters of ASCII bytes.
pub open spec fn ascii_chars(bytes: Seq<u8>) -> Seq<char> {
    bytes.map_values(|b: u8| b as char)
}

/// The client address of a request with these forwarding headers.
pub open spec fn client_address(headers: ForwardingHeaders) -> Seq<char> {
    match headers.forwarded_for {
        Some(f) if is_header_text(f@) => ascii_chars(trim_end(trim_start(first_segment(f@)))),
        _ => match headers.real_ip {
            Some(r) if is_header_text(r@) => ascii_chars(r@),
            _ => "unknown"@,
        },
    }
}

/// Text made of ASCII bytes.
///
/// Calls `String::from_utf8_lossy`, which hands back the bytes as they are
/// when they are valid UTF-8, as ASCII bytes always are; each byte then
/// becomes the character of the same code.
#[verifier::external_body]
fn ascii_string(bytes: &[u8]) -> (text: String)
    requires
        forall|i: int| 0 <= i < bytes@.len() ==> #[trigger] bytes@[i] < 128,
    ensures
        text@ == ascii_chars(bytes@),
{
    String::from_utf8_lossy(bytes).into_owned()
}

/// Whether every byte reads as header text.
pub fn reads_as_text(bytes: &[u8]) -> (ok: bool)
    ensures
        ok == is_header_text(bytes@),
{
    let mut i: usize = 0;
    while i < bytes.len()
        invariant
            i <= bytes@.len(),
            forall|j: int| 0 <= j < i ==> is_visible_ascii(#[trigger] bytes@[j]),
        decreases bytes.len() - i,
    {
        let b = bytes[i];
        if !((32 <= b && b < 127) || b == 9) {
            return false;
        }
        i = i + 1;
    }
    true
}

/// A header value as text: `None` unless every byte is visible ASCII.
pub fn header_text(value: &[u8]) -> (text: Option<String>)
    ensures
        text is Some <==> is_header_text(value@),
        text matches Some(t) ==> t@ == ascii_chars(value@),
{
    if reads_as_text(value) {
        Some(ascii_string(value))
    } else {
        None
    }
}

proof fn lemma_first_segment(bytes: Seq<u8>, end: int)
    requires
        0 <= end <= bytes.len(),
        forall|j: int| 0 <= j < end ==> bytes[j] != 44,
        end == bytes.len() || bytes[end] == 44,
    ensures
        first_segment(bytes) == bytes.take(end),
    decreases bytes.len(),
{
    if bytes.len() == 0 || bytes[0] == 44 {
        assert(bytes.take(end) =~= Seq::<u8>::empty());
    } else {
        let rest = bytes.drop_first();
        assert forall|j: int| 0 <= j < end - 1 implies rest[j] != 44 by {
            assert(rest[j] == bytes[j + 1]);
        }
        lemma_first_segment(rest, end - 1);
        assert(seq![bytes[0]] + rest.take(end - 1) =~= bytes.take(end));
    }
}

proof fn lemma_trim_start(bytes: Seq<u8>, start: int)
    requires
        0 <= start <= bytes.len(),
        forall|j: int| 0 <= j < start ==> is_blank(bytes[j]),
        start == bytes.len() || !is_blank(bytes[start]),
    ensures
        trim_start(bytes) == bytes.subrange(start, bytes.len() as int),
    decreases bytes.len(),
{
    if bytes.len() > 0 && is_blank(bytes[0]) {
        let rest = bytes.drop_first();
        assert forall|j: int| 0 <= j < start - 1 implies is_blank(rest[j]) by {
            assert(rest[j] == bytes[j + 1]);
        }
        lemma_trim_start(rest, start - 1);
        assert(rest.subrange(start - 1, rest.len() as int) =~= bytes.subrange(start, bytes.len() as int));
    } else {
        assert(bytes.subrange(0, bytes.len() as int) =~= bytes);
    }
}

proof fn lemma_trim_end(bytes: Seq<u8>, end: int)
    requires
        0 <= end <= bytes.len(),
        forall|j: int| end <= j < bytes.len() ==> is_blank(bytes[j]),
        end == 0 || !is_blank(bytes[end - 1]),
    ensures
        trim_end(bytes) == bytes.take(end),
    decreases bytes.len(),
{
    if bytes.len() > 0 && is_blank(bytes.last()) {
        let rest = bytes.drop_last();
        lemma_trim_end(rest, end);
        assert(rest.take(end) =~= bytes.take(end));
    } else {
        assert(bytes.take(bytes.len() as int) =~= bytes);
    }
}

/// The address of the client that sent a request with these headers: the
/// first entry of `X-Forwarded-For` without surrounding blanks when that
/// header reads as text, else `X-Real-IP` when it reads as text, else
/// `"unknown"`.
pub fn extract_client_ip(headers: &ForwardingHeaders) -> (ip: String)
    ensures
        ip@ == client_address(*headers),
{
    if let Some(forwarded) = &headers.forwarded_for {
        let bytes = forwarded.as_slice();
        if reads_as_text(bytes) {
            let mut end: usize = 0;
            while end < bytes.len() && bytes[end] != 44
                invariant
                    end <= bytes@.len(),
                    forall|j: int| 0 <= j < end ==> bytes@[j] != 44,
                decreases bytes.len() - end,
            {
                end = end + 1;
            }
            let mut start: usize = 0;
            while start < end && (bytes[start] == 32 || bytes[start] == 9)
                invariant
                    start <= end <= bytes@.len(),
                    forall|j: int| 0 <= j < start ==> is_blank(#[trigger] bytes@[j]),
                decreases end - start,
            {
                start = start + 1;
            }
            let mut stop: usize = end;
            while stop > start && (bytes[stop - 1] == 32 || bytes[stop - 1] == 9)
                invariant
                    start <= stop <= end <= bytes@.len(),
                    forall|j: int| stop <= j < end ==> is_blank(#[trigger] bytes@[j]),
                decreases stop - start,
            {
                stop = stop - 1;
            }
            let ghost segment = bytes@.take(end as int);
            let ghost trimmed = segment.subrange(start as int, end as int);
            proof {
                lemma_first_segment(bytes@, end as int);
                lemma_trim_start(segment, start as int);
                assert forall|j: int| stop - start <= j < trimmed.len() implies is_blank(
                    trimmed[j],
                ) by {
                    assert(trimmed[j] == bytes@[start + j]);
                }
                lemma_trim_end(trimmed, stop - start);
                assert(trimmed.take(stop - start) =~= bytes@.subrange(start as int, stop as int));
            }
            let piece = slice_range(bytes, start, stop);
            return ascii_string(piece.as_slice());
        }
    }
    if let Some(real_ip) = &headers.real_ip {
        let bytes = real_ip.as_slice();
        if reads_as_text(bytes) {
            return ascii_string(bytes);
        }
    }
    let unknown = String::from_str("unknown");
    proof {
        reveal_strlit("unknown");
    }
    unknown
}

/// The bytes of `bytes` from `start` up to `stop`.
fn slice_range(bytes: &[u8], start: usize, stop: usize) -> (piece: Vec<u8>)
    requires
        start <= stop <= bytes@.len(),
    ensures
        piece@ == bytes@.subrange(start as int, stop as int),
{
    let mut piece: Vec<u8> = Vec::new();
    let mut i: usize = start;
    while i < stop
        invariant
            start <= i <= stop <= bytes@.len(),
            piece@ == bytes@.subrange(start as int, i as int),
        decreases stop - i,
    {
        piece.push(bytes[i]);
        assert(bytes@.subrange(start as int, i + 1) =~= bytes@.subrange(start as int, i as int).push(bytes@[i as int]));
        i = i + 1;
    }
    piece
}

} // verus!
