//! The binary codec: little-endian variable-length integers, length-prefixed
//! byte strings and lists. It is the one encoding used for hashing, storage and
//! the wire, so equal values always give equal bytes.

use vstd::prelude::*;

verus! {

/// `v` without its `k` lowest bytes.
pub open spec fn drop_low_bytes(v: u64, k: nat) -> u64 {
    if k == 0 {
        v
    } else if k == 1 {
        v / 256
    } else if k == 2 {
        v / 256 / 256
    } else if k == 3 {
        v / 256 / 256 / 256
    } else if k == 4 {
        v / 256 / 256 / 256 / 256
    } else if k == 5 {
        v / 256 / 256 / 256 / 256 / 256
    } else if k == 6 {
        v / 256 / 256 / 256 / 256 / 256 / 256
    } else {
        v / 256 / 256 / 256 / 256 / 256 / 256 / 256
    }
}

/// Byte `k` (from the low end) of `v`.
pub open spec fn le_byte(v: u64, k: nat) -> u8 {
    (drop_low_bytes(v, k) % 256) as u8
}

/// The encoding of an unsigned integer: one byte up to 250, else a marker
/// (251, 252 or 253) and the value in 2, 4 or 8 little-endian bytes.
#[verifier::opaque]
pub open spec fn spec_encode_u64(v: u64) -> Seq<u8> {
    if v <= 250 {
        seq![v as u8]
    } else if v <= 0xffff {
        seq![251u8, le_byte(v, 0), le_byte(v, 1)]
    } else if v <= 0xffff_ffff {
        seq![252u8, le_byte(v, 0), le_byte(v, 1), le_byte(v, 2), le_byte(v, 3)]
    } else {
        seq![
            253u8,
            le_byte(v, 0),
            le_byte(v, 1),
            le_byte(v, 2),
            le_byte(v, 3),
            le_byte(v, 4),
            le_byte(v, 5),
            le_byte(v, 6),
            le_byte(v, 7),
        ]
    }
}

/// The value of the 2, 4 or 8 little-endian bytes that follow a marker.
pub open spec fn le_value(bytes: Seq<u8>, width: int) -> int {
    if width == 2 {
        bytes[1] + 256 * bytes[2]
    } else if width == 4 {
        bytes[1] + 256 * (bytes[2] + 256 * (bytes[3] + 256 * bytes[4]))
    } else {
        bytes[1] + 256 * (bytes[2] + 256 * (bytes[3] + 256 * (bytes[4] + 256 * (bytes[5] + 256 * (
        bytes[6] + 256 * (bytes[7] + 256 * bytes[8]))))))
    }
}

/// Reads an unsigned integer from the front of `bytes`: the value and what
/// follows it. A value need not be encoded in its shortest form to be read.
#[verifier::opaque]
pub open spec fn spec_parse_u64(bytes: Seq<u8>) -> Option<(u64, Seq<u8>)> {
    if bytes.len() == 0 {
        None
    } else if bytes[0] <= 250 {
        Some((bytes[0] as u64, bytes.skip(1)))
    } else if bytes[0] == 251 && bytes.len() >= 3 {
        Some((le_value(bytes, 2) as u64, bytes.skip(3)))
    } else if bytes[0] == 252 && bytes.len() >= 5 {
        Some((le_value(bytes, 4) as u64, bytes.skip(5)))
    } else if bytes[0] == 253 && bytes.len() >= 9 {
        Some((le_value(bytes, 8) as u64, bytes.skip(9)))
    } else {
        None
    }
}

/// The bytes of `v`, lowest first, add up to `v`.
proof fn lemma_le_bytes_sum(v: u64)
    ensures
        v <= 0xffff ==> v == le_byte(v, 0) + 256 * le_byte(v, 1),
        v <= 0xffff_ffff ==> v == le_byte(v, 0) + 256 * (le_byte(v, 1) + 256 * (le_byte(v, 2) + 256
            * le_byte(v, 3))),
        v == le_byte(v, 0) + 256 * (le_byte(v, 1) + 256 * (le_byte(v, 2) + 256 * (le_byte(v, 3)
            + 256 * (le_byte(v, 4) + 256 * (le_byte(v, 5) + 256 * (le_byte(v, 6) + 256 * le_byte(
            v,
            7,
        ))))))),
{
    let q1 = v / 256;
    let q2 = q1 / 256;
    let q3 = q2 / 256;
    let q4 = q3 / 256;
    let q5 = q4 / 256;
    let q6 = q5 / 256;
    let q7 = q6 / 256;
    assert(q7 < 256);
    assert(q6 == q6 % 256 + 256 * q7);
    assert(q5 == q5 % 256 + 256 * q6);
    assert(q4 == q4 % 256 + 256 * q5);
    assert(q3 == q3 % 256 + 256 * q4);
    assert(q2 == q2 % 256 + 256 * q3);
    assert(q1 == q1 % 256 + 256 * q2);
    assert(v == v % 256 + 256 * q1);
    if v <= 0xffff_ffff {
        assert(q4 == 0);
    }
    if v <= 0xffff {
        assert(q2 == 0);
    }
}

/// Reading what `spec_encode_u64` wrote gives the value back and leaves what
/// followed it.
pub proof fn lemma_u64_round_trip(v: u64, rest: Seq<u8>)
    ensures
        spec_parse_u64(spec_encode_u64(v) + rest) == Some((v, rest)),
{
    reveal(spec_encode_u64);
    reveal(spec_parse_u64);
    let enc = spec_encode_u64(v);
    let all = enc + rest;
    assert(all.skip(enc.len() as int) =~= rest);
    lemma_le_bytes_sum(v);
    if v <= 250 {
    } else if v <= 0xffff {
        assert(all[1] == le_byte(v, 0) && all[2] == le_byte(v, 1));
    } else if v <= 0xffff_ffff {
        assert(all[1] == le_byte(v, 0) && all[2] == le_byte(v, 1) && all[3] == le_byte(v, 2)
            && all[4] == le_byte(v, 3));
    } else {
        assert(all[1] == le_byte(v, 0) && all[2] == le_byte(v, 1) && all[3] == le_byte(v, 2)
            && all[4] == le_byte(v, 3));
        assert(all[5] == le_byte(v, 4) && all[6] == le_byte(v, 5) && all[7] == le_byte(v, 6)
            && all[8] == le_byte(v, 7));
    }
}

/// The unsigned integer that stands for a signed one: `2n` for `n >= 0`,
/// `-2n - 1` for `n < 0`.
pub open spec fn spec_zigzag(n: i64) -> u64 {
    if n >= 0 {
        (2 * n) as u64
    } else {
        (-2 * n - 1) as u64
    }
}

/// The signed integer that an unsigned one stands for.
pub open spec fn spec_unzigzag(u: u64) -> i64 {
    if u % 2 == 0 {
        (u / 2) as i64
    } else {
        (-((u / 2) as int) - 1) as i64
    }
}

/// The encoding of a signed integer.
pub open spec fn spec_encode_i64(n: i64) -> Seq<u8> {
    spec_encode_u64(spec_zigzag(n))
}

/// Reads a signed integer from the front of `bytes`.
pub open spec fn spec_parse_i64(bytes: Seq<u8>) -> Option<(i64, Seq<u8>)> {
    match spec_parse_u64(bytes) {
        Some((u, rest)) => Some((spec_unzigzag(u), rest)),
        None => None,
    }
}

/// Reading what `spec_encode_i64` wrote gives the value back.
pub proof fn lemma_i64_round_trip(n: i64, rest: Seq<u8>)
    ensures
        spec_parse_i64(spec_encode_i64(n) + rest) == Some((n, rest)),
{
    lemma_u64_round_trip(spec_zigzag(n), rest);
}

/// The encoding of a byte string: its length, then the bytes.
pub open spec fn spec_encode_bytes(data: Seq<u8>) -> Seq<u8> {
    spec_encode_u64(data.len() as u64) + data
}

/// Reads a byte string from the front of `bytes`.
pub open spec fn spec_parse_bytes(bytes: Seq<u8>) -> Option<(Seq<u8>, Seq<u8>)> {
    match spec_parse_u64(bytes) {
        Some((n, rest)) => if n <= rest.len() {
            Some((rest.take(n as int), rest.skip(n as int)))
        } else {
            None
        },
        None => None,
    }
}

/// Reading what `spec_encode_bytes` wrote gives the bytes back.
pub proof fn lemma_bytes_round_trip(data: Seq<u8>, rest: Seq<u8>)
    requires
        data.len() <= u64::MAX,
    ensures
        spec_parse_bytes(spec_encode_bytes(data) + rest) == Some((data, rest)),
{
    let n = data.len() as u64;
    lemma_u64_round_trip(n, data + rest);
    assert(spec_encode_bytes(data) + rest =~= spec_encode_u64(n) + (data + rest));
    assert((data + rest).take(n as int) =~= data);
    assert((data + rest).skip(n as int) =~= rest);
}

/// Four parts and what follows them, joined from the right.
pub proof fn lemma_join4(a: Seq<u8>, b: Seq<u8>, c: Seq<u8>, d: Seq<u8>, rest: Seq<u8>)
    ensures
        (a + b + c + d) + rest == a + (b + (c + (d + rest))),
{
    assert((a + b + c + d) + rest =~= a + (b + (c + (d + rest))));
}

/// An encoded integer has at least one byte.
pub proof fn lemma_encode_u64_len(v: u64)
    ensures
        1 <= spec_encode_u64(v).len() <= 9,
{
    reveal(spec_encode_u64);
}

/// The encodings of the items of `items`, one after the other.
pub open spec fn spec_encode_items<T>(items: Seq<T>, enc: spec_fn(T) -> Seq<u8>) -> Seq<u8>
    decreases items.len(),
{
    if items.len() == 0 {
        Seq::empty()
    } else {
        spec_encode_items(items.drop_last(), enc) + enc(items.last())
    }
}

/// Reads `count` items from the front of `bytes`, each with `parse`.
pub open spec fn spec_parse_items<T>(
    bytes: Seq<u8>,
    count: nat,
    parse: spec_fn(Seq<u8>) -> Option<(T, Seq<u8>)>,
) -> Option<(Seq<T>, Seq<u8>)>
    decreases count,
{
    if count == 0 {
        Some((Seq::empty(), bytes))
    } else {
        match spec_parse_items(bytes, (count - 1) as nat, parse) {
            Some((items, rest)) => match parse(rest) {
                Some((item, after)) => Some((items.push(item), after)),
                None => None,
            },
            None => None,
        }
    }
}

/// The encoding of a list: its length, then its items.
pub open spec fn spec_encode_list<T>(items: Seq<T>, enc: spec_fn(T) -> Seq<u8>) -> Seq<u8> {
    spec_encode_u64(items.len() as u64) + spec_encode_items(items, enc)
}

/// Reads a list from the front of `bytes`.
pub open spec fn spec_parse_list<T>(
    bytes: Seq<u8>,
    parse: spec_fn(Seq<u8>) -> Option<(T, Seq<u8>)>,
) -> Option<(Seq<T>, Seq<u8>)> {
    match spec_parse_u64(bytes) {
        Some((n, rest)) => spec_parse_items(rest, n as nat, parse),
        None => None,
    }
}

/// Whether `parse` gives back every item that `enc` wrote, whatever follows.
pub open spec fn inverse_on<T>(
    items: Seq<T>,
    enc: spec_fn(T) -> Seq<u8>,
    parse: spec_fn(Seq<u8>) -> Option<(T, Seq<u8>)>,
) -> bool {
    forall|i: int, rest: Seq<u8>|
        0 <= i < items.len() ==> #[trigger] parse(enc(items[i]) + rest) == Some((items[i], rest))
}

/// Where each item is read back, so are all of them in a row.
pub proof fn lemma_items_round_trip<T>(
    items: Seq<T>,
    rest: Seq<u8>,
    enc: spec_fn(T) -> Seq<u8>,
    parse: spec_fn(Seq<u8>) -> Option<(T, Seq<u8>)>,
)
    requires
        inverse_on(items, enc, parse),
    ensures
        spec_parse_items(spec_encode_items(items, enc) + rest, items.len(), parse) == Some(
            (items, rest),
        ),
    decreases items.len(),
{
    if items.len() == 0 {
        assert(spec_encode_items(items, enc) + rest =~= rest);
        assert(items =~= Seq::<T>::empty());
    } else {
        let front = items.drop_last();
        let last = items.last();
        assert forall|i: int, r: Seq<u8>| 0 <= i < front.len() implies #[trigger] parse(
            enc(front[i]) + r,
        ) == Some((front[i], r)) by {
            assert(front[i] == items[i]);
        }
        lemma_items_round_trip(front, enc(last) + rest, enc, parse);
        assert(spec_encode_items(items, enc) + rest =~= spec_encode_items(front, enc) + (enc(last)
            + rest));
        assert(items[items.len() - 1] == last);
        assert(parse(enc(last) + rest) == Some((last, rest)));
        assert(front.push(last) =~= items);
    }
}

/// Reading what `spec_encode_list` wrote gives the list back.
pub proof fn lemma_list_round_trip<T>(
    items: Seq<T>,
    rest: Seq<u8>,
    enc: spec_fn(T) -> Seq<u8>,
    parse: spec_fn(Seq<u8>) -> Option<(T, Seq<u8>)>,
)
    requires
        items.len() <= u64::MAX,
        inverse_on(items, enc, parse),
    ensures
        spec_parse_list(spec_encode_list(items, enc) + rest, parse) == Some((items, rest)),
{
    let n = items.len() as u64;
    let body = spec_encode_items(items, enc);
    lemma_u64_round_trip(n, body + rest);
    assert(spec_encode_list(items, enc) + rest =~= spec_encode_u64(n) + (body + rest));
    lemma_items_round_trip(items, rest, enc, parse);
}

/// One more item extends the encoding of a prefix.
pub proof fn lemma_encode_items_step<T>(items: Seq<T>, i: int, enc: spec_fn(T) -> Seq<u8>)
    requires
        0 <= i < items.len(),
    ensures
        spec_encode_items(items.take(i + 1), enc) == spec_encode_items(items.take(i), enc) + enc(
            items[i],
        ),
{
    assert(items.take(i + 1).drop_last() =~= items.take(i));
    assert(items.take(i + 1).last() == items[i]);
}

/// Appends the encoding of `v` to `out`.
pub fn encode_u64(v: u64, out: &mut Vec<u8>)
    ensures
        final(out)@ == old(out)@ + spec_encode_u64(v),
{
    reveal(spec_encode_u64);
    if v <= 250 {
        out.push(v as u8);
    } else if v <= 0xffff {
        let q1: u64 = v / 256;
        out.push(251);
        out.push((v % 256) as u8);
        out.push((q1 % 256) as u8);
    } else if v <= 0xffff_ffff {
        let q1: u64 = v / 256;
        let q2: u64 = q1 / 256;
        let q3: u64 = q2 / 256;
        out.push(252);
        out.push((v % 256) as u8);
        out.push((q1 % 256) as u8);
        out.push((q2 % 256) as u8);
        out.push((q3 % 256) as u8);
    } else {
        let q1: u64 = v / 256;
        let q2: u64 = q1 / 256;
        let q3: u64 = q2 / 256;
        let q4: u64 = q3 / 256;
        let q5: u64 = q4 / 256;
        let q6: u64 = q5 / 256;
        let q7: u64 = q6 / 256;
        out.push(253);
        out.push((v % 256) as u8);
        out.push((q1 % 256) as u8);
        out.push((q2 % 256) as u8);
        out.push((q3 % 256) as u8);
        out.push((q4 % 256) as u8);
        out.push((q5 % 256) as u8);
        out.push((q6 % 256) as u8);
        out.push((q7 % 256) as u8);
    }
    assert(out@ =~= old(out)@ + spec_encode_u64(v));
}

/// What a decoder returns: the value and the position after it, where the
/// bytes from `pos` on parse, and `None` where they do not.
pub open spec fn decoded_as<T>(
    out: Option<(T, usize)>,
    bytes: Seq<u8>,
    pos: usize,
    parsed: Option<(T, Seq<u8>)>,
) -> bool {
    match parsed {
        Some((value, rest)) => out is Some && out->Some_0.0 == value && pos <= out->Some_0.1
            <= bytes.len() && bytes.skip(out->Some_0.1 as int) == rest,
        None => out is None,
    }
}

/// Reads an unsigned integer at `pos`.
pub fn decode_u64(bytes: &[u8], pos: usize) -> (out: Option<(u64, usize)>)
    requires
        pos <= bytes@.len(),
    ensures
        decoded_as(out, bytes@, pos, spec_parse_u64(bytes@.skip(pos as int))),
{
    reveal(spec_parse_u64);
    let ghost tail = bytes@.skip(pos as int);
    let len = bytes.len();
    if pos >= len {
        return None;
    }
    let left = len - pos;
    let tag = bytes[pos];
    assert(tail[0] == tag);
    if tag <= 250 {
        assert(bytes@.skip(pos + 1) =~= tail.skip(1));
        Some((tag as u64, pos + 1))
    } else if tag == 251 && left >= 3 {
        assert(tail[1] == bytes@[pos + 1] && tail[2] == bytes@[pos + 2]);
        assert(bytes@.skip(pos + 3) =~= tail.skip(3));
        let v: u64 = bytes[pos + 1] as u64 + 256 * (bytes[pos + 2] as u64);
        Some((v, pos + 3))
    } else if tag == 252 && left >= 5 {
        assert(tail[1] == bytes@[pos + 1] && tail[2] == bytes@[pos + 2] && tail[3] == bytes@[pos
            + 3] && tail[4] == bytes@[pos + 4]);
        assert(bytes@.skip(pos + 5) =~= tail.skip(5));
        let h3: u64 = bytes[pos + 3] as u64 + 256 * (bytes[pos + 4] as u64);
        let h2: u64 = bytes[pos + 2] as u64 + 256 * h3;
        let v: u64 = bytes[pos + 1] as u64 + 256 * h2;
        Some((v, pos + 5))
    } else if tag == 253 && left >= 9 {
        assert(tail[1] == bytes@[pos + 1] && tail[2] == bytes@[pos + 2] && tail[3] == bytes@[pos
            + 3] && tail[4] == bytes@[pos + 4]);
        assert(tail[5] == bytes@[pos + 5] && tail[6] == bytes@[pos + 6] && tail[7] == bytes@[pos
            + 7] && tail[8] == bytes@[pos + 8]);
        assert(bytes@.skip(pos + 9) =~= tail.skip(9));
        let h7: u64 = bytes[pos + 7] as u64 + 256 * (bytes[pos + 8] as u64);
        let h6: u64 = bytes[pos + 6] as u64 + 256 * h7;
        let h5: u64 = bytes[pos + 5] as u64 + 256 * h6;
        let h4: u64 = bytes[pos + 4] as u64 + 256 * h5;
        let h3: u64 = bytes[pos + 3] as u64 + 256 * h4;
        let h2: u64 = bytes[pos + 2] as u64 + 256 * h3;
        let v: u64 = bytes[pos + 1] as u64 + 256 * h2;
        Some((v, pos + 9))
    } else {
        None
    }
}

/// Appends the encoding of `n` to `out`.
pub fn encode_i64(n: i64, out: &mut Vec<u8>)
    ensures
        final(out)@ == old(out)@ + spec_encode_i64(n),
{
    let u: u64 = if n >= 0 {
        2 * (n as u64)
    } else {
        2 * ((-(n + 1)) as u64) + 1
    };
    encode_u64(u, out);
}

/// Reads a signed integer at `pos`.
pub fn decode_i64(bytes: &[u8], pos: usize) -> (out: Option<(i64, usize)>)
    requires
        pos <= bytes@.len(),
    ensures
        decoded_as(out, bytes@, pos, spec_parse_i64(bytes@.skip(pos as int))),
{
    match decode_u64(bytes, pos) {
        Some((u, next)) => {
            let n: i64 = if u % 2 == 0 {
                (u / 2) as i64
            } else {
                -((u / 2) as i64) - 1
            };
            Some((n, next))
        },
        None => None,
    }
}

/// Appends the encoding of the byte string `data` to `out`.
pub fn encode_bytes(data: &[u8], out: &mut Vec<u8>)
    ensures
        final(out)@ == old(out)@ + spec_encode_bytes(data@),
{
    encode_u64(data.len() as u64, out);
    out.extend_from_slice(data);
    assert(out@ =~= old(out)@ + spec_encode_bytes(data@));
}

/// Reads a byte string at `pos`.
pub fn decode_bytes(bytes: &[u8], pos: usize) -> (out: Option<(Vec<u8>, usize)>)
    requires
        pos <= bytes@.len(),
    ensures
        match spec_parse_bytes(bytes@.skip(pos as int)) {
            Some((value, rest)) => out is Some && out->Some_0.0@ == value && pos <= out->Some_0.1
                <= bytes@.len() && bytes@.skip(out->Some_0.1 as int) == rest,
            None => out is None,
        },
{
    match decode_u64(bytes, pos) {
        Some((n, start)) => {
            let left = bytes.len() - start;
            if n > left as u64 {
                return None;
            }
            let end = start + n as usize;
            let data = vstd::slice::slice_to_vec(vstd::slice::slice_subrange(bytes, start, end));
            assert(data@ =~= bytes@.skip(start as int).take(n as int));
            assert(bytes@.skip(end as int) =~= bytes@.skip(start as int).skip(n as int));
            Some((data, end))
        },
        None => None,
    }
}

} // verus!

verus! {

/// The encoding of a text: the length of its UTF-8 bytes, then the bytes.
pub open spec fn spec_encode_text(text: Seq<char>) -> Seq<u8> {
    spec_encode_bytes(vstd::utf8::encode_utf8(text))
}

/// Reads a text from the front of `bytes`; bytes that are not UTF-8 are no text.
pub open spec fn spec_parse_text(bytes: Seq<u8>) -> Option<(Seq<char>, Seq<u8>)> {
    match spec_parse_bytes(bytes) {
        Some((raw, rest)) => if vstd::utf8::valid_utf8(raw) {
            Some((vstd::utf8::decode_utf8(raw), rest))
        } else {
            None
        },
        None => None,
    }
}

/// Reading what `spec_encode_text` wrote gives the text back.
pub proof fn lemma_text_round_trip(text: Seq<char>, rest: Seq<u8>)
    requires
        vstd::utf8::encode_utf8(text).len() <= u64::MAX,
    ensures
        spec_parse_text(spec_encode_text(text) + rest) == Some((text, rest)),
{
    lemma_bytes_round_trip(vstd::utf8::encode_utf8(text), rest);
    vstd::utf8::encode_utf8_valid_utf8(text);
    vstd::utf8::encode_utf8_decode_utf8(text);
}

/// Calls `String::from_utf8`: the text of the bytes where they are UTF-8,
/// `None` where they are not.
#[verifier::external_body]
fn text_from_utf8(raw: Vec<u8>) -> (out: Option<String>)
    ensures
        vstd::utf8::valid_utf8(raw@) ==> out is Some && out->Some_0@ == vstd::utf8::decode_utf8(
            raw@,
        ),
        !vstd::utf8::valid_utf8(raw@) ==> out is None,
{
    String::from_utf8(raw).ok()
}

/// Appends the encoding of `text` to `out`.
pub fn encode_text(text: &str, out: &mut Vec<u8>)
    ensures
        final(out)@ == old(out)@ + spec_encode_text(text@),
{
    encode_bytes(text.as_bytes(), out);
}

/// Reads a text at `pos`.
pub fn decode_text(bytes: &[u8], pos: usize) -> (out: Option<(String, usize)>)
    requires
        pos <= bytes@.len(),
    ensures
        match spec_parse_text(bytes@.skip(pos as int)) {
            Some((value, rest)) => out is Some && out->Some_0.0@ == value && pos <= out->Some_0.1
                <= bytes@.len() && bytes@.skip(out->Some_0.1 as int) == rest,
            None => out is None,
        },
{
    match decode_bytes(bytes, pos) {
        Some((raw, next)) => match text_from_utf8(raw) {
            Some(text) => Some((text, next)),
            None => None,
        },
        None => None,
    }
}

} // verus!

verus! {

/// Where the first `k` items cannot be read, no longer list can be read either.
pub proof fn lemma_parse_items_fails_on<T>(
    bytes: Seq<u8>,
    k: nat,
    count: nat,
    parse: spec_fn(Seq<u8>) -> Option<(T, Seq<u8>)>,
)
    requires
        k <= count,
        spec_parse_items(bytes, k, parse) is None,
    ensures
        spec_parse_items(bytes, count, parse) is None,
    decreases count,
{
    if k < count {
        lemma_parse_items_fails_on(bytes, k, (count - 1) as nat, parse);
    }
}

} // verus!

verus! {

/// The eight bytes of `v`, highest first.
pub open spec fn spec_u64_be(v: u64) -> Seq<u8> {
    seq![
        le_byte(v, 7),
        le_byte(v, 6),
        le_byte(v, 5),
        le_byte(v, 4),
        le_byte(v, 3),
        le_byte(v, 2),
        le_byte(v, 1),
        le_byte(v, 0),
    ]
}

/// The four bytes of `v`, highest first.
pub open spec fn spec_u32_be(v: u32) -> Seq<u8> {
    seq![le_byte(v as u64, 3), le_byte(v as u64, 2), le_byte(v as u64, 1), le_byte(v as u64, 0)]
}

/// The 64 bits of a signed integer in two's complement, as an unsigned one.
pub open spec fn spec_i64_bits(n: i64) -> u64 {
    if n >= 0 {
        n as u64
    } else {
        (n + 0x1_0000_0000_0000_0000) as u64
    }
}

/// The eight bytes of `n` in two's complement, highest first.
pub open spec fn spec_i64_be(n: i64) -> Seq<u8> {
    spec_u64_be(spec_i64_bits(n))
}

/// Appends the eight bytes of `v`, highest first.
pub fn push_u64_be(v: u64, out: &mut Vec<u8>)
    ensures
        final(out)@ == old(out)@ + spec_u64_be(v),
{
    let q1: u64 = v / 256;
    let q2: u64 = q1 / 256;
    let q3: u64 = q2 / 256;
    let q4: u64 = q3 / 256;
    let q5: u64 = q4 / 256;
    let q6: u64 = q5 / 256;
    let q7: u64 = q6 / 256;
    out.push((q7 % 256) as u8);
    out.push((q6 % 256) as u8);
    out.push((q5 % 256) as u8);
    out.push((q4 % 256) as u8);
    out.push((q3 % 256) as u8);
    out.push((q2 % 256) as u8);
    out.push((q1 % 256) as u8);
    out.push((v % 256) as u8);
    assert(out@ =~= old(out)@ + spec_u64_be(v));
}

/// Appends the four bytes of `v`, highest first.
pub fn push_u32_be(v: u32, out: &mut Vec<u8>)
    ensures
        final(out)@ == old(out)@ + spec_u32_be(v),
{
    let w: u64 = v as u64;
    let q1: u64 = w / 256;
    let q2: u64 = q1 / 256;
    let q3: u64 = q2 / 256;
    out.push((q3 % 256) as u8);
    out.push((q2 % 256) as u8);
    out.push((q1 % 256) as u8);
    out.push((w % 256) as u8);
    assert(out@ =~= old(out)@ + spec_u32_be(v));
}

/// Appends the eight bytes of `n` in two's complement, highest first.
pub fn push_i64_be(n: i64, out: &mut Vec<u8>)
    ensures
        final(out)@ == old(out)@ + spec_i64_be(n),
{
    let bits: u64 = if n >= 0 {
        n as u64
    } else {
        u64::MAX - ((-(n + 1)) as u64)
    };
    push_u64_be(bits, out);
}

} // verus!

verus! {

/// The texts of a list.
pub open spec fn text_views(texts: Seq<String>) -> Seq<Seq<char>> {
    texts.map_values(|t: String| t@)
}

/// The way texts are written in a list.
pub open spec fn spec_text_encoder() -> spec_fn(Seq<char>) -> Seq<u8> {
    |text: Seq<char>| spec_encode_text(text)
}

/// The way texts are read from a list.
pub open spec fn spec_text_parser() -> spec_fn(Seq<u8>) -> Option<(Seq<char>, Seq<u8>)> {
    |bytes: Seq<u8>| spec_parse_text(bytes)
}

/// Every text of the list can be held in memory, and so can the list.
pub open spec fn texts_wf(texts: Seq<Seq<char>>) -> bool {
    texts.len() <= usize::MAX && forall|i: int|
        0 <= i < texts.len() ==> vstd::utf8::encode_utf8(#[trigger] texts[i]).len() <= usize::MAX
}

/// Reading an encoded list of texts gives it back.
pub proof fn lemma_texts_round_trip(texts: Seq<Seq<char>>, rest: Seq<u8>)
    requires
        texts_wf(texts),
    ensures
        spec_parse_list(spec_encode_list(texts, spec_text_encoder()) + rest, spec_text_parser())
            == Some((texts, rest)),
{
    assert forall|i: int, r: Seq<u8>| 0 <= i < texts.len() implies #[trigger] (
    spec_text_parser())((spec_text_encoder())(texts[i]) + r) == Some((texts[i], r)) by {
        lemma_text_round_trip(texts[i], r);
    }
    lemma_list_round_trip(texts, rest, spec_text_encoder(), spec_text_parser());
}

/// Appends the encoding of a list of texts to `out`.
pub fn encode_texts(items: &[String], out: &mut Vec<u8>)
    ensures
        final(out)@ == old(out)@ + spec_encode_list(text_views(items@), spec_text_encoder()),
{
    let ghost start = out@;
    let ghost models = text_views(items@);
    encode_u64(items.len() as u64, out);
    let ghost head = out@;
    let mut i: usize = 0;
    assert(spec_encode_items(models.take(0), spec_text_encoder()) =~= Seq::<u8>::empty());
    assert(head + Seq::<u8>::empty() =~= head);
    while i < items.len()
        invariant
            i <= items@.len(),
            models == text_views(items@),
            models.len() == items@.len(),
            out@ == head + spec_encode_items(models.take(i as int), spec_text_encoder()),
        decreases items@.len() - i,
    {
        let ghost before = out@;
        encode_text(items[i].as_str(), out);
        proof {
            lemma_encode_items_step(models, i as int, spec_text_encoder());
            assert(models[i as int] == items@[i as int]@);
            assert(out@ =~= head + spec_encode_items(models.take(i + 1), spec_text_encoder()));
        }
        i += 1;
    }
    proof {
        assert(models.take(models.len() as int) =~= models);
        assert(out@ =~= start + spec_encode_list(models, spec_text_encoder()));
    }
}

/// Reads a list of texts at `pos`.
pub fn decode_texts(bytes: &[u8], pos: usize) -> (out: Option<(Vec<String>, usize)>)
    requires
        pos <= bytes@.len(),
    ensures
        match spec_parse_list(bytes@.skip(pos as int), spec_text_parser()) {
            Some((value, rest)) => out is Some && text_views(out->Some_0.0@) == value && pos
                <= out->Some_0.1 <= bytes@.len() && bytes@.skip(out->Some_0.1 as int) == rest,
            None => out is None,
        },
{
    let (count, start) = match decode_u64(bytes, pos) {
        Some(found) => found,
        None => { return None; },
    };
    let ghost tail = bytes@.skip(start as int);
    let mut items: Vec<String> = Vec::new();
    let mut at: usize = start;
    let mut i: u64 = 0;
    assert(text_views(items@) =~= Seq::<Seq<char>>::empty());
    while i < count
        invariant
            i <= count,
            pos <= start <= at <= bytes@.len(),
            tail == bytes@.skip(start as int),
            spec_parse_u64(bytes@.skip(pos as int)) == Some((count, tail)),
            items@.len() == i,
            spec_parse_items(tail, i as nat, spec_text_parser()) == Some(
                (text_views(items@), bytes@.skip(at as int)),
            ),
        decreases count - i,
    {
        match decode_text(bytes, at) {
            Some((item, next)) => {
                let ghost before = items@;
                items.push(item);
                proof {
                    let have = text_views(items@);
                    let want = text_views(before).push(item@);
                    assert(have =~= want);
                }
                at = next;
            },
            None => {
                proof {
                    assert((spec_text_parser())(bytes@.skip(at as int)) is None);
                    assert(spec_parse_items(tail, (i + 1) as nat, spec_text_parser()) is None);
                    lemma_parse_items_fails_on(
                        tail,
                        (i + 1) as nat,
                        count as nat,
                        spec_text_parser(),
                    );
                }
                return None;
            },
        }
        i += 1;
    }
    Some((items, at))
}

} // verus!
