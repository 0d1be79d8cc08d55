//! The peer session wire protocol: framed messages carrying file
//! metadata and file payloads, and the per-connection session machine.
//!
//! A frame is a 5-byte ASCII marker (`INFO:` or `DATA:`), an 8-byte
//! unsigned little-endian length, then exactly that many payload bytes.
//! A `FileInfo` payload is the path text followed by the size written as
//! a fixed-width, zero-padded, 20-digit decimal suffix; the fixed width
//! is what keeps the split between path and size unambiguous.
use vstd::prelude::*;

use vstd::arithmetic::div_mod::lemma_div_denominator;
use vstd::arithmetic::div_mod::lemma_div_multiples_vanish_fancy;
use vstd::arithmetic::div_mod::lemma_fundamental_div_mod;
use vstd::arithmetic::div_mod::lemma_small_mod;
use vstd::bytes::lemma_auto_spec_u64_to_from_le_bytes;
use vstd::bytes::spec_u64_from_le_bytes;
use vstd::bytes::spec_u64_to_le_bytes;
use vstd::bytes::u64_from_le_bytes;
use vstd::bytes::u64_to_le_bytes;

verus! {

/// A framed message of the peer session protocol.
pub enum Message {
    /// Describes a pending transfer: the file's path text and its size.
    FileInfo { path: Vec<u8>, size: u64 },
    /// A payload of file bytes.
    FileData(Vec<u8>),
}

/// Why a frame or a payload was rejected.
#[derive(PartialEq, Eq, Structural, Clone, Copy, Debug)]
pub enum FrameError {
    /// The 5-byte marker is neither `INFO:` nor `DATA:`.
    UnknownMarker,
    /// The buffer is shorter than a marker and a length field, or its
    /// length field disagrees with the bytes that follow.
    Truncated,
    /// A `FileInfo` payload without a well-formed 20-digit size suffix.
    MalformedInfo,
}

/// The marker bytes `INFO:`.
pub open spec fn info_marker() -> Seq<u8> {
    seq![73u8, 78u8, 70u8, 79u8, 58u8]
}

/// The marker bytes `DATA:`.
pub open spec fn data_marker() -> Seq<u8> {
    seq![68u8, 65u8, 84u8, 65u8, 58u8]
}

/// The width of the decimal size suffix of a `FileInfo` payload.
pub const SIZE_FIELD_WIDTH: usize = 20;

/// Ten to the `k`.
pub open spec fn pow10(k: nat) -> nat
    decreases k,
{
    if k == 0 {
        1
    } else {
        10 * pow10((k - 1) as nat)
    }
}

/// Digit `i` (most significant first) of `n` written as 20 decimal
/// digits, as an ASCII byte.
pub open spec fn size_digit(n: u64, i: int) -> u8 {
    (48 + (n as nat / pow10((19 - i) as nat)) % 10) as u8
}

/// `n` written as exactly 20 ASCII decimal digits, zero-padded.
pub open spec fn size_field(n: u64) -> Seq<u8> {
    Seq::new(20, |i: int| size_digit(n, i))
}

/// An ASCII decimal digit.
pub open spec fn is_digit(b: u8) -> bool {
    48 <= b <= 57
}

pub open spec fn all_digits(s: Seq<u8>) -> bool {
    forall|i: int| 0 <= i < s.len() ==> is_digit(#[trigger] s[i])
}

/// The number a sequence of ASCII digits denotes.
pub open spec fn digits_val(s: Seq<u8>) -> nat
    decreases s.len(),
{
    if s.len() == 0 {
        0
    } else {
        digits_val(s.drop_last()) * 10 + (s.last() - 48) as nat
    }
}

/// A `FileInfo` payload: the path bytes, then the size suffix.
pub open spec fn spec_info_payload(path: Seq<u8>, size: u64) -> Seq<u8> {
    path + size_field(size)
}

/// The payloads a receiver accepts as `FileInfo`: long enough to hold
/// the suffix, the suffix all digits, and the denoted size within range.
pub open spec fn valid_info_payload(p: Seq<u8>) -> bool {
    &&& p.len() >= 20
    &&& all_digits(p.skip(p.len() - 20))
    &&& digits_val(p.skip(p.len() - 20)) <= u64::MAX
}

pub proof fn lemma_pow10_pos(k: nat)
    ensures
        pow10(k) >= 1,
    decreases k,
{
    if k > 0 {
        lemma_pow10_pos((k - 1) as nat);
    }
}

/// The two powers of ten the size suffix turns on: the suffix holds 20
/// digits, and every `u64` fits in them.
pub proof fn lemma_pow10_values()
    ensures
        pow10(19) == 10000000000000000000,
        pow10(20) == 100000000000000000000,
        u64::MAX < pow10(20),
{
    reveal_with_fuel(pow10, 21);
}

/// Reading a concatenation of digit strings: the left part is shifted
/// up by one decimal place per right-hand digit.
pub proof fn lemma_digits_val_concat(a: Seq<u8>, b: Seq<u8>)
    ensures
        digits_val(a + b) == digits_val(a) * pow10(b.len()) + digits_val(b),
    decreases b.len(),
{
    if b.len() == 0 {
        assert(a + b =~= a);
        assert(digits_val(b) == 0);
        assert(pow10(b.len()) == 1);
        assert(digits_val(a) * 1 == digits_val(a));
    } else {
        let b0 = b.drop_last();
        lemma_digits_val_concat(a, b0);
        assert((a + b).drop_last() =~= a + b0);
        assert((a + b).last() == b.last());
        assert(digits_val(a + b) == digits_val(a + b0) * 10 + (b.last() - 48) as nat);
        assert(digits_val(b) == digits_val(b0) * 10 + (b.last() - 48) as nat);
        assert(pow10(b.len()) == 10 * pow10(b0.len()));
        assert((digits_val(a) * pow10(b0.len()) + digits_val(b0)) * 10 == digits_val(a) * (10
            * pow10(b0.len())) + digits_val(b0) * 10) by (nonlinear_arith);
        assert(digits_val(a) * pow10(b.len()) == digits_val(a) * (10 * pow10(b0.len())));
        assert(digits_val(a + b) == (digits_val(a) * pow10(b0.len()) + digits_val(b0)) * 10 + (
        b.last() - 48) as nat);
        assert(digits_val(a + b) == digits_val(a) * (10 * pow10(b0.len())) + (digits_val(b0) * 10
            + (b.last() - 48) as nat));
        assert(digits_val(a + b) == digits_val(a) * pow10(b.len()) + digits_val(b));
    }
}

/// A string of `k` digits denotes a number below ten to the `k`.
pub proof fn lemma_digits_val_bound(s: Seq<u8>)
    requires
        all_digits(s),
    ensures
        digits_val(s) < pow10(s.len()),
    decreases s.len(),
{
    if s.len() == 0 {
    } else {
        let s0 = s.drop_last();
        assert(all_digits(s0));
        lemma_digits_val_bound(s0);
        assert(is_digit(s[s.len() - 1]));
        assert(digits_val(s0) * 10 + 10 <= pow10(s0.len()) * 10) by (nonlinear_arith)
            requires
                digits_val(s0) < pow10(s0.len()),
        ;
        assert(pow10(s.len()) == 10 * pow10(s0.len()));
    }
}

/// Every byte of the size suffix is an ASCII digit.
pub proof fn lemma_size_field_digits(n: u64)
    ensures
        all_digits(size_field(n)),
{
    assert forall|i: int| 0 <= i < size_field(n).len() implies is_digit(
        #[trigger] size_field(n)[i],
    ) by {
        lemma_pow10_pos((19 - i) as nat);
        vstd::arithmetic::div_mod::lemma_mod_bound(
            (n as nat / pow10((19 - i) as nat)) as int,
            10,
        );
    }
}

proof fn lemma_size_field_prefix(n: u64, k: int)
    requires
        0 <= k <= 20,
    ensures
        digits_val(size_field(n).take(k)) == n as nat / pow10((20 - k) as nat),
    decreases k,
{
    lemma_pow10_values();
    if k == 0 {
        lemma_basic_div_for(n as int, pow10(20) as int);
    } else {
        lemma_size_field_prefix(n, k - 1);
        let c = pow10((20 - k) as nat);
        let d = pow10((19 - (k - 1)) as nat);
        assert(d == c);
        lemma_pow10_pos((20 - k) as nat);
        let m = n as nat / c;
        let pre = size_field(n).take(k);
        assert(pre.drop_last() =~= size_field(n).take(k - 1));
        assert(pre.last() == size_digit(n, k - 1));
        assert(digits_val(pre) == digits_val(size_field(n).take(k - 1)) * 10 + (size_digit(
            n,
            k - 1,
        ) - 48) as nat);
        assert((size_digit(n, k - 1) - 48) as nat == m % 10) by {
            vstd::arithmetic::div_mod::lemma_mod_bound(m as int, 10);
        }
        assert(n as nat / pow10((20 - (k - 1)) as nat) == m / 10) by {
            assert(pow10((20 - (k - 1)) as nat) == 10 * c);
            lemma_div_denominator(n as int, c as int, 10);
            assert((n as int / c as int) / 10 == n as int / (c as int * 10));
        }
        lemma_fundamental_div_mod(m as int, 10);
    }
}

proof fn lemma_basic_div_for(x: int, d: int)
    requires
        0 <= x < d,
    ensures
        x / d == 0,
{
    broadcast use vstd::arithmetic::div_mod::lemma_basic_div;

}

/// The size suffix reads back as the number it was written from.
pub proof fn lemma_size_field_val(n: u64)
    ensures
        digits_val(size_field(n)) == n,
{
    lemma_size_field_prefix(n, 20);
    assert(size_field(n).take(20) =~= size_field(n));
    assert(pow10(0) == 1);
    assert(n as nat / 1 == n as nat);
}

/// Twenty digits denote at most one number, so a suffix whose value is
/// `n` is the suffix written for `n`: the encoding is canonical.
pub proof fn lemma_size_field_unique(s: Seq<u8>)
    requires
        s.len() == 20,
        all_digits(s),
        digits_val(s) <= u64::MAX,
    ensures
        s == size_field(digits_val(s) as u64),
{
    let v = digits_val(s);
    assert forall|i: int| 0 <= i < 20 implies s[i] == size_digit(v as u64, i) by {
        let pre = s.take(i + 1);
        let suf = s.skip(i + 1);
        assert(s =~= pre + suf);
        lemma_digits_val_concat(pre, suf);
        assert(all_digits(suf));
        lemma_digits_val_bound(suf);
        assert(suf.len() == 19 - i);
        lemma_pow10_pos((19 - i) as nat);
        assert(v as int == pow10((19 - i) as nat) as int * digits_val(pre) as int + digits_val(
            suf,
        ) as int) by (nonlinear_arith)
            requires
                v == digits_val(pre) * pow10((19 - i) as nat) + digits_val(suf),
        ;
        lemma_div_multiples_vanish_fancy(
            digits_val(pre) as int,
            digits_val(suf) as int,
            pow10((19 - i) as nat) as int,
        );
        assert(v as nat / pow10((19 - i) as nat) == digits_val(pre));
        assert(pre.drop_last() =~= s.take(i));
        assert(pre.last() == s[i]);
        assert(digits_val(pre) == digits_val(s.take(i)) * 10 + (s[i] - 48) as nat);
        assert(is_digit(s[i]));
        vstd::arithmetic::div_mod::lemma_mod_multiples_vanish(
            digits_val(s.take(i)) as int,
            (s[i] - 48) as int,
            10,
        );
        lemma_small_mod((s[i] - 48) as nat, 10);
        assert(digits_val(pre) % 10 == (s[i] - 48) as nat);
        assert(v as u64 as nat == v);
    }
    assert(s =~= size_field(v as u64));
}

/// Write `n` as the 20-digit zero-padded decimal suffix.
pub fn encode_size_field(n: u64) -> (r: Vec<u8>)
    ensures
        r@ == size_field(n),
{
    let mut r: Vec<u8> = Vec::new();
    let mut p: u64 = 10000000000000000000;
    proof {
        lemma_pow10_values();
    }
    let mut i: usize = 0;
    while i < 20
        invariant
            i <= 20,
            r@.len() == i,
            i < 20 ==> p == pow10((19 - i) as nat),
            forall|j: int| 0 <= j < i ==> r@[j] == size_digit(n, j),
        decreases 20 - i,
    {
        proof {
            lemma_pow10_pos((19 - i) as nat);
        }
        let d: u64 = (n / p) % 10;
        r.push(48 + d as u8);
        proof {
            assert(r@[i as int] == size_digit(n, i as int));
        }
        if i < 19 {
            proof {
                assert(pow10((19 - i) as nat) == 10 * pow10((18 - i) as nat));
                assert((10 * pow10((18 - i) as nat)) as int / 10 == pow10((18 - i) as nat)) by {
                    vstd::arithmetic::div_mod::lemma_div_multiples_vanish(
                        pow10((18 - i) as nat) as int,
                        10,
                    );
                }
            }
            p = p / 10;
        }
        i += 1;
    }
    proof {
        assert(r@ =~= size_field(n));
    }
    r
}

/// Parse the bytes of `s` from `start` on as a decimal number.
/// `None` exactly when some byte is not a digit or the value does not
/// fit in a `u64`.
pub fn parse_digits(s: &Vec<u8>, start: usize) -> (r: Option<u64>)
    requires
        start <= s@.len(),
    ensures
        match r {
            Some(v) => all_digits(s@.skip(start as int)) && digits_val(s@.skip(start as int))
                <= u64::MAX && v == digits_val(s@.skip(start as int)),
            None => !(all_digits(s@.skip(start as int)) && digits_val(s@.skip(start as int))
                <= u64::MAX),
        },
{
    let ghost whole = s@.skip(start as int);
    let mut val: u64 = 0;
    let mut i: usize = start;
    while i < s.len()
        invariant
            start <= i <= s@.len(),
            whole == s@.skip(start as int),
            all_digits(s@.subrange(start as int, i as int)),
            val == digits_val(s@.subrange(start as int, i as int)),
        decreases s@.len() - i,
    {
        let b = s[i];
        let ghost seen = s@.subrange(start as int, i as int);
        let ghost rest = s@.subrange(i as int, s@.len() as int);
        proof {
            assert(whole =~= seen + rest);
            lemma_digits_val_concat(seen, rest);
        }
        if b < 48 || b > 57 {
            proof {
                assert(rest[0] == s@[i as int]);
                assert(!is_digit(whole[i - start]));
            }
            return None;
        }
        let d: u64 = (b - 48) as u64;
        if val > (u64::MAX - d) / 10 {
            proof {
                lemma_fundamental_div_mod((u64::MAX - d) as int, 10);
                assert(val * 10 + d > u64::MAX);
                if all_digits(whole) {
                    assert(all_digits(rest)) by {
                        assert(forall|k: int|
                            0 <= k < rest.len() ==> rest[k] == whole[i - start + k]);
                    }
                    assert(rest.len() >= 1);
                    let seen1 = s@.subrange(start as int, i + 1 as int);
                    let rest1 = s@.subrange(i + 1 as int, s@.len() as int);
                    assert(whole =~= seen1 + rest1);
                    lemma_digits_val_concat(seen1, rest1);
                    assert(seen1.drop_last() =~= seen);
                    assert(seen1.last() == s@[i as int]);
                    assert(digits_val(seen1) == val * 10 + d);
                    lemma_pow10_pos(rest1.len());
                    assert((val * 10 + d) * pow10(rest1.len()) >= (val * 10 + d) * 1) by (
                    nonlinear_arith)
                        requires
                            pow10(rest1.len()) >= 1,
                            val * 10 + d >= 0,
                    ;
                    assert(digits_val(whole) > u64::MAX);
                }
            }
            return None;
        }
        proof {
            assert(val * 10 + d <= u64::MAX) by {
                lemma_fundamental_div_mod((u64::MAX - d) as int, 10);
                assert(val <= (u64::MAX - d) / 10);
                assert(val * 10 <= ((u64::MAX - d) as int / 10) * 10) by (nonlinear_arith)
                    requires
                        val <= (u64::MAX - d) as int / 10,
                ;
            }
            let seen1 = s@.subrange(start as int, i + 1 as int);
            assert(seen1.drop_last() =~= seen);
            assert(seen1.last() == s@[i as int]);
            assert(digits_val(seen1) == digits_val(seen) * 10 + d);
        }
        val = val * 10 + d;
        i += 1;
    }
    proof {
        assert(s@.subrange(start as int, i as int) =~= whole);
    }
    Some(val)
}

/// The marker a message is framed under.
pub open spec fn spec_marker(m: &Message) -> Seq<u8> {
    match m {
        Message::FileInfo { .. } => info_marker(),
        Message::FileData(..) => data_marker(),
    }
}

/// The payload bytes a message is framed with.
pub open spec fn spec_payload(m: &Message) -> Seq<u8> {
    match m {
        Message::FileInfo { path, size } => spec_info_payload(path@, *size),
        Message::FileData(data) => data@,
    }
}

/// A message on the wire: marker, little-endian length, payload.
pub open spec fn spec_encode(m: &Message) -> Seq<u8> {
    spec_marker(m) + spec_u64_to_le_bytes(spec_payload(m).len() as u64) + spec_payload(m)
}

impl Message {
    /// Frame this message for the wire.
    pub fn encode(&self) -> (r: Vec<u8>)
        requires
            (self matches Message::FileInfo { path, .. } ==> path@.len() + 20 <= usize::MAX),
        ensures
            r@ == spec_encode(self),
    {
        let mut payload: Vec<u8>;
        let mut out: Vec<u8> = Vec::new();
        match self {
            Message::FileInfo { path, size } => {
                payload = Vec::new();
                payload.extend_from_slice(path.as_slice());
                let mut field = encode_size_field(*size);
                payload.append(&mut field);
                out.push(73);
                out.push(78);
                out.push(70);
                out.push(79);
                out.push(58);
                proof {
                    assert(out@ =~= info_marker());
                    assert(payload@ == spec_payload(self));
                }
            },
            Message::FileData(data) => {
                payload = vstd::slice::slice_to_vec(data.as_slice());
                out.push(68);
                out.push(65);
                out.push(84);
                out.push(65);
                out.push(58);
                proof {
                    assert(out@ =~= data_marker());
                    assert(payload@ == spec_payload(self));
                }
            },
        }
        let mut len_bytes = u64_to_le_bytes(payload.len() as u64);
        out.append(&mut len_bytes);
        out.append(&mut payload);
        proof {
            assert(out@ =~= spec_encode(self));
        }
        out
    }

    /// Unframe one whole message. An empty buffer is a clean end of
    /// stream. Each error names exactly what was wrong: a short or
    /// inconsistent frame, a marker that is neither `INFO:` nor
    /// `DATA:`, or a `FileInfo` payload without a readable size suffix.
    pub fn decode(buf: &Vec<u8>) -> (r: Result<Option<Message>, FrameError>)
        ensures
            match r {
                Ok(opt) => match opt {
                    None => buf@.len() == 0,
                    Some(m) => buf@ == spec_encode(&m),
                },
                Err(e) => buf@.len() != 0 && match e {
                    FrameError::UnknownMarker => buf@.len() >= 13 && buf@.take(5) != info_marker()
                        && buf@.take(5) != data_marker(),
                    FrameError::Truncated => buf@.len() < 13 || (spec_u64_from_le_bytes(
                        buf@.subrange(5, 13),
                    ) != buf@.len() - 13),
                    FrameError::MalformedInfo => buf@.len() >= 13 && buf@.take(5) == info_marker()
                        && spec_u64_from_le_bytes(buf@.subrange(5, 13)) == buf@.len() - 13
                        && !valid_info_payload(buf@.skip(13)),
                },
            },
    {
        if buf.len() == 0 {
            return Ok(None);
        }
        if buf.len() < 13 {
            return Err(FrameError::Truncated);
        }
        let is_info = buf[0] == 73 && buf[1] == 78 && buf[2] == 70 && buf[3] == 79 && buf[4] == 58;
        let is_data = buf[0] == 68 && buf[1] == 65 && buf[2] == 84 && buf[3] == 65 && buf[4] == 58;
        proof {
            assert(is_info == (buf@.take(5) =~= info_marker()));
            assert(is_data == (buf@.take(5) =~= data_marker()));
        }
        if !is_info && !is_data {
            return Err(FrameError::UnknownMarker);
        }
        let len_slice = vstd::slice::slice_subrange(buf.as_slice(), 5, 13);
        let declared = u64_from_le_bytes(len_slice);
        if declared != (buf.len() - 13) as u64 {
            return Err(FrameError::Truncated);
        }
        let payload: Vec<u8> = vstd::slice::slice_to_vec(
            vstd::slice::slice_subrange(buf.as_slice(), 13, buf.len()),
        );
        proof {
            assert(payload@ == buf@.skip(13));
            lemma_auto_spec_u64_to_from_le_bytes();
            assert(buf@.subrange(5, 13) == spec_u64_to_le_bytes(payload@.len() as u64));
        }
        if is_info {
            match decode_info_payload(payload) {
                Ok(m) => {
                    proof {
                        assert(buf@ =~= spec_encode(&m));
                    }
                    Ok(Some(m))
                },
                Err(e) => Err(e),
            }
        } else {
            let m = Message::FileData(payload);
            proof {
                assert(buf@ =~= spec_encode(&m));
            }
            Ok(Some(m))
        }
    }
}

/// An encoded frame is never mistaken for another message: two encodings
/// agree only when the messages carry the same path, size and bytes.
/// With `decode`'s contract this is the round-trip law: decoding an
/// encoded frame yields the message that was encoded.
pub proof fn lemma_encode_injective(m1: &Message, m2: &Message)
    requires
        spec_encode(m1) == spec_encode(m2),
    ensures
        match (m1, m2) {
            (
                Message::FileInfo { path: p1, size: s1 },
                Message::FileInfo { path: p2, size: s2 },
            ) => p1@ == p2@ && s1 == s2,
            (Message::FileData(d1), Message::FileData(d2)) => d1@ == d2@,
            _ => false,
        },
{
    let e1 = spec_encode(m1);
    let e2 = spec_encode(m2);
    assert(e1.take(5) =~= spec_marker(m1));
    assert(e2.take(5) =~= spec_marker(m2));
    assert(info_marker()[0] != data_marker()[0]);
    lemma_auto_spec_u64_to_from_le_bytes();
    assert(e1.skip(13) =~= spec_payload(m1));
    assert(e2.skip(13) =~= spec_payload(m2));
    match (m1, m2) {
        (Message::FileInfo { path: p1, size: s1 }, Message::FileInfo { path: p2, size: s2 }) => {
            let pay1 = spec_payload(m1);
            let pay2 = spec_payload(m2);
            assert(pay1.len() == p1@.len() + 20);
            assert(p1@ =~= pay1.take(pay1.len() - 20));
            assert(p2@ =~= pay2.take(pay2.len() - 20));
            assert(size_field(*s1) =~= pay1.skip(pay1.len() - 20));
            assert(size_field(*s2) =~= pay2.skip(pay2.len() - 20));
            lemma_size_field_val(*s1);
            lemma_size_field_val(*s2);
        },
        (Message::FileData(d1), Message::FileData(d2)) => {},
        _ => {
            assert(spec_marker(m1) == spec_marker(m2));
            assert(false);
        },
    }
}

/// An encoded frame always decodes: none of `decode`'s error conditions
/// holds of `spec_encode(m)`, and it is not empty.
pub proof fn lemma_encode_decodes(m: &Message)
    requires
        spec_payload(m).len() <= u64::MAX,
    ensures
        spec_encode(m).len() >= 13,
        spec_encode(m).take(5) == info_marker() || spec_encode(m).take(5) == data_marker(),
        spec_u64_from_le_bytes(spec_encode(m).subrange(5, 13)) == spec_encode(m).len() - 13,
        spec_encode(m).take(5) == info_marker() ==> valid_info_payload(spec_encode(m).skip(13)),
{
    let e = spec_encode(m);
    let pay = spec_payload(m);
    lemma_auto_spec_u64_to_from_le_bytes();
    assert(e.take(5) =~= spec_marker(m));
    assert(e.subrange(5, 13) =~= spec_u64_to_le_bytes(pay.len() as u64));
    assert(e.skip(13) =~= pay);
    match m {
        Message::FileInfo { path, size } => {
            assert(pay.skip(pay.len() - 20) =~= size_field(*size));
            lemma_size_field_digits(*size);
            lemma_size_field_val(*size);
        },
        Message::FileData(data) => {
            assert(data_marker()[0] != info_marker()[0]);
        },
    }
}

/// Decode a `FileInfo` payload: the bytes before the 20-digit suffix
/// are the path, the suffix is the size. Rejected exactly when the
/// payload is shorter than the suffix, a suffix byte is not a digit,
/// or the denoted size does not fit in a `u64`.
pub fn decode_info_payload(payload: Vec<u8>) -> (r: Result<Message, FrameError>)
    ensures
        match r {
            Ok(m) => valid_info_payload(payload@) && (m matches Message::FileInfo { path, size }
                && payload@ == spec_info_payload(path@, size) && path@ == payload@.take(
                payload@.len() - 20,
            )),
            Err(e) => e == FrameError::MalformedInfo && !valid_info_payload(payload@),
        },
{
    if payload.len() < SIZE_FIELD_WIDTH {
        return Err(FrameError::MalformedInfo);
    }
    let split = payload.len() - SIZE_FIELD_WIDTH;
    match parse_digits(&payload, split) {
        None => Err(FrameError::MalformedInfo),
        Some(size) => {
            let ghost p = payload@;
            let mut path = payload;
            path.truncate(split);
            proof {
                let suffix = p.skip(p.len() - 20);
                assert(suffix.len() == 20);
                lemma_size_field_unique(suffix);
                assert(suffix == size_field(size));
                assert(p =~= path@ + size_field(size));
            }
            Ok(Message::FileInfo { path, size })
        },
    }
}

/// Which message a 5-byte marker announces; `None` for any other bytes.
#[derive(PartialEq, Eq, Structural, Clone, Copy, Debug)]
pub enum MarkerKind {
    Info,
    Data,
}

pub fn classify_marker(marker: &[u8; 5]) -> (r: Option<MarkerKind>)
    ensures
        match r {
            Some(MarkerKind::Info) => marker@ == info_marker(),
            Some(MarkerKind::Data) => marker@ == data_marker(),
            None => marker@ != info_marker() && marker@ != data_marker(),
        },
{
    let is_info = marker[0] == 73 && marker[1] == 78 && marker[2] == 70 && marker[3] == 79
        && marker[4] == 58;
    let is_data = marker[0] == 68 && marker[1] == 65 && marker[2] == 84 && marker[3] == 65
        && marker[4] == 58;
    proof {
        assert(is_info == (marker@ =~= info_marker()));
        assert(is_data == (marker@ =~= data_marker()));
    }
    if is_info {
        Some(MarkerKind::Info)
    } else if is_data {
        Some(MarkerKind::Data)
    } else {
        None
    }
}

/// Where a connection's receive loop stands.
#[derive(PartialEq, Eq, Structural, Clone, Copy, Debug)]
pub enum SessionState {
    /// The connection was accepted; nothing read yet.
    Accepted,
    /// Waiting for the next 5-byte marker.
    ReadingMarker,
    /// Marker read; waiting for the 8-byte length field.
    ReadingLength { kind: MarkerKind },
    /// Length read; waiting for exactly `len` payload bytes.
    ReadingPayload { kind: MarkerKind, len: u64 },
    /// Clean end of stream at a marker boundary.
    Closed,
    /// Protocol violation or transport failure.
    Failed,
}

/// What the transport handed the session.
pub enum SessionEvent {
    /// The connection is up.
    Opened,
    /// Five marker bytes arrived.
    MarkerRead { bytes: [u8; 5] },
    /// End of stream with zero bytes read at a marker boundary.
    MarkerEof,
    /// The length field arrived.
    LengthRead { len: u64 },
    /// The payload arrived, read to the declared length.
    PayloadRead { bytes: Vec<u8> },
    /// A read failed.
    IoFailure,
}

/// What the session asks the transport to do next.
pub enum SessionAction {
    /// Read the next 5-byte marker (or observe end of stream).
    ReadMarker,
    /// Read the 8-byte length field.
    ReadLength,
    /// Read exactly `len` payload bytes.
    ReadPayload { len: u64 },
    /// A whole message arrived; hand it on and read the next marker.
    Deliver { message: Message },
    /// The session is over; close the connection.
    Stop,
    /// The session failed; close the connection with this error.
    Fail { error: FrameError },
}

/// One step of the per-connection session machine. The transport reads
/// bytes and reports them as events; this function alone decides what
/// the protocol makes of them. It takes one connection's state and
/// nothing else, so a violation on one session — an unrecognized
/// marker, a bad payload, a dead transport — fails that session only.
///
/// An unrecognized marker fails the session with `UnknownMarker`; end
/// of stream at a marker boundary closes it cleanly; a payload shorter
/// or longer than declared, or an unreadable `FileInfo` size suffix,
/// fails it; an event that the current state cannot expect is a driver
/// fault and also fails it.
pub fn session_step(state: SessionState, event: SessionEvent) -> (r: (
    SessionState,
    SessionAction,
))
    ensures
        ({
            let (next, action) = r;
            match (state, event) {
                (SessionState::Accepted, SessionEvent::Opened) => next
                    == SessionState::ReadingMarker && action == SessionAction::ReadMarker,
                (SessionState::ReadingMarker, SessionEvent::MarkerRead { bytes }) => if bytes@
                    == info_marker() {
                    next == (SessionState::ReadingLength { kind: MarkerKind::Info }) && action
                        == SessionAction::ReadLength
                } else if bytes@ == data_marker() {
                    next == (SessionState::ReadingLength { kind: MarkerKind::Data }) && action
                        == SessionAction::ReadLength
                } else {
                    next == SessionState::Failed && action == (SessionAction::Fail {
                        error: FrameError::UnknownMarker,
                    })
                },
                (SessionState::ReadingMarker, SessionEvent::MarkerEof) => next
                    == SessionState::Closed && action == SessionAction::Stop,
                (SessionState::ReadingLength { kind }, SessionEvent::LengthRead { len }) => next
                    == (SessionState::ReadingPayload { kind, len }) && action
                    == (SessionAction::ReadPayload { len }),
                (
                    SessionState::ReadingPayload { kind, len },
                    SessionEvent::PayloadRead { bytes },
                ) => if bytes@.len() != len {
                    next == SessionState::Failed && action == (SessionAction::Fail {
                        error: FrameError::Truncated,
                    })
                } else {
                    match kind {
                        MarkerKind::Data => next == SessionState::ReadingMarker && (
                        action matches SessionAction::Deliver { message }
                            && message matches Message::FileData(d) && d@ == bytes@),
                        MarkerKind::Info => if valid_info_payload(bytes@) {
                            next == SessionState::ReadingMarker && (
                            action matches SessionAction::Deliver { message }
                                && message matches Message::FileInfo { path, size } && bytes@
                                == spec_info_payload(path@, size))
                        } else {
                            next == SessionState::Failed && action == (SessionAction::Fail {
                                error: FrameError::MalformedInfo,
                            })
                        },
                    }
                },
                (_, SessionEvent::IoFailure) => next == SessionState::Failed && action
                    == SessionAction::Stop,
                _ => next == SessionState::Failed && action == SessionAction::Stop,
            }
        }),
{
    match (state, event) {
        (SessionState::Accepted, SessionEvent::Opened) => (
            SessionState::ReadingMarker,
            SessionAction::ReadMarker,
        ),
        (SessionState::ReadingMarker, SessionEvent::MarkerRead { bytes }) => {
            match classify_marker(&bytes) {
                Some(kind) => (SessionState::ReadingLength { kind }, SessionAction::ReadLength),
                None => (
                    SessionState::Failed,
                    SessionAction::Fail { error: FrameError::UnknownMarker },
                ),
            }
        },
        (SessionState::ReadingMarker, SessionEvent::MarkerEof) => (
            SessionState::Closed,
            SessionAction::Stop,
        ),
        (SessionState::ReadingLength { kind }, SessionEvent::LengthRead { len }) => (
            SessionState::ReadingPayload { kind, len },
            SessionAction::ReadPayload { len },
        ),
        (SessionState::ReadingPayload { kind, len }, SessionEvent::PayloadRead { bytes }) => {
            if bytes.len() as u64 != len {
                (SessionState::Failed, SessionAction::Fail { error: FrameError::Truncated })
            } else {
                match kind {
                    MarkerKind::Data => (
                        SessionState::ReadingMarker,
                        SessionAction::Deliver { message: Message::FileData(bytes) },
                    ),
                    MarkerKind::Info => match decode_info_payload(bytes) {
                        Ok(message) => (
                            SessionState::ReadingMarker,
                            SessionAction::Deliver { message },
                        ),
                        Err(error) => (SessionState::Failed, SessionAction::Fail { error }),
                    },
                }
            }
        },
        (_, SessionEvent::IoFailure) => (SessionState::Failed, SessionAction::Stop),
        _ => (SessionState::Failed, SessionAction::Stop),
    }
}

} // verus!
