//! Decoding of DER-encoded ECDSA signatures.
//!
//! A signature is `SEQUENCE { r INTEGER, s INTEGER }`. Only the one canonical
//! encoding of each pair of non-negative integers is accepted.

use vstd::prelude::*;
use crate::error::AgentError;

verus! {

/// The value of the bytes `s[lo..hi]` read as a big-endian unsigned integer.
pub open spec fn be_value(s: Seq<u8>, lo: int, hi: int) -> nat
    decreases hi - lo,
{
    if hi <= lo {
        0
    } else {
        be_value(s, lo, hi - 1) * 256 + s[hi - 1] as nat
    }
}

/// The minimal big-endian bytes of `n`: no leading zero byte, and none at
/// all for zero.
pub open spec fn be_bytes(n: nat) -> Seq<u8>
    decreases n,
{
    if n == 0 {
        Seq::<u8>::empty()
    } else {
        be_bytes(n / 256).push((n % 256) as u8)
    }
}

/// A big-endian magnitude is minimal when it has no leading zero byte; zero
/// is the empty sequence.
pub open spec fn minimal(s: Seq<u8>) -> bool {
    s.len() > 0 ==> s[0] != 0
}

/// The DER length field that starts at `pos`: the length it states and the
/// position just after the field. `None` where the field is cut short, is not
/// in its shortest form, uses the reserved count of 127 length bytes, or
/// states more than the whole input holds.
pub open spec fn length_at(s: Seq<u8>, pos: int) -> Option<(nat, int)> {
    if pos < 0 || pos >= s.len() {
        None
    } else if s[pos] < 0x80 {
        Some((s[pos] as nat, pos + 1))
    } else {
        let k = s[pos] - 0x80;
        if k == 0 || k == 127 || pos + 1 + k > s.len() || s[pos + 1] == 0 {
            None
        } else {
            let v = be_value(s, pos + 1, pos + 1 + k);
            if v < 128 || v > s.len() {
                None
            } else {
                Some((v, pos + 1 + k))
            }
        }
    }
}

/// The DER INTEGER that starts at `pos`: its value and the position just
/// after it. `None` where the tag is not INTEGER, the content is empty or cut
/// short, the value is negative, or a leading zero byte is not needed to keep
/// the value non-negative.
pub open spec fn integer_at(s: Seq<u8>, pos: int) -> Option<(nat, int)> {
    if pos < 0 || pos >= s.len() || s[pos] != 0x02 {
        None
    } else {
        match length_at(s, pos + 1) {
            None => None,
            Some((n, start)) => {
                if n == 0 || start + n > s.len() || s[start] >= 0x80 || (n >= 2 && s[start] == 0
                    && s[start + 1] < 0x80) {
                    None
                } else {
                    Some((be_value(s, start, start + n), start + n))
                }
            },
        }
    }
}

/// The pair `(r, s)` that `bytes` encodes as a DER signature, if it is one.
pub open spec fn signature_of(bytes: Seq<u8>) -> Option<(nat, nat)> {
    if bytes.len() == 0 || bytes[0] != 0x30 {
        None
    } else {
        match length_at(bytes, 1) {
            None => None,
            Some((n, start)) => {
                if start + n != bytes.len() {
                    None
                } else {
                    match integer_at(bytes, start) {
                        None => None,
                        Some((r, mid)) => match integer_at(bytes, mid) {
                            None => None,
                            Some((s, end)) => if end == bytes.len() {
                                Some((r, s))
                            } else {
                                None
                            },
                        },
                    }
                }
            },
        }
    }
}

/// An ECDSA signature as two unsigned integers, each held as its minimal
/// big-endian magnitude.
#[derive(Clone, Debug, PartialEq, Eq)]
pub struct RawSignature {
    pub r: Vec<u8>,
    pub s: Vec<u8>,
}

impl RawSignature {
    /// The integer `r`.
    pub open spec fn r_value(&self) -> nat {
        be_value(self.r@, 0, self.r@.len() as int)
    }

    /// The integer `s`.
    pub open spec fn s_value(&self) -> nat {
        be_value(self.s@, 0, self.s@.len() as int)
    }

    /// Neither magnitude carries a leading zero byte.
    pub open spec fn wf(&self) -> bool {
        minimal(self.r@) && minimal(self.s@)
    }
}

/// Reading more bytes never makes the value smaller.
pub proof fn lemma_be_value_mono(s: Seq<u8>, lo: int, mid: int, hi: int)
    requires
        lo <= mid <= hi,
    ensures
        be_value(s, lo, mid) <= be_value(s, lo, hi),
    decreases hi - mid,
{
    if mid < hi {
        lemma_be_value_mono(s, lo, mid, hi - 1);
    }
}

/// A leading zero byte does not change the value.
pub proof fn lemma_be_value_leading_zero(s: Seq<u8>, lo: int, hi: int)
    requires
        0 <= lo < hi <= s.len(),
        s[lo] == 0,
    ensures
        be_value(s, lo, hi) == be_value(s, lo + 1, hi),
    decreases hi - lo,
{
    if hi > lo + 1 {
        lemma_be_value_leading_zero(s, lo, hi - 1);
    } else {
        assert(be_value(s, lo, lo) == 0);
        assert(be_value(s, lo + 1, hi) == 0);
    }
}

/// Two runs of equal bytes have equal values, wherever they lie.
pub proof fn lemma_be_value_same(a: Seq<u8>, alo: int, b: Seq<u8>, blo: int, n: int)
    requires
        0 <= n,
        0 <= alo,
        alo + n <= a.len(),
        0 <= blo,
        blo + n <= b.len(),
        forall|i: int| alo <= i < alo + n ==> #[trigger] a[i] == b[i - alo + blo],
    ensures
        be_value(a, alo, alo + n) == be_value(b, blo, blo + n),
    decreases n,
{
    if n > 0 {
        lemma_be_value_same(a, alo, b, blo, n - 1);
        assert(a[alo + n - 1] == b[alo + n - 1 - alo + blo]);
    }
}

/// A minimal magnitude is the minimal bytes of its value.
pub proof fn lemma_be_bytes_of_value(s: Seq<u8>)
    requires
        minimal(s),
    ensures
        be_bytes(be_value(s, 0, s.len() as int)) == s,
    decreases s.len(),
{
    let n = s.len() as int;
    if n > 0 {
        let head = s.subrange(0, n - 1);
        let rest = be_value(s, 0, n - 1);
        let v = be_value(s, 0, n);
        assert(v == rest * 256 + s[n - 1] as nat);
        lemma_be_value_mono(s, 0, 1, n);
        assert(be_value(s, 0, 0) == 0);
        assert(be_value(s, 0, 1) == s[0] as nat);
        assert(v > 0);
        assert(v / 256 == rest && v % 256 == s[n - 1] as nat) by (nonlinear_arith)
            requires
                v == rest * 256 + s[n - 1] as nat,
                0 <= s[n - 1] as nat,
                (s[n - 1] as nat) < 256,
        ;
        lemma_be_value_same(head, 0, s, 0, n - 1);
        lemma_be_bytes_of_value(head);
        assert(be_bytes(v) == be_bytes(rest).push(s[n - 1]));
        assert(head.push(s[n - 1]) =~= s);
    }
}

/// The DER length field for a length of `n`: one byte below 128, else the
/// count of length bytes in a byte with the top bit set, then the minimal
/// bytes of `n`.
pub open spec fn length_encoding(n: nat) -> Seq<u8> {
    if n < 128 {
        seq![n as u8]
    } else {
        seq![(0x80 + be_bytes(n).len()) as u8] + be_bytes(n)
    }
}

/// The content bytes of the DER INTEGER `v`: its minimal bytes, behind a zero
/// byte where they are empty or their top bit is set.
pub open spec fn integer_content(v: nat) -> Seq<u8> {
    let b = be_bytes(v);
    if b.len() == 0 || b[0] >= 0x80 {
        seq![0u8] + b
    } else {
        b
    }
}

/// The DER encoding of the INTEGER `v`.
pub open spec fn integer_encoding(v: nat) -> Seq<u8> {
    seq![0x02u8] + length_encoding(integer_content(v).len()) + integer_content(v)
}

/// The DER encoding of the signature `(r, s)`.
pub open spec fn signature_encoding(r: nat, s: nat) -> Seq<u8> {
    let body = integer_encoding(r) + integer_encoding(s);
    seq![0x30u8] + length_encoding(body.len()) + body
}

/// A length has a DER length field when it takes at most 126 length bytes.
pub open spec fn length_encodable(n: nat) -> bool {
    n < 128 || be_bytes(n).len() <= 126
}

/// The pair `(r, s)` has a DER encoding when each of its length fields has one.
pub open spec fn signature_encodable(r: nat, s: nat) -> bool {
    &&& length_encodable(integer_content(r).len())
    &&& length_encodable(integer_content(s).len())
    &&& length_encodable((integer_encoding(r) + integer_encoding(s)).len())
}

/// The bytes `part` lie in `s` from position `pos` on.
pub open spec fn holds_at(s: Seq<u8>, pos: int, part: Seq<u8>) -> bool {
    0 <= pos && pos + part.len() <= s.len() && s.subrange(pos, pos + part.len()) == part
}

/// Where two parts lie in `s` one behind the other, each lies there.
pub proof fn lemma_holds_at_split(s: Seq<u8>, pos: int, a: Seq<u8>, b: Seq<u8>)
    requires
        holds_at(s, pos, a + b),
    ensures
        holds_at(s, pos, a),
        holds_at(s, pos + a.len(), b),
{
    let whole = s.subrange(pos, pos + (a + b).len());
    assert(s.subrange(pos, pos + a.len()) =~= whole.subrange(0, a.len() as int));
    assert((a + b).subrange(0, a.len() as int) =~= a);
    assert(s.subrange(pos + a.len(), pos + a.len() + b.len()) =~= whole.subrange(
        a.len() as int,
        (a + b).len() as int,
    ));
    assert((a + b).subrange(a.len() as int, (a + b).len() as int) =~= b);
}

/// The value of a part that lies in `s` is the value of the part.
pub proof fn lemma_be_value_of_part(s: Seq<u8>, pos: int, part: Seq<u8>)
    requires
        holds_at(s, pos, part),
    ensures
        be_value(s, pos, pos + part.len()) == be_value(part, 0, part.len() as int),
{
    assert forall|i: int| pos <= i < pos + part.len() implies #[trigger] s[i] == part[i
        - pos] by {
        assert(s.subrange(pos, pos + part.len())[i - pos] == s[i]);
    }
    lemma_be_value_same(s, pos, part, 0, part.len() as int);
}

/// The minimal bytes of a number have no leading zero byte.
pub proof fn lemma_be_bytes_minimal(n: nat)
    ensures
        minimal(be_bytes(n)),
        n > 0 ==> be_bytes(n).len() > 0,
        n == 0 ==> be_bytes(n).len() == 0,
    decreases n,
{
    if n > 0 {
        lemma_be_bytes_minimal(n / 256);
        if n / 256 == 0 {
            assert(be_bytes(n)[0] == (n % 256) as u8);
            assert(n % 256 == n);
        } else {
            assert(be_bytes(n)[0] == be_bytes(n / 256)[0]);
        }
    }
}

/// The minimal bytes of a number have that number as their value.
pub proof fn lemma_be_value_of_bytes(n: nat)
    ensures
        be_value(be_bytes(n), 0, be_bytes(n).len() as int) == n,
    decreases n,
{
    if n > 0 {
        let head = be_bytes(n / 256);
        let b = be_bytes(n);
        assert(b == head.push((n % 256) as u8));
        lemma_be_value_of_bytes(n / 256);
        lemma_be_value_same(b, 0, head, 0, head.len() as int);
        assert(be_value(b, 0, b.len() as int) == be_value(b, 0, b.len() - 1) * 256 + b[b.len()
            - 1] as nat);
    }
}

/// Where the length field of `n` lies in `s`, that is what is read there.
pub proof fn lemma_length_at_encoding(s: Seq<u8>, pos: int, n: nat)
    requires
        holds_at(s, pos, length_encoding(n)),
        length_encodable(n),
        n <= s.len(),
    ensures
        length_at(s, pos) == Some((n, pos + length_encoding(n).len())),
{
    let field = length_encoding(n);
    assert(s.subrange(pos, pos + field.len())[0] == s[pos]);
    if n >= 128 {
        let b = be_bytes(n);
        lemma_be_bytes_minimal(n);
        lemma_be_value_of_bytes(n);
        lemma_holds_at_split(s, pos, seq![(0x80 + b.len()) as u8], b);
        lemma_be_value_of_part(s, pos + 1, b);
        assert(s.subrange(pos + 1, pos + 1 + b.len())[0] == s[pos + 1]);
        assert(s[pos] == (0x80 + b.len()) as u8);
    }
}

/// Where the encoding of the INTEGER `v` lies in `s`, `v` is read there.
pub proof fn lemma_integer_at_encoding(s: Seq<u8>, pos: int, v: nat)
    requires
        holds_at(s, pos, integer_encoding(v)),
        length_encodable(integer_content(v).len()),
    ensures
        integer_at(s, pos) == Some((v, pos + integer_encoding(v).len())),
{
    let c = integer_content(v);
    let field = length_encoding(c.len());
    let b = be_bytes(v);
    lemma_be_bytes_minimal(v);
    lemma_be_value_of_bytes(v);
    lemma_holds_at_split(s, pos, seq![0x02u8] + field, c);
    lemma_holds_at_split(s, pos, seq![0x02u8], field);
    assert(s.subrange(pos, pos + 1)[0] == s[pos]);
    lemma_length_at_encoding(s, pos + 1, c.len());
    let start = pos + 1 + field.len();
    assert(s.subrange(start, start + c.len())[0] == s[start]);
    lemma_be_value_of_part(s, start, c);
    if b.len() == 0 || b[0] >= 0x80 {
        assert(c[0] == 0);
        lemma_be_value_leading_zero(c, 0, c.len() as int);
        lemma_be_value_same(c, 1, b, 0, b.len() as int);
        if b.len() > 0 {
            assert(s.subrange(start, start + c.len())[1] == s[start + 1]);
            assert(c[1] == b[0]);
        }
    }
}

/// 256 to the power of `k`.
pub open spec fn pow256(k: nat) -> nat
    decreases k,
{
    if k == 0 {
        1
    } else {
        256 * pow256((k - 1) as nat)
    }
}

/// A number below 256 to the `k` has at most `k` bytes.
pub proof fn lemma_be_bytes_len(n: nat, k: nat)
    requires
        n < pow256(k),
    ensures
        be_bytes(n).len() <= k,
    decreases k,
{
    if n > 0 {
        let below = pow256((k - 1) as nat);
        assert(n / 256 < below) by (nonlinear_arith)
            requires
                n < 256 * below,
        ;
        lemma_be_bytes_len(n / 256, (k - 1) as nat);
    }
}

/// Every length that a machine can hold has a DER length field.
pub proof fn lemma_machine_length_encodable(n: nat)
    requires
        n <= u64::MAX,
    ensures
        length_encodable(n),
{
    assert(pow256(8) == 0x1_0000_0000_0000_0000) by {
        reveal_with_fuel(pow256, 9);
    }
    lemma_be_bytes_len(n, 8);
}

/// Decoding the encoding of a pair of integers gives the pair back.
pub proof fn lemma_decode_encoding(r: nat, s: nat)
    requires
        signature_encodable(r, s),
    ensures
        signature_of(signature_encoding(r, s)) == Some((r, s)),
{
    let first = integer_encoding(r);
    let second = integer_encoding(s);
    let body = first + second;
    let field = length_encoding(body.len());
    let bytes = signature_encoding(r, s);
    assert(bytes.subrange(0, bytes.len() as int) =~= bytes);
    assert(holds_at(bytes, 0, seq![0x30u8] + field + body));
    lemma_holds_at_split(bytes, 0, seq![0x30u8] + field, body);
    lemma_holds_at_split(bytes, 0, seq![0x30u8], field);
    lemma_length_at_encoding(bytes, 1, body.len());
    let start = (field.len() + 1) as int;
    lemma_holds_at_split(bytes, start, first, second);
    lemma_integer_at_encoding(bytes, start, r);
    lemma_integer_at_encoding(bytes, start + first.len(), s);
}

/// The field that is read at `pos` is the length field of the length read.
pub proof fn lemma_length_at_canonical(s: Seq<u8>, pos: int)
    requires
        length_at(s, pos) is Some,
    ensures
        length_encodable(length_at(s, pos).unwrap().0),
        holds_at(s, pos, length_encoding(length_at(s, pos).unwrap().0)),
        length_at(s, pos).unwrap().1 == pos + length_encoding(length_at(s, pos).unwrap().0).len(),
{
    let n = length_at(s, pos).unwrap().0;
    if s[pos] < 0x80 {
        assert(s.subrange(pos, pos + 1) =~= seq![n as u8]);
    } else {
        let k = s[pos] - 0x80;
        let part = s.subrange(pos + 1, pos + 1 + k);
        assert(part[0] == s[pos + 1]);
        assert(holds_at(s, pos + 1, part));
        lemma_be_value_of_part(s, pos + 1, part);
        lemma_be_bytes_of_value(part);
        assert(be_bytes(n) == part);
        assert(s.subrange(pos, pos + 1 + k) =~= seq![(0x80 + k) as u8] + part);
    }
}

/// What is read as an INTEGER at `pos` is the encoding of the value read.
pub proof fn lemma_integer_at_canonical(s: Seq<u8>, pos: int)
    requires
        integer_at(s, pos) is Some,
    ensures
        length_encodable(integer_content(integer_at(s, pos).unwrap().0).len()),
        holds_at(s, pos, integer_encoding(integer_at(s, pos).unwrap().0)),
        integer_at(s, pos).unwrap().1 == pos + integer_encoding(integer_at(s, pos).unwrap().0).len(),
{
    let v = integer_at(s, pos).unwrap().0;
    let n = length_at(s, pos + 1).unwrap().0;
    let start = length_at(s, pos + 1).unwrap().1;
    lemma_length_at_canonical(s, pos + 1);
    let field = length_encoding(n);
    let c = s.subrange(start, start + n);
    assert(c[0] == s[start]);
    assert(holds_at(s, start, c));
    lemma_be_value_of_part(s, start, c);
    if c[0] == 0 {
        let m = c.subrange(1, n as int);
        lemma_be_value_leading_zero(c, 0, n as int);
        assert(holds_at(c, 1, m));
        lemma_be_value_of_part(c, 1, m);
        if n >= 2 {
            assert(c[1] == s[start + 1]);
            assert(m[0] == c[1]);
        }
        lemma_be_bytes_of_value(m);
        assert(be_bytes(v) == m);
        assert(seq![0u8] + m =~= c);
    } else {
        lemma_be_bytes_of_value(c);
    }
    assert(integer_content(v) == c);
    assert(s.subrange(pos, start + n) =~= seq![0x02u8] + field + c) by {
        assert(s.subrange(pos + 1, pos + 1 + field.len()) == field);
        assert forall|i: int| 0 <= i < start + n - pos implies s.subrange(pos, start + n)[i] == (
        seq![0x02u8] + field + c)[i] by {
            if 1 <= i < 1 + field.len() {
                assert(s.subrange(pos + 1, pos + 1 + field.len())[i - 1] == s[pos + i]);
            } else if i >= 1 + field.len() {
                assert(c[i - 1 - field.len()] == s[pos + i]);
            }
        }
    }
}

/// An input of a size that a machine can hold, and that is the encoding of
/// a pair of integers, is accepted and gives that pair.
pub proof fn lemma_encoding_is_accepted(bytes: Seq<u8>, r: nat, s: nat)
    requires
        bytes == signature_encoding(r, s),
        bytes.len() <= u64::MAX,
    ensures
        signature_of(bytes) == Some((r, s)),
{
    lemma_machine_length_encodable(integer_content(r).len());
    lemma_machine_length_encodable(integer_content(s).len());
    lemma_machine_length_encodable((integer_encoding(r) + integer_encoding(s)).len());
    lemma_decode_encoding(r, s);
}

/// Only the encoding of a pair decodes to that pair: an input that is
/// accepted is, byte for byte, the encoding of the integers it gives.
pub proof fn lemma_accepted_is_canonical(bytes: Seq<u8>)
    requires
        signature_of(bytes) is Some,
    ensures
        signature_encodable(signature_of(bytes).unwrap().0, signature_of(bytes).unwrap().1),
        bytes == signature_encoding(signature_of(bytes).unwrap().0, signature_of(bytes).unwrap().1),
{
    let r = signature_of(bytes).unwrap().0;
    let s = signature_of(bytes).unwrap().1;
    let n = length_at(bytes, 1).unwrap().0;
    let start = length_at(bytes, 1).unwrap().1;
    let mid = integer_at(bytes, start).unwrap().1;
    lemma_length_at_canonical(bytes, 1);
    lemma_integer_at_canonical(bytes, start);
    lemma_integer_at_canonical(bytes, mid);
    let first = integer_encoding(r);
    let second = integer_encoding(s);
    let field = length_encoding(n);
    assert(bytes.subrange(start, bytes.len() as int) =~= first + second) by {
        assert forall|i: int| 0 <= i < bytes.len() - start implies bytes.subrange(
            start,
            bytes.len() as int,
        )[i] == (first + second)[i] by {
            if i < first.len() {
                assert(bytes.subrange(start, start + first.len())[i] == bytes[start + i]);
            } else {
                assert(bytes.subrange(mid, mid + second.len())[i - first.len()] == bytes[start
                    + i]);
            }
        }
    }
    assert(n == (first + second).len());
    assert(bytes =~= seq![0x30u8] + field + (first + second)) by {
        assert forall|i: int| 0 <= i < bytes.len() implies bytes[i] == (seq![0x30u8] + field + (
        first + second))[i] by {
            if 1 <= i < 1 + field.len() {
                assert(bytes.subrange(1, start)[i - 1] == bytes[i]);
            } else if i >= 1 + field.len() {
                assert(bytes.subrange(start, bytes.len() as int)[i - start] == bytes[i]);
            }
        }
    }
}

/// An input that is not the encoding of any pair of integers is refused.
pub proof fn lemma_not_an_encoding_is_refused(bytes: Seq<u8>)
    requires
        forall|r: nat, s: nat| bytes != #[trigger] signature_encoding(r, s),
    ensures
        signature_of(bytes) is None,
{
    if signature_of(bytes) is Some {
        lemma_accepted_is_canonical(bytes);
    }
}

/// An input whose first byte is not the SEQUENCE tag is refused.
pub proof fn lemma_wrong_outer_tag_is_refused(bytes: Seq<u8>)
    requires
        bytes.len() > 0,
        bytes[0] != 0x30,
    ensures
        signature_of(bytes) is None,
{
}

/// Where the byte at which an INTEGER is due is not the INTEGER tag, none is
/// read, and an input with such a byte in the place of either integer is
/// refused.
pub proof fn lemma_wrong_inner_tag_is_refused(bytes: Seq<u8>, pos: int)
    requires
        0 <= pos < bytes.len(),
        bytes[pos] != 0x02,
    ensures
        integer_at(bytes, pos) is None,
        length_at(bytes, 1) is Some && length_at(bytes, 1).unwrap().1 == pos ==> signature_of(bytes)
            is None,
        length_at(bytes, 1) is Some && integer_at(bytes, length_at(bytes, 1).unwrap().1) is Some
            && integer_at(bytes, length_at(bytes, 1).unwrap().1).unwrap().1 == pos ==> signature_of(bytes)
            is None,
{
}

/// An INTEGER whose content starts with a zero byte that its next byte does
/// not need is not read.
pub proof fn lemma_needless_zero_is_refused(bytes: Seq<u8>, pos: int)
    requires
        length_at(bytes, pos + 1) is Some,
        length_at(bytes, pos + 1).unwrap().0 >= 2,
        length_at(bytes, pos + 1).unwrap().1 + 1 < bytes.len(),
        bytes[length_at(bytes, pos + 1).unwrap().1] == 0,
        bytes[length_at(bytes, pos + 1).unwrap().1 + 1] < 0x80,
    ensures
        integer_at(bytes, pos) is None,
{
}

/// The length field that is read in a prefix of `s` is read in `s` too.
pub proof fn lemma_length_at_prefix(s: Seq<u8>, n: int, pos: int)
    requires
        0 <= n <= s.len(),
        length_at(s.take(n), pos) is Some,
    ensures
        length_at(s, pos) == length_at(s.take(n), pos),
{
    let t = s.take(n);
    assert(t[pos] == s[pos]);
    if t[pos] >= 0x80 {
        let k = t[pos] - 0x80;
        assert(t[pos + 1] == s[pos + 1]);
        lemma_be_value_same(t, pos + 1, s, pos + 1, k);
    }
}

/// A truncated signature is refused: no proper prefix of an accepted input
/// is accepted.
pub proof fn lemma_truncated_is_refused(bytes: Seq<u8>, n: int)
    requires
        signature_of(bytes) is Some,
        0 <= n < bytes.len(),
    ensures
        signature_of(bytes.take(n)) is None,
{
    let t = bytes.take(n);
    if n > 0 {
        assert(t[0] == bytes[0]);
        if length_at(t, 1) is Some {
            lemma_length_at_prefix(bytes, n, 1);
        }
    }
}

/// Reads the length field at `pos`.
fn read_length(bytes: &[u8], pos: usize) -> (r: Option<(usize, usize)>)
    requires
        pos <= bytes.len(),
    ensures
        match length_at(bytes@, pos as int) {
            None => r is None,
            Some((v, next)) => r == Some((v as usize, next as usize)) && v <= usize::MAX && next
                <= bytes.len(),
        },
{
    let n: usize = bytes.len();
    if pos >= n {
        return None;
    }
    let first: u8 = bytes[pos];
    if first < 0x80 {
        return Some((first as usize, pos + 1));
    }
    let k: usize = (first - 0x80) as usize;
    if k == 0 || k == 127 || k > n - pos - 1 {
        return None;
    }
    if bytes[pos + 1] == 0 {
        return None;
    }
    let mut acc: usize = 0;
    let mut i: usize = 0;
    while i < k
        invariant
            i <= k,
            pos + 1 + k <= n,
            n == bytes.len(),
            k == bytes@[pos as int] - 0x80,
            acc == be_value(bytes@, pos + 1, pos + 1 + i),
            acc <= n,
        decreases k - i,
    {
        let b: u8 = bytes[pos + 1 + i];
        if acc as u128 * 256 + b as u128 > n as u128 {
            proof {
                assert(be_value(bytes@, pos + 1, pos + 1 + i + 1) == acc * 256 + b);
                lemma_be_value_mono(bytes@, pos + 1, pos + 1 + i + 1, pos + 1 + k);
            }
            return None;
        }
        acc = acc * 256 + b as usize;
        i = i + 1;
    }
    if acc < 128 {
        None
    } else {
        Some((acc, pos + 1 + k))
    }
}

/// Reads the INTEGER at `pos` and returns its minimal magnitude.
fn read_integer(bytes: &[u8], pos: usize) -> (r: Option<(Vec<u8>, usize)>)
    requires
        pos <= bytes.len(),
    ensures
        match integer_at(bytes@, pos as int) {
            None => r is None,
            Some((v, next)) => r is Some && minimal(r.unwrap().0@) && be_value(
                r.unwrap().0@,
                0,
                r.unwrap().0@.len() as int,
            ) == v && r.unwrap().1 == next && next <= bytes.len(),
        },
{
    let total: usize = bytes.len();
    if pos >= total || bytes[pos] != 0x02 {
        return None;
    }
    let (n, start) = match read_length(bytes, pos + 1) {
        None => { return None; },
        Some(found) => found,
    };
    if n == 0 || n > total - start || bytes[start] >= 0x80 {
        return None;
    }
    if n >= 2 && bytes[start] == 0 && bytes[start + 1] < 0x80 {
        return None;
    }
    let end: usize = start + n;
    let from: usize = if bytes[start] == 0 {
        start + 1
    } else {
        start
    };
    let mut out: Vec<u8> = Vec::new();
    let mut j: usize = from;
    while j < end
        invariant
            from <= j <= end,
            end <= bytes.len(),
            out@ == bytes@.subrange(from as int, j as int),
        decreases end - j,
    {
        out.push(bytes[j]);
        j = j + 1;
        assert(out@ =~= bytes@.subrange(from as int, j as int));
    }
    proof {
        if from > start {
            lemma_be_value_leading_zero(bytes@, start as int, end as int);
        }
        lemma_be_value_same(out@, 0, bytes@, from as int, end - from);
    }
    Some((out, end))
}

/// Reads a whole signature: the SEQUENCE header, then two INTEGERs that fill
/// it to the last byte.
fn read_signature(bytes: &[u8]) -> (res: Result<RawSignature, AgentError>)
    ensures
        match signature_of(bytes@) {
            Some((r, s)) => res matches Ok(sig) && sig.r@ == be_bytes(r) && sig.s@ == be_bytes(s)
                && sig.wf() && sig.r_value() == r && sig.s_value() == s,
            None => res == Err::<RawSignature, AgentError>(AgentError::MalformedSignature),
        },
{
    let total: usize = bytes.len();
    if total == 0 || bytes[0] != 0x30 {
        return Err(AgentError::MalformedSignature);
    }
    let (n, start) = match read_length(bytes, 1) {
        None => { return Err(AgentError::MalformedSignature); },
        Some(found) => found,
    };
    if n != total - start {
        return Err(AgentError::MalformedSignature);
    }
    let (r, mid) = match read_integer(bytes, start) {
        None => { return Err(AgentError::MalformedSignature); },
        Some(found) => found,
    };
    let (s, end) = match read_integer(bytes, mid) {
        None => { return Err(AgentError::MalformedSignature); },
        Some(found) => found,
    };
    if end != total {
        return Err(AgentError::MalformedSignature);
    }
    proof {
        lemma_be_bytes_of_value(r@);
        lemma_be_bytes_of_value(s@);
    }
    Ok(RawSignature { r, s })
}

/// Decodes a DER-encoded ECDSA signature into its two integers.
///
/// Succeeds exactly on the DER encodings of a pair of non-negative integers,
/// and then returns that pair, each integer as its minimal big-endian bytes.
/// Every other input is refused as malformed: a truncated one, one with
/// another tag in the place of the SEQUENCE or of an INTEGER, a length field
/// or an integer that is not in its shortest form, a negative integer, or
/// anything before, between or after the two integers.
pub fn decode_der_signature(bytes: &[u8]) -> (res: Result<RawSignature, AgentError>)
    ensures
        res is Ok <==> exists|r: nat, s: nat| bytes@ == #[trigger] signature_encoding(r, s),
        res matches Ok(sig) ==> bytes@ == signature_encoding(sig.r_value(), sig.s_value())
            && sig.wf() && sig.r@ == be_bytes(sig.r_value()) && sig.s@ == be_bytes(sig.s_value()),
        res is Err ==> res == Err::<RawSignature, AgentError>(AgentError::MalformedSignature),
        match signature_of(bytes@) {
            Some((r, s)) => res matches Ok(sig) && sig.r_value() == r && sig.s_value() == s,
            None => res is Err,
        },
{
    let total: usize = bytes.len();
    let res = read_signature(bytes);
    proof {
        assert(bytes@.len() == total && total <= 0xffff_ffff_ffff_ffff);
        if signature_of(bytes@) is Some {
            lemma_accepted_is_canonical(bytes@);
        } else {
            assert forall|r: nat, s: nat| bytes@ != #[trigger] signature_encoding(r, s) by {
                if bytes@ == signature_encoding(r, s) {
                    lemma_encoding_is_accepted(bytes@, r, s);
                }
            }
        }
    }
    res
}

} // verus!
