use vstd::prelude::*;
use crate::message::{rlp_request_pair, DecodeError};
use crate::rlp::{
    be_min, lemma_be_min_len, lemma_be_min_u64, pow256, rlp_byte_items, rlp_byte_list,
    rlp_header, rlp_uint,
};

verus! {

/// The number that big-endian bytes `s` hold.
pub open spec fn be_value(s: Seq<u8>) -> nat
    decreases s.len(),
{
    if s.len() == 0 {
        0
    } else {
        be_value(s.drop_last()) * 256 + s.last() as nat
    }
}

/// Reads an RLP integer of at most `max` bytes from the front of `s`: its value and the
/// number of bytes it takes. Only the canonical form is accepted.
pub open spec fn parse_uint(s: Seq<u8>, max: nat) -> Result<(nat, nat), DecodeError> {
    if s.len() == 0 {
        Err(DecodeError::InputTooShort)
    } else if s[0] == 0 {
        Err(DecodeError::LeadingZero)
    } else if s[0] < 0x80 {
        Ok((s[0] as nat, 1))
    } else if s[0] == 0x80 {
        Ok((0, 1))
    } else if s[0] < 0xb8 {
        let n = (s[0] - 0x80) as nat;
        if n > max {
            Err(DecodeError::Overflow)
        } else if s.len() < 1 + n {
            Err(DecodeError::InputTooShort)
        } else if s[1] == 0 {
            Err(DecodeError::LeadingZero)
        } else if n == 1 && s[1] < 0x80 {
            Err(DecodeError::NonCanonicalSingleByte)
        } else {
            Ok((be_value(s.subrange(1, (1 + n) as int)), 1 + n))
        }
    } else if s[0] < 0xc0 {
        Err(DecodeError::Overflow)
    } else {
        Err(DecodeError::UnexpectedList)
    }
}

/// Reads an RLP list header from the front of `s`: the payload length and the number
/// of bytes the header takes. Only the canonical form is accepted.
pub open spec fn parse_list_header(s: Seq<u8>) -> Result<(nat, nat), DecodeError> {
    if s.len() == 0 {
        Err(DecodeError::InputTooShort)
    } else if s[0] < 0xc0 {
        Err(DecodeError::UnexpectedString)
    } else if s[0] <= 0xf7 {
        Ok(((s[0] - 0xc0) as nat, 1))
    } else {
        let ll = (s[0] - 0xf7) as nat;
        if s.len() < 1 + ll {
            Err(DecodeError::InputTooShort)
        } else if s[1] == 0 {
            Err(DecodeError::LeadingZero)
        } else if be_value(s.subrange(1, (1 + ll) as int)) < 56 {
            Err(DecodeError::NonCanonicalSize)
        } else if be_value(s.subrange(1, (1 + ll) as int)) > usize::MAX {
            Err(DecodeError::Overflow)
        } else {
            Ok((be_value(s.subrange(1, (1 + ll) as int)), 1 + ll))
        }
    }
}

/// Reads byte-sized RLP integers until `s` is used up.
pub open spec fn parse_byte_items(s: Seq<u8>) -> Result<Seq<u8>, DecodeError>
    decreases s.len(),
{
    if s.len() == 0 {
        Ok(Seq::empty())
    } else {
        match parse_uint(s, 1) {
            Err(e) => Err(e),
            Ok((x, n)) => if 1 <= n <= s.len() {
                match parse_byte_items(s.skip(n as int)) {
                    Err(e) => Err(e),
                    Ok(rest) => Ok(seq![x as u8] + rest),
                }
            } else {
                Err(DecodeError::InputTooShort)
            },
        }
    }
}

/// Reads a request pair with a list of byte-sized integers as payload from the front of
/// `s`: its request id, its payload and the number of bytes it takes.
pub open spec fn parse_request_pair(s: Seq<u8>) -> Result<(u64, Seq<u8>, nat), DecodeError> {
    match parse_list_header(s) {
        Err(e) => Err(e),
        Ok((len, h)) => if s.len() < h + len {
            Err(DecodeError::InputTooShort)
        } else {
            let pl = s.subrange(h as int, (h + len) as int);
            match parse_uint(pl, 8) {
                Err(e) => Err(e),
                Ok((id, n)) => match parse_list_header(pl.skip(n as int)) {
                    Err(e) => Err(e),
                    Ok((ml, mh)) => if pl.len() != n + mh + ml {
                        Err(DecodeError::ListLengthMismatch)
                    } else {
                        match parse_byte_items(pl.subrange((n + mh) as int, pl.len() as int)) {
                            Err(e) => Err(e),
                            Ok(m) => Ok((id as u64, m, h + len)),
                        }
                    },
                },
            }
        },
    }
}

proof fn lemma_be_value_push(s: Seq<u8>, b: u8)
    ensures
        be_value(s.push(b)) == be_value(s) * 256 + b as nat,
{
    assert(s.push(b).drop_last() =~= s);
}

/// Reading back the minimal bytes of `x` gives `x`; they never start with a zero byte.
proof fn lemma_be_min_value(x: nat)
    ensures
        be_value(be_min(x)) == x,
        be_min(x).len() > 0 ==> be_min(x)[0] != 0,
        x > 0 ==> be_min(x).len() > 0,
    decreases x,
{
    if x > 0 {
        lemma_be_min_value(x / 256);
        lemma_be_value_push(be_min(x / 256), (x % 256) as u8);
        if x / 256 == 0 {
            assert(be_min(x / 256).len() == 0);
        }
    }
}

proof fn lemma_be_value_positive(s: Seq<u8>)
    requires
        s.len() > 0,
        s[0] != 0,
    ensures
        be_value(s) > 0,
    decreases s.len(),
{
    if s.len() > 1 {
        lemma_be_value_positive(s.drop_last());
    }
}

/// Bytes without a leading zero are the minimal bytes of the number they hold.
proof fn lemma_value_be_min(s: Seq<u8>)
    requires
        s.len() > 0,
        s[0] != 0,
    ensures
        be_min(be_value(s)) == s,
    decreases s.len(),
{
    let v = be_value(s);
    let init = s.drop_last();
    if s.len() == 1 {
        assert(init.len() == 0);
        assert(v == s[0] as nat);
        assert(be_min(v) == be_min(0).push(s[0]));
        assert(be_min(v) =~= s);
    } else {
        lemma_value_be_min(init);
        lemma_be_value_positive(init);
        assert(v / 256 == be_value(init));
        assert(v % 256 == s.last() as nat);
        assert(be_min(v) =~= s);
    }
}

proof fn lemma_be_value_bound(s: Seq<u8>)
    ensures
        be_value(s) < pow256(s.len()),
    decreases s.len(),
{
    if s.len() > 0 {
        lemma_be_value_bound(s.drop_last());
        let p = pow256((s.len() - 1) as nat);
        let v = be_value(s.drop_last());
        let b = s.last() as nat;
        assert(v * 256 + b < 256 * p) by (nonlinear_arith)
            requires
                v < p,
                b < 256,
        ;
    }
}

proof fn lemma_pow256_mono(a: nat, b: nat)
    requires
        a <= b,
    ensures
        pow256(a) <= pow256(b),
    decreases b,
{
    if a < b {
        lemma_pow256_mono(a, (b - 1) as nat);
    }
}

/// An integer's RLP form reads back as that integer, whatever follows it.
proof fn lemma_uint_round_trip(x: nat, max: nat, rest: Seq<u8>)
    requires
        x < pow256(max),
        max >= 1,
        max <= 8,
    ensures
        parse_uint(rlp_uint(x) + rest, max) == Ok::<(nat, nat), DecodeError>((x, rlp_uint(x).len())),
{
    let s = rlp_uint(x) + rest;
    if x >= 0x80 {
        let m = be_min(x);
        lemma_be_min_value(x);
        lemma_be_min_len(x, max);
        assert(s.subrange(1, 1 + m.len() as int) =~= m);
        assert(s[1] == m[0]);
        if m.len() == 1 {
            lemma_be_min_value(x / 256);
            assert(x / 256 == 0);
            assert(m[0] == x);
        }
    }
}

/// Whatever `parse_uint` accepts is the RLP form of the integer it reads.
pub(crate) proof fn lemma_uint_sound(s: Seq<u8>, max: nat)
    requires
        parse_uint(s, max) is Ok,
    ensures
        parse_uint(s, max)->Ok_0.1 <= s.len(),
        parse_uint(s, max)->Ok_0.1 >= 1,
        s.subrange(0, parse_uint(s, max)->Ok_0.1 as int) == rlp_uint(parse_uint(s, max)->Ok_0.0),
{
    if s[0] < 0x80 {
        assert(s.subrange(0, 1) =~= seq![s[0]]);
    } else if s[0] == 0x80 {
        assert(s.subrange(0, 1) =~= seq![0x80u8]);
    } else {
        let n = (s[0] - 0x80) as nat;
        let b = s.subrange(1, (1 + n) as int);
        lemma_value_be_min(b);
        let x = be_value(b);
        if x < 0x80 {
            assert(be_min(x) == be_min(0).push(x as u8));
        }
        assert(s.subrange(0, (1 + n) as int) =~= seq![s[0]] + b);
    }
}

/// A list header reads back as the payload length it was written with, whatever follows.
proof fn lemma_list_header_round_trip(n: nat, rest: Seq<u8>)
    requires
        n <= usize::MAX,
    ensures
        parse_list_header(rlp_header(true, n) + rest) == Ok::<(nat, nat), DecodeError>(
            (n, rlp_header(true, n).len()),
        ),
{
    let s = rlp_header(true, n) + rest;
    if n >= 56 {
        let m = be_min(n);
        lemma_be_min_value(n);
        lemma_be_min_u64(n as u64);
        assert(s.subrange(1, 1 + m.len() as int) =~= m);
        assert(s[1] == m[0]);
    }
}

/// Whatever `parse_list_header` accepts is the RLP list header it reads.
pub(crate) proof fn lemma_list_header_sound(s: Seq<u8>)
    requires
        parse_list_header(s) is Ok,
    ensures
        parse_list_header(s)->Ok_0.1 <= s.len(),
        s.subrange(0, parse_list_header(s)->Ok_0.1 as int) == rlp_header(
            true,
            parse_list_header(s)->Ok_0.0,
        ),
{
    if s[0] <= 0xf7 {
        assert(s.subrange(0, 1) =~= seq![s[0]]);
    } else {
        let ll = (s[0] - 0xf7) as nat;
        let b = s.subrange(1, (1 + ll) as int);
        lemma_value_be_min(b);
        assert(s.subrange(0, (1 + ll) as int) =~= seq![s[0]] + b);
    }
}

proof fn lemma_byte_items_front(x: u8, m: Seq<u8>)
    ensures
        rlp_byte_items(seq![x] + m) == rlp_uint(x as nat) + rlp_byte_items(m),
    decreases m.len(),
{
    if m.len() == 0 {
        assert(seq![x] + m =~= seq![x]);
        assert(seq![x].drop_last() =~= Seq::<u8>::empty());
        assert(rlp_byte_items(seq![x]) == rlp_byte_items(seq![x].drop_last()) + rlp_uint(
            seq![x].last() as nat,
        ));
        assert(rlp_byte_items(Seq::<u8>::empty()) == Seq::<u8>::empty());
        assert(rlp_byte_items(seq![x] + m) =~= rlp_uint(x as nat) + rlp_byte_items(m));
    } else {
        lemma_byte_items_front(x, m.drop_last());
        let s = seq![x] + m;
        assert(s.drop_last() =~= seq![x] + m.drop_last());
        assert(s.last() == m.last());
        assert(rlp_byte_items(s) == rlp_byte_items(s.drop_last()) + rlp_uint(s.last() as nat));
        assert(rlp_byte_items(m) == rlp_byte_items(m.drop_last()) + rlp_uint(m.last() as nat));
        assert(rlp_byte_items(s) =~= rlp_uint(x as nat) + rlp_byte_items(m));
    }
}

/// The RLP items of a byte sequence read back as that sequence.
proof fn lemma_byte_items_round_trip(m: Seq<u8>)
    ensures
        parse_byte_items(rlp_byte_items(m)) == Ok::<Seq<u8>, DecodeError>(m),
    decreases m.len(),
{
    if m.len() > 0 {
        let x = m[0];
        let t = m.drop_first();
        assert(m =~= seq![x] + t);
        lemma_byte_items_front(x, t);
        let s = rlp_byte_items(m);
        reveal_with_fuel(pow256, 2);
        assert(pow256(1) == 256);
        lemma_uint_round_trip(x as nat, 1, rlp_byte_items(t));
        let n = rlp_uint(x as nat).len();
        assert(s == rlp_uint(x as nat) + rlp_byte_items(t));
        assert(parse_uint(s, 1) == Ok::<(nat, nat), DecodeError>((x as nat, n)));
        assert(1 <= n <= s.len());
        assert(s.skip(n as int) =~= rlp_byte_items(t));
        lemma_byte_items_round_trip(t);
        assert(seq![x as nat as u8] + t =~= m);
        assert(parse_byte_items(s) == Ok::<Seq<u8>, DecodeError>(seq![x as nat as u8] + t));
    } else {
        assert(m =~= Seq::<u8>::empty());
    }
}

/// Whatever `parse_byte_items` accepts is the RLP items of the sequence it reads.
proof fn lemma_byte_items_sound(s: Seq<u8>)
    requires
        parse_byte_items(s) is Ok,
    ensures
        s == rlp_byte_items(parse_byte_items(s)->Ok_0),
    decreases s.len(),
{
    if s.len() == 0 {
        assert(s =~= rlp_byte_items(Seq::empty()));
    } else {
        let (x, n) = parse_uint(s, 1)->Ok_0;
        lemma_uint_sound(s, 1);
        lemma_byte_items_sound(s.skip(n as int));
        let rest = parse_byte_items(s.skip(n as int))->Ok_0;
        assert(x < 256) by {
            if s[0] >= 0x80 && s[0] != 0x80 {
                let b = s.subrange(1, 2);
                lemma_be_value_bound(b);
                reveal_with_fuel(pow256, 2);
            }
        }
        lemma_byte_items_front(x as u8, rest);
        assert(s =~= s.subrange(0, n as int) + s.skip(n as int));
    }
}

proof fn lemma_pow256_eight()
    ensures
        pow256(8) == 0x1_0000_0000_0000_0000nat,
{
    reveal_with_fuel(pow256, 9);
}

/// A request pair's RLP form reads back as that pair, whatever bytes follow it.
pub proof fn lemma_request_pair_round_trip(id: u64, m: Seq<u8>, rest: Seq<u8>)
    requires
        rlp_request_pair(id, m).len() <= usize::MAX,
    ensures
        parse_request_pair(rlp_request_pair(id, m) + rest) == Ok::<
            (u64, Seq<u8>, nat),
            DecodeError,
        >((id, m, rlp_request_pair(id, m).len())),
{
    let u = rlp_uint(id as nat);
    let l = rlp_byte_list(m);
    let items = rlp_byte_items(m);
    let p = u + l;
    let hd = rlp_header(true, p.len());
    let s = rlp_request_pair(id, m) + rest;
    assert(s =~= hd + (p + rest));
    lemma_list_header_round_trip(p.len(), p + rest);
    let pl = s.subrange(hd.len() as int, (hd.len() + p.len()) as int);
    assert(pl =~= p);
    lemma_pow256_eight();
    lemma_uint_round_trip(id as nat, 8, l);
    let ih = rlp_header(true, items.len());
    assert(pl.skip(u.len() as int) =~= ih + items);
    lemma_list_header_round_trip(items.len(), items);
    assert(pl.subrange((u.len() + ih.len()) as int, pl.len() as int) =~= items);
    lemma_byte_items_round_trip(m);
}

/// Whatever reads as a request pair is that pair's RLP form.
pub proof fn lemma_request_pair_sound(s: Seq<u8>)
    requires
        parse_request_pair(s) is Ok,
    ensures
        parse_request_pair(s)->Ok_0.2 <= s.len(),
        s.subrange(0, parse_request_pair(s)->Ok_0.2 as int) == rlp_request_pair(
            parse_request_pair(s)->Ok_0.0,
            parse_request_pair(s)->Ok_0.1,
        ),
{
    let (len, h) = parse_list_header(s)->Ok_0;
    lemma_list_header_sound(s);
    let pl = s.subrange(h as int, (h + len) as int);
    let (id, n) = parse_uint(pl, 8)->Ok_0;
    lemma_uint_sound(pl, 8);
    let tail = pl.skip(n as int);
    let (ml, mh) = parse_list_header(tail)->Ok_0;
    lemma_list_header_sound(tail);
    let items = pl.subrange((n + mh) as int, pl.len() as int);
    let m = parse_byte_items(items)->Ok_0;
    lemma_byte_items_sound(items);
    lemma_pow256_eight();
    if pl[0] > 0x80 {
        let b = pl.subrange(1, n as int);
        lemma_be_value_bound(b);
        lemma_pow256_mono(b.len(), 8);
    }
    assert(id < pow256(8));
    assert(id as u64 as nat == id);
    assert(items.len() == ml);
    assert(tail.subrange(0, mh as int) == rlp_header(true, ml));
    assert(pl.skip(n as int) =~= tail.subrange(0, mh as int) + items);
    assert(pl =~= pl.subrange(0, n as int) + pl.skip(n as int));
    assert(s.subrange(0, (h + len) as int) =~= s.subrange(0, h as int) + pl);
}

proof fn lemma_be_value_step(s: Seq<u8>, start: int, i: int)
    requires
        0 <= start <= i < s.len(),
    ensures
        be_value(s.subrange(start, i + 1)) == be_value(s.subrange(start, i)) * 256 + s[i] as nat,
{
    assert(s.subrange(start, i + 1).drop_last() =~= s.subrange(start, i));
}

/// The number held by the `n` big-endian bytes of `s` from `start` on.
fn read_be(s: &[u8], start: usize, n: usize) -> (r: u64)
    requires
        n <= 8,
        start + n <= s@.len(),
    ensures
        r as nat == be_value(s@.subrange(start as int, (start + n) as int)),
{
    proof {
        lemma_pow256_eight();
        lemma_pow256_mono(n as nat, 8);
    }
    let mut v: u64 = 0;
    let mut i: usize = start;
    let len = s.len();
    let end = start + n;
    assert(s@.subrange(start as int, start as int).len() == 0);
    while i < end
        invariant
            end == start + n,
            end <= len,
            start <= i <= start + n,
            start + n <= s@.len(),
            n <= 8,
            pow256(n as nat) <= 0x1_0000_0000_0000_0000nat,
            v as nat == be_value(s@.subrange(start as int, i as int)),
            v < pow256((i - start) as nat),
        decreases end - i,
    {
        proof {
            lemma_be_value_step(s@, start as int, i as int);
            lemma_pow256_mono((i - start + 1) as nat, n as nat);
            let p = pow256((i - start) as nat);
            let vv = v as nat;
            let b = s@[i as int] as nat;
            assert(vv * 256 + b < 256 * p) by (nonlinear_arith)
                requires
                    vv < p,
                    b < 256,
            ;
            assert(pow256((i - start + 1) as nat) == 256 * p);
        }
        v = v * 256 + s[i] as u64;
        i += 1;
    }
    v
}

/// Reads an RLP integer of at most `max` bytes from the front of `s`.
pub(crate) fn decode_uint(s: &[u8], max: usize) -> (r: Result<(u64, usize), DecodeError>)
    requires
        1 <= max <= 8,
    ensures
        r is Ok <==> parse_uint(s@, max as nat) is Ok,
        r matches Ok((x, n)) ==> parse_uint(s@, max as nat) == Ok::<(nat, nat), DecodeError>(
            (x as nat, n as nat),
        ),
        r matches Err(e) ==> parse_uint(s@, max as nat) == Err::<(nat, nat), DecodeError>(e),
{
    if s.len() == 0 {
        return Err(DecodeError::InputTooShort);
    }
    let b = s[0];
    if b == 0 {
        Err(DecodeError::LeadingZero)
    } else if b < 0x80 {
        Ok((b as u64, 1))
    } else if b == 0x80 {
        Ok((0, 1))
    } else if b < 0xb8 {
        let n = (b - 0x80) as usize;
        if n > max {
            Err(DecodeError::Overflow)
        } else if s.len() < 1 + n {
            Err(DecodeError::InputTooShort)
        } else if s[1] == 0 {
            Err(DecodeError::LeadingZero)
        } else if n == 1 && s[1] < 0x80 {
            Err(DecodeError::NonCanonicalSingleByte)
        } else {
            Ok((read_be(s, 1, n), 1 + n))
        }
    } else if b < 0xc0 {
        Err(DecodeError::Overflow)
    } else {
        Err(DecodeError::UnexpectedList)
    }
}

/// Reads an RLP list header from the front of `s`: payload length, then header length.
pub(crate) fn decode_list_header(s: &[u8]) -> (r: Result<(usize, usize), DecodeError>)
    ensures
        r is Ok <==> parse_list_header(s@) is Ok,
        r matches Ok((len, h)) ==> parse_list_header(s@) == Ok::<(nat, nat), DecodeError>(
            (len as nat, h as nat),
        ),
        r matches Err(e) ==> parse_list_header(s@) == Err::<(nat, nat), DecodeError>(e),
{
    if s.len() == 0 {
        return Err(DecodeError::InputTooShort);
    }
    let b = s[0];
    if b < 0xc0 {
        Err(DecodeError::UnexpectedString)
    } else if b <= 0xf7 {
        Ok(((b - 0xc0) as usize, 1))
    } else {
        let ll = (b - 0xf7) as usize;
        if s.len() < 1 + ll {
            Err(DecodeError::InputTooShort)
        } else if s[1] == 0 {
            Err(DecodeError::LeadingZero)
        } else {
            let v = read_be(s, 1, ll);
            if v < 56 {
                Err(DecodeError::NonCanonicalSize)
            } else if v > usize::MAX as u64 {
                Err(DecodeError::Overflow)
            } else {
                Ok((v as usize, 1 + ll))
            }
        }
    }
}

/// Reads byte-sized RLP integers until `s` is used up.
pub(crate) fn decode_byte_items(s: &[u8]) -> (r: Result<Vec<u8>, DecodeError>)
    ensures
        r is Ok <==> parse_byte_items(s@) is Ok,
        r matches Ok(v) ==> parse_byte_items(s@) == Ok::<Seq<u8>, DecodeError>(v@),
        r matches Err(e) ==> parse_byte_items(s@) == Err::<Seq<u8>, DecodeError>(e),
{
    let mut v: Vec<u8> = Vec::new();
    let mut p: usize = 0;
    assert(s@.skip(0) =~= s@);
    assert(v@ + Seq::<u8>::empty() =~= v@);
    while p < s.len()
        invariant
            p <= s@.len(),
            parse_byte_items(s@) == (match parse_byte_items(s@.skip(p as int)) {
                Ok(rest) => Ok(v@ + rest),
                Err(e) => Err::<Seq<u8>, DecodeError>(e),
            }),
        decreases s@.len() - p,
    {
        let (_, rest) = s.split_at(p);
        assert(rest@ =~= s@.skip(p as int));
        match decode_uint(rest, 1) {
            Err(e) => {
                return Err(e);
            },
            Ok((x, n)) => {
                proof {
                    lemma_uint_sound(rest@, 1);
                    assert(s@.skip(p as int).skip(n as int) =~= s@.skip(p + n));
                    let tail = parse_byte_items(s@.skip(p + n));
                    if tail is Ok {
                        assert(v@.push(x as u8) + tail->Ok_0 =~= v@ + (seq![x as u8] + tail->Ok_0));
                    }
                }
                v.push(x as u8);
                p = p + n;
            },
        }
    }
    assert(s@.skip(p as int) =~= Seq::<u8>::empty());
    assert(v@ + Seq::<u8>::empty() =~= v@);
    Ok(v)
}

} // verus!
