use vstd::prelude::*;

verus! {

/// Minimal big-endian bytes of `x`: no leading zero byte, empty for zero.
pub open spec fn be_min(x: nat) -> Seq<u8>
    decreases x,
{
    if x == 0 {
        Seq::empty()
    } else {
        be_min(x / 256).push((x % 256) as u8)
    }
}

/// Powers of 256.
pub open spec fn pow256(k: nat) -> nat
    decreases k,
{
    if k == 0 {
        1
    } else {
        256 * pow256((k - 1) as nat)
    }
}

/// The RLP form of an unsigned integer.
pub open spec fn rlp_uint(x: nat) -> Seq<u8> {
    if x == 0 {
        seq![0x80u8]
    } else if x < 0x80 {
        seq![x as u8]
    } else {
        seq![(0x80 + be_min(x).len()) as u8] + be_min(x)
    }
}

/// The RLP header of a list (`list`) or a string whose payload has `len` bytes.
pub open spec fn rlp_header(list: bool, len: nat) -> Seq<u8> {
    let base: nat = if list {
        0xc0
    } else {
        0x80
    };
    if len < 56 {
        seq![(base + len) as u8]
    } else {
        seq![(base + 55 + be_min(len).len()) as u8] + be_min(len)
    }
}

/// The concatenated RLP forms of a sequence of byte-sized integers.
pub open spec fn rlp_byte_items(s: Seq<u8>) -> Seq<u8>
    decreases s.len(),
{
    if s.len() == 0 {
        Seq::empty()
    } else {
        rlp_byte_items(s.drop_last()) + rlp_uint(s.last() as nat)
    }
}

/// The RLP form of a list of byte-sized integers.
pub open spec fn rlp_byte_list(s: Seq<u8>) -> Seq<u8> {
    rlp_header(true, rlp_byte_items(s).len()) + rlp_byte_items(s)
}

pub proof fn lemma_be_min_len(x: nat, k: nat)
    requires
        x < pow256(k),
    ensures
        be_min(x).len() <= k,
    decreases k,
{
    if x != 0 {
        assert(k > 0);
        let p = pow256((k - 1) as nat);
        assert(x / 256 < p) by (nonlinear_arith)
            requires
                x < 256 * p,
        ;
        lemma_be_min_len(x / 256, (k - 1) as nat);
    }
}

/// Any 64-bit value takes at most eight bytes.
pub proof fn lemma_be_min_u64(x: u64)
    ensures
        be_min(x as nat).len() <= 8,
{
    reveal_with_fuel(pow256, 9);
    assert(pow256(8) == 0x1_0000_0000_0000_0000nat);
    lemma_be_min_len(x as nat, 8);
}

/// Minimal big-endian bytes of `x`.
pub fn be_bytes(x: u64) -> (r: Vec<u8>)
    ensures
        r@ == be_min(x as nat),
    decreases x,
{
    if x == 0 {
        Vec::new()
    } else {
        let mut v = be_bytes(x / 256);
        v.push((x % 256) as u8);
        v
    }
}

/// Appends the RLP form of the integer `x` to `out`.
pub fn encode_uint(x: u64, out: &mut Vec<u8>)
    ensures
        final(out)@ == old(out)@ + rlp_uint(x as nat),
{
    if x == 0 {
        out.push(0x80);
    } else if x < 0x80 {
        out.push(x as u8);
    } else {
        let mut b = be_bytes(x);
        proof {
            lemma_be_min_u64(x);
        }
        out.push((0x80 + b.len()) as u8);
        out.append(&mut b);
    }
    assert(final(out)@ =~= old(out)@ + rlp_uint(x as nat));
}

/// Number of bytes of the RLP form of the integer `x`.
pub fn uint_length(x: u64) -> (r: usize)
    ensures
        r == rlp_uint(x as nat).len(),
        r <= 9,
{
    if x < 0x80 {
        1
    } else {
        let b = be_bytes(x);
        proof {
            lemma_be_min_u64(x);
        }
        1 + b.len()
    }
}

/// Appends an RLP header for a list (`list`) or string with a payload of `len` bytes.
pub fn encode_header(list: bool, len: usize, out: &mut Vec<u8>)
    ensures
        final(out)@ == old(out)@ + rlp_header(list, len as nat),
{
    let base: u8 = if list {
        0xc0
    } else {
        0x80
    };
    if len < 56 {
        out.push(base + len as u8);
    } else {
        let mut b = be_bytes(len as u64);
        proof {
            lemma_be_min_u64(len as u64);
        }
        out.push(base + 55 + b.len() as u8);
        out.append(&mut b);
    }
    assert(final(out)@ =~= old(out)@ + rlp_header(list, len as nat));
}

/// Number of bytes of an RLP header for a payload of `len` bytes.
pub fn length_of_length(len: usize) -> (r: usize)
    ensures
        r == rlp_header(true, len as nat).len(),
        r == rlp_header(false, len as nat).len(),
        r <= 9,
{
    if len < 56 {
        1
    } else {
        let b = be_bytes(len as u64);
        proof {
            lemma_be_min_u64(len as u64);
        }
        1 + b.len()
    }
}

pub proof fn lemma_byte_items_step(s: Seq<u8>, i: int)
    requires
        0 <= i < s.len(),
    ensures
        rlp_byte_items(s.subrange(0, i + 1)) == rlp_byte_items(s.subrange(0, i)) + rlp_uint(
            s[i] as nat,
        ),
{
    assert(s.subrange(0, i + 1).drop_last() =~= s.subrange(0, i));
}

pub proof fn lemma_byte_items_prefix(s: Seq<u8>, i: int)
    requires
        0 <= i <= s.len(),
    ensures
        rlp_byte_items(s.subrange(0, i)).len() <= rlp_byte_items(s).len(),
    decreases s.len() - i,
{
    if i < s.len() {
        lemma_byte_items_step(s, i);
        lemma_byte_items_prefix(s, i + 1);
    } else {
        assert(s.subrange(0, i) =~= s);
    }
}

/// Appends the RLP list of the byte-sized integers in `s` to `out`.
pub fn encode_byte_list(s: &[u8], out: &mut Vec<u8>)
    requires
        rlp_byte_items(s@).len() <= usize::MAX,
    ensures
        final(out)@ == old(out)@ + rlp_byte_list(s@),
{
    let items = byte_items_length(s);
    encode_header(true, items, out);
    let ghost start = out@;
    let mut i: usize = 0;
    while i < s.len()
        invariant
            i <= s@.len(),
            out@ == start + rlp_byte_items(s@.subrange(0, i as int)),
        decreases s@.len() - i,
    {
        encode_uint(s[i] as u64, out);
        proof {
            lemma_byte_items_step(s@, i as int);
        }
        i += 1;
    }
    assert(s@.subrange(0, s@.len() as int) =~= s@);
    assert(final(out)@ =~= old(out)@ + rlp_byte_list(s@));
}

/// Number of payload bytes of the RLP list of the byte-sized integers in `s`.
pub fn byte_items_length(s: &[u8]) -> (r: usize)
    requires
        rlp_byte_items(s@).len() <= usize::MAX,
    ensures
        r == rlp_byte_items(s@).len(),
{
    let mut n: usize = 0;
    let mut i: usize = 0;
    while i < s.len()
        invariant
            i <= s@.len(),
            n == rlp_byte_items(s@.subrange(0, i as int)).len(),
            rlp_byte_items(s@).len() <= usize::MAX,
        decreases s@.len() - i,
    {
        proof {
            lemma_byte_items_step(s@, i as int);
            lemma_byte_items_prefix(s@, i as int + 1);
        }
        n = n + uint_length(s[i] as u64);
        i += 1;
    }
    assert(s@.subrange(0, s@.len() as int) =~= s@);
    n
}

/// Appends the bytes of `s` to `out`.
pub fn append_bytes(out: &mut Vec<u8>, s: &[u8])
    ensures
        final(out)@ == old(out)@ + s@,
{
    let ghost start = out@;
    let mut i: usize = 0;
    while i < s.len()
        invariant
            i <= s@.len(),
            out@ == start + s@.subrange(0, i as int),
        decreases s@.len() - i,
    {
        out.push(s[i]);
        assert(s@.subrange(0, i + 1) =~= s@.subrange(0, i as int).push(s@[i as int]));
        i += 1;
    }
    assert(s@.subrange(0, s@.len() as int) =~= s@);
}

/// A fresh vector holding the bytes of `s`.
pub fn bytes_to_vec(s: &[u8]) -> (r: Vec<u8>)
    ensures
        r@ == s@,
{
    let mut r = Vec::new();
    append_bytes(&mut r, s);
    assert(r@ =~= s@);
    r
}

} // verus!
