use vstd::prelude::*;
use crate::cursor::{DbError, Pair};
use crate::order::lex_lt;

verus! {

/// The stored form of a 64-bit key or value: eight bytes, most significant first.
pub open spec fn key_bytes(k: u64) -> Seq<u8> {
    seq![(k >> 56) as u8, (k >> 48) as u8, (k >> 40) as u8, (k >> 32) as u8, (k >> 24) as u8, (k >> 16) as u8, (k >> 8) as u8, k as u8]
}

/// The 64-bit number that eight stored bytes hold, most significant first.
pub open spec fn key_of(b: Seq<u8>) -> u64 {
    ((b[0] as u64) << 56) | ((b[1] as u64) << 48) | ((b[2] as u64) << 40) | ((b[3] as u64) << 32) | ((b[4] as u64) << 24) | ((b[5] as u64) << 16) | ((b[6] as u64) << 8) | (b[7] as u64)
}

/// Encodes a 64-bit key (or compresses a 64-bit value) to its stored bytes.
pub fn encode_u64(k: u64) -> (r: Vec<u8>)
    ensures
        r@ == key_bytes(k),
{
    let r = vec![(k >> 56) as u8, (k >> 48) as u8, (k >> 40) as u8, (k >> 32) as u8, (k >> 24) as u8, (k >> 16) as u8, (k >> 8) as u8, k as u8];
    assert(r@ =~= key_bytes(k));
    r
}

/// Decodes stored bytes to a 64-bit key or value; anything but eight bytes is a
/// decoding failure.
pub fn decode_u64(b: &[u8]) -> (r: Result<u64, DbError>)
    ensures
        r is Ok <==> b@.len() == 8,
        r matches Ok(k) ==> k == key_of(b@),
        r is Err ==> r == Err::<u64, DbError>(DbError::Decode),
{
    if b.len() != 8 {
        return Err(DbError::Decode);
    }
    Ok(((b[0] as u64) << 56) | ((b[1] as u64) << 48) | ((b[2] as u64) << 40) | ((b[3] as u64) << 32) | ((b[4] as u64) << 24) | ((b[5] as u64) << 16) | ((b[6] as u64) << 8) | (b[7] as u64))
}

/// Decoding undoes encoding: every 64-bit key comes back from its stored bytes.
pub proof fn lemma_u64_round_trip(k: u64)
    ensures
        key_of(key_bytes(k)) == k,
        key_bytes(k).len() == 8,
{
    assert((((((k >> 56) as u8) as u64) << 56) | ((((k >> 48) as u8) as u64) << 48) | ((((k >> 40) as u8) as u64) << 40) | ((((k >> 32) as u8) as u64) << 32) | ((((k >> 24) as u8) as u64) << 24) | ((((k >> 16) as u8) as u64) << 16) | ((((k >> 8) as u8) as u64) << 8) | ((k as u8) as u64)) == k) by (bit_vector);
}

/// Byte strings of equal length, equal up to index `i` and smaller at `i`, sort first.
proof fn lemma_lex_first_diff(a: Seq<u8>, b: Seq<u8>, i: int)
    requires
        a.len() == b.len(),
        0 <= i < a.len(),
        forall|j: int| 0 <= j < i ==> a[j] == b[j],
        a[i] < b[i],
    ensures
        lex_lt(a, b),
    decreases i,
{
    if i > 0 {
        assert(a[0] == b[0]);
        lemma_lex_first_diff(a.drop_first(), b.drop_first(), i - 1);
    }
}

/// Encoding keeps order: a smaller key has stored bytes that sort first.
pub proof fn lemma_u64_order(a: u64, b: u64)
    requires
        a < b,
    ensures
        lex_lt(key_bytes(a), key_bytes(b)),
{
    let ea = key_bytes(a);
    let eb = key_bytes(b);
    assert(a < b ==> (
            (((a >> 56) as u8) < ((b >> 56) as u8)) ||
            (((a >> 56) as u8) == ((b >> 56) as u8) && ((a >> 48) as u8) < ((b >> 48) as u8)) ||
            (((a >> 56) as u8) == ((b >> 56) as u8) && ((a >> 48) as u8) == ((b >> 48) as u8) && ((a >> 40) as u8) < ((b >> 40) as u8)) ||
            (((a >> 56) as u8) == ((b >> 56) as u8) && ((a >> 48) as u8) == ((b >> 48) as u8) && ((a >> 40) as u8) == ((b >> 40) as u8) && ((a >> 32) as u8) < ((b >> 32) as u8)) ||
            (((a >> 56) as u8) == ((b >> 56) as u8) && ((a >> 48) as u8) == ((b >> 48) as u8) && ((a >> 40) as u8) == ((b >> 40) as u8) && ((a >> 32) as u8) == ((b >> 32) as u8) && ((a >> 24) as u8) < ((b >> 24) as u8)) ||
            (((a >> 56) as u8) == ((b >> 56) as u8) && ((a >> 48) as u8) == ((b >> 48) as u8) && ((a >> 40) as u8) == ((b >> 40) as u8) && ((a >> 32) as u8) == ((b >> 32) as u8) && ((a >> 24) as u8) == ((b >> 24) as u8) && ((a >> 16) as u8) < ((b >> 16) as u8)) ||
            (((a >> 56) as u8) == ((b >> 56) as u8) && ((a >> 48) as u8) == ((b >> 48) as u8) && ((a >> 40) as u8) == ((b >> 40) as u8) && ((a >> 32) as u8) == ((b >> 32) as u8) && ((a >> 24) as u8) == ((b >> 24) as u8) && ((a >> 16) as u8) == ((b >> 16) as u8) && ((a >> 8) as u8) < ((b >> 8) as u8)) ||
            (((a >> 56) as u8) == ((b >> 56) as u8) && ((a >> 48) as u8) == ((b >> 48) as u8) && ((a >> 40) as u8) == ((b >> 40) as u8) && ((a >> 32) as u8) == ((b >> 32) as u8) && ((a >> 24) as u8) == ((b >> 24) as u8) && ((a >> 16) as u8) == ((b >> 16) as u8) && ((a >> 8) as u8) == ((b >> 8) as u8) && (a as u8) < (b as u8)))) by (bit_vector);
    if ((a >> 56) as u8) < ((b >> 56) as u8) {
        assert(forall|j: int| 0 <= j < 0 ==> ea[j] == eb[j]);
        lemma_lex_first_diff(ea, eb, 0);
        return;
    }
    if (((a >> 56) as u8) == ((b >> 56) as u8)) && ((a >> 48) as u8) < ((b >> 48) as u8) {
        assert(forall|j: int| 0 <= j < 1 ==> ea[j] == eb[j]);
        lemma_lex_first_diff(ea, eb, 1);
        return;
    }
    if (((a >> 56) as u8) == ((b >> 56) as u8) && ((a >> 48) as u8) == ((b >> 48) as u8)) && ((a >> 40) as u8) < ((b >> 40) as u8) {
        assert(forall|j: int| 0 <= j < 2 ==> ea[j] == eb[j]);
        lemma_lex_first_diff(ea, eb, 2);
        return;
    }
    if (((a >> 56) as u8) == ((b >> 56) as u8) && ((a >> 48) as u8) == ((b >> 48) as u8) && ((a >> 40) as u8) == ((b >> 40) as u8)) && ((a >> 32) as u8) < ((b >> 32) as u8) {
        assert(forall|j: int| 0 <= j < 3 ==> ea[j] == eb[j]);
        lemma_lex_first_diff(ea, eb, 3);
        return;
    }
    if (((a >> 56) as u8) == ((b >> 56) as u8) && ((a >> 48) as u8) == ((b >> 48) as u8) && ((a >> 40) as u8) == ((b >> 40) as u8) && ((a >> 32) as u8) == ((b >> 32) as u8)) && ((a >> 24) as u8) < ((b >> 24) as u8) {
        assert(forall|j: int| 0 <= j < 4 ==> ea[j] == eb[j]);
        lemma_lex_first_diff(ea, eb, 4);
        return;
    }
    if (((a >> 56) as u8) == ((b >> 56) as u8) && ((a >> 48) as u8) == ((b >> 48) as u8) && ((a >> 40) as u8) == ((b >> 40) as u8) && ((a >> 32) as u8) == ((b >> 32) as u8) && ((a >> 24) as u8) == ((b >> 24) as u8)) && ((a >> 16) as u8) < ((b >> 16) as u8) {
        assert(forall|j: int| 0 <= j < 5 ==> ea[j] == eb[j]);
        lemma_lex_first_diff(ea, eb, 5);
        return;
    }
    if (((a >> 56) as u8) == ((b >> 56) as u8) && ((a >> 48) as u8) == ((b >> 48) as u8) && ((a >> 40) as u8) == ((b >> 40) as u8) && ((a >> 32) as u8) == ((b >> 32) as u8) && ((a >> 24) as u8) == ((b >> 24) as u8) && ((a >> 16) as u8) == ((b >> 16) as u8)) && ((a >> 8) as u8) < ((b >> 8) as u8) {
        assert(forall|j: int| 0 <= j < 6 ==> ea[j] == eb[j]);
        lemma_lex_first_diff(ea, eb, 6);
        return;
    }
    if (((a >> 56) as u8) == ((b >> 56) as u8) && ((a >> 48) as u8) == ((b >> 48) as u8) && ((a >> 40) as u8) == ((b >> 40) as u8) && ((a >> 32) as u8) == ((b >> 32) as u8) && ((a >> 24) as u8) == ((b >> 24) as u8) && ((a >> 16) as u8) == ((b >> 16) as u8) && ((a >> 8) as u8) == ((b >> 8) as u8)) && (a as u8) < (b as u8) {
        assert(forall|j: int| 0 <= j < 7 ==> ea[j] == eb[j]);
        lemma_lex_first_diff(ea, eb, 7);
        return;
    }
}

/// Decodes what a read of a table of 64-bit keys and values gave: a failed read stays a
/// failure, nothing found stays nothing, and a pair whose key or value is not eight bytes
/// is a decoding failure.
pub fn decode_entry(read: Result<Option<Pair>, DbError>) -> (r: Result<Option<(u64, u64)>, DbError>)
    ensures
        read matches Err(e) ==> r == Err::<Option<(u64, u64)>, DbError>(e),
        read == Ok::<Option<Pair>, DbError>(None) ==> r == Ok::<Option<(u64, u64)>, DbError>(None),
        read matches Ok(Some(p)) ==> (if p.0@.len() == 8 && p.1@.len() == 8 {
            r == Ok::<Option<(u64, u64)>, DbError>(Some((key_of(p.0@), key_of(p.1@))))
        } else {
            r == Err::<Option<(u64, u64)>, DbError>(DbError::Decode)
        }),
{
    match read {
        Err(e) => Err(e),
        Ok(None) => Ok(None),
        Ok(Some(p)) => {
            let k = match decode_u64(p.0.as_slice()) {
                Ok(k) => k,
                Err(e) => return Err(e),
            };
            let v = match decode_u64(p.1.as_slice()) {
                Ok(v) => v,
                Err(e) => return Err(e),
            };
            Ok(Some((k, v)))
        },
    }
}

} // verus!
