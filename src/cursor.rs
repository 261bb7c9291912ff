use vstd::prelude::*;
use crate::order::{compare_bytes, lex_le, lex_lt};

verus! {

/// An encoded key with its stored value, as the store hands them out.
pub type Pair = (Vec<u8>, Vec<u8>);

/// What the store reports when a lookup finds nothing.
pub const NOT_FOUND: i32 = -30798;

/// Failures of cursor and walker operations.
#[derive(Clone, Copy, Debug, PartialEq, Eq, Structural)]
pub enum DbError {
    /// The store failed a positional or keyed read; carries its code.
    Read(i32),
    /// The store failed an insertion; carries its code.
    Write(i32),
    /// The store failed a deletion; carries its code.
    Delete(i32),
    /// Stored bytes do not hold a value of the expected type.
    Decode,
    /// A range walk was asked for with an excluded start or a start past its end.
    InvalidRange,
}

/// One end of a key range, over encoded keys.
#[derive(Clone, Debug, PartialEq, Eq)]
pub enum KeyBound {
    Included(Vec<u8>),
    Excluded(Vec<u8>),
    Unbounded,
}

/// Whether `k` lies on the allowed side of the end bound `end`.
pub open spec fn below_end(end: KeyBound, k: Seq<u8>) -> bool {
    match end {
        KeyBound::Included(e) => lex_le(k, e@),
        KeyBound::Excluded(e) => lex_lt(k, e@),
        KeyBound::Unbounded => true,
    }
}

/// Whether `k` lies on the allowed side of the start bound `start`.
pub open spec fn above_start(start: KeyBound, k: Seq<u8>) -> bool {
    match start {
        KeyBound::Included(s) => lex_le(s@, k),
        KeyBound::Excluded(s) => lex_lt(s@, k),
        KeyBound::Unbounded => true,
    }
}

/// Whether a range walk from `start` to `end` is refused at construction: an excluded
/// start, or an included start whose key sorts after the end's key.
pub open spec fn range_refused(start: KeyBound, end: KeyBound) -> bool {
    match start {
        KeyBound::Excluded(_) => true,
        KeyBound::Included(s) => match end {
            KeyBound::Included(e) => lex_lt(e@, s@),
            KeyBound::Excluded(e) => lex_lt(e@, s@),
            KeyBound::Unbounded => false,
        },
        KeyBound::Unbounded => false,
    }
}

/// A positioning request to the store.
#[derive(Clone, Debug, PartialEq, Eq)]
pub enum Position {
    /// The smallest entry.
    First,
    /// The largest entry.
    Last,
    /// The first entry whose key is at least the given key.
    SetRange(Vec<u8>),
    /// The entry whose key is exactly the given key.
    SetKey(Vec<u8>),
    /// The first value under the given key.
    KeyFirst(Vec<u8>),
    /// The first value under the given key whose subkey is at least the given subkey.
    GetBothRange(Vec<u8>, Vec<u8>),
}

/// Whether `end` admits the key `k`.
pub fn end_admits(end: &KeyBound, k: &[u8]) -> (r: bool)
    ensures
        r == below_end(*end, k@),
{
    match end {
        KeyBound::Included(e) => compare_bytes(k, e.as_slice()) <= 0,
        KeyBound::Excluded(e) => compare_bytes(k, e.as_slice()) < 0,
        KeyBound::Unbounded => true,
    }
}

/// Maps the store's answer to a positional read: its failure becomes `DbError::Read`.
pub fn read_result(native: Result<Option<Pair>, i32>) -> (r: Result<Option<Pair>, DbError>)
    ensures
        native matches Err(c) ==> r == Err::<Option<Pair>, DbError>(DbError::Read(c)),
        native matches Ok(x) ==> r == Ok::<Option<Pair>, DbError>(x),
{
    match native {
        Ok(x) => Ok(x),
        Err(c) => Err(DbError::Read(c)),
    }
}

/// Maps the store's answer to a value-only read under a known `key`, pairing the value
/// with that key.
pub fn read_value_under(key: Vec<u8>, native: Result<Option<Vec<u8>>, i32>) -> (r: Result<
    Option<Pair>,
    DbError,
>)
    ensures
        native matches Err(c) ==> r == Err::<Option<Pair>, DbError>(DbError::Read(c)),
        native == Ok::<Option<Vec<u8>>, i32>(None) ==> r == Ok::<Option<Pair>, DbError>(None),
        native matches Ok(Some(v)) ==> r == Ok::<Option<Pair>, DbError>(Some((key, v))),
{
    match native {
        Ok(Some(v)) => Ok(Some((key, v))),
        Ok(None) => Ok(None),
        Err(c) => Err(DbError::Read(c)),
    }
}

/// Maps the store's answer to a read that returns a value alone (the first value under a
/// key at or past a subkey): its failure becomes `DbError::Read`.
pub fn read_value_result(native: Result<Option<Vec<u8>>, i32>) -> (r: Result<Option<Vec<u8>>, DbError>)
    ensures
        native matches Err(c) ==> r == Err::<Option<Vec<u8>>, DbError>(DbError::Read(c)),
        native matches Ok(x) ==> r == Ok::<Option<Vec<u8>>, DbError>(x),
{
    match native {
        Ok(x) => Ok(x),
        Err(c) => Err(DbError::Read(c)),
    }
}

/// Keeps the value of a read whose key the caller already knows (the next value under
/// the same key).
pub fn value_only(read: Result<Option<Pair>, DbError>) -> (r: Result<Option<Vec<u8>>, DbError>)
    ensures
        read matches Err(e) ==> r == Err::<Option<Vec<u8>>, DbError>(e),
        read == Ok::<Option<Pair>, DbError>(None) ==> r == Ok::<Option<Vec<u8>>, DbError>(None),
        read matches Ok(Some(p)) ==> r == Ok::<Option<Vec<u8>>, DbError>(Some(p.1)),
{
    match read {
        Ok(Some(p)) => Ok(Some(p.1)),
        Ok(None) => Ok(None),
        Err(e) => Err(e),
    }
}

/// Maps the store's answer to an insertion: its failure becomes `DbError::Write`.
pub fn write_result(native: Result<(), i32>) -> (r: Result<(), DbError>)
    ensures
        native matches Err(c) ==> r == Err::<(), DbError>(DbError::Write(c)),
        native is Ok ==> r is Ok,
{
    match native {
        Ok(()) => Ok(()),
        Err(c) => Err(DbError::Write(c)),
    }
}

/// Maps the store's answer to a deletion: its failure becomes `DbError::Delete`.
pub fn delete_result(native: Result<(), i32>) -> (r: Result<(), DbError>)
    ensures
        native matches Err(c) ==> r == Err::<(), DbError>(DbError::Delete(c)),
        native is Ok ==> r is Ok,
{
    match native {
        Ok(()) => Ok(()),
        Err(c) => Err(DbError::Delete(c)),
    }
}

/// Turns a read result into a walker item: a found pair or a failure is an item, nothing
/// found is the end of the walk.
pub open spec fn item_of(r: Result<Option<Pair>, DbError>) -> Option<Result<Pair, DbError>> {
    match r {
        Ok(Some(p)) => Some(Ok(p)),
        Ok(None) => None,
        Err(e) => Some(Err(e)),
    }
}

pub fn transpose(r: Result<Option<Pair>, DbError>) -> (o: Option<Result<Pair, DbError>>)
    ensures
        o == item_of(r),
{
    match r {
        Ok(Some(p)) => Some(Ok(p)),
        Ok(None) => None,
        Err(e) => Some(Err(e)),
    }
}

} // verus!
