use vstd::prelude::*;
use crate::cursor::{
    below_end, end_admits, item_of, range_refused, transpose, DbError, KeyBound, Pair,
    Position, NOT_FOUND,
};
use crate::order::compare_bytes;

verus! {

/// What a walker does on a pull: hand out an item it already holds (`None` ends the
/// walk), or ask for the cursor to be moved one step and the answer handed to it.
#[derive(Clone, Debug, PartialEq, Eq)]
pub enum Pull {
    Item(Option<Result<Pair, DbError>>),
    Advance,
}

/// Where a walk starts: at `seek(key)` when a key is given, else at the first entry.
pub fn walk_position(start_key: Option<Vec<u8>>) -> (r: Position)
    ensures
        start_key matches Some(k) ==> r == Position::SetRange(k),
        start_key is None ==> r == Position::First,
{
    match start_key {
        Some(k) => Position::SetRange(k),
        None => Position::First,
    }
}

/// Where a backward walk starts: at `seek(key)` when a key is given, else at the last entry.
pub fn walk_back_position(start_key: Option<Vec<u8>>) -> (r: Position)
    ensures
        start_key matches Some(k) ==> r == Position::SetRange(k),
        start_key is None ==> r == Position::Last,
{
    match start_key {
        Some(k) => Position::SetRange(k),
        None => Position::Last,
    }
}

/// Where a range walk starts, or why it cannot: an excluded start, or a start key that
/// sorts after the end key, is `InvalidRange` before the store is touched.
pub fn walk_range_position(start: KeyBound, end: &KeyBound) -> (r: Result<Position, DbError>)
    ensures
        r is Err <==> range_refused(start, *end),
        r is Err ==> r == Err::<Position, DbError>(DbError::InvalidRange),
        !range_refused(start, *end) ==> (match start {
            KeyBound::Included(k) => r == Ok::<Position, DbError>(Position::SetRange(k)),
            _ => r == Ok::<Position, DbError>(Position::First),
        }),
{
    match start {
        KeyBound::Included(k) => {
            let past_end = match end {
                KeyBound::Included(e) => compare_bytes(e.as_slice(), k.as_slice()) < 0,
                KeyBound::Excluded(e) => compare_bytes(e.as_slice(), k.as_slice()) < 0,
                KeyBound::Unbounded => false,
            };
            if past_end {
                Err(DbError::InvalidRange)
            } else {
                Ok(Position::SetRange(k))
            }
        },
        KeyBound::Excluded(_) => Err(DbError::InvalidRange),
        KeyBound::Unbounded => Ok(Position::First),
    }
}

/// Hands out a held start item, or asks for a step.
fn take_start(start: &mut Option<Result<Pair, DbError>>) -> (r: Pull)
    ensures
        *old(start) is Some ==> r == Pull::Item(*old(start)),
        *old(start) is None ==> r == Pull::Advance,
        *final(start) is None,
{
    match start.take() {
        Some(item) => Pull::Item(Some(item)),
        None => Pull::Advance,
    }
}

/// A forward walk: its start item, then one item per step of the cursor forward.
#[derive(Debug)]
pub struct Walker {
    /// The item fetched at construction and not yet handed out.
    pub start: Option<Result<Pair, DbError>>,
}

impl Walker {
    /// A walker whose first item is what the start position gave; a failed read fails
    /// the construction.
    pub fn new(start: Result<Option<Pair>, DbError>) -> (r: Result<Walker, DbError>)
        ensures
            start matches Err(e) ==> r == Err::<Walker, DbError>(e),
            start is Ok ==> (r matches Ok(w) && w.start == item_of(start)),
    {
        match start {
            Err(e) => Err(e),
            Ok(x) => Ok(Walker { start: transpose(Ok(x)) }),
        }
    }

    /// The next pull: the held start item if there is one, else a step forward.
    pub fn pull(&mut self) -> (r: Pull)
        ensures
            old(self).start is Some ==> r == Pull::Item(old(self).start),
            old(self).start is None ==> r == Pull::Advance,
            final(self).start is None,
    {
        take_start(&mut self.start)
    }

    /// The item that the cursor's step forward gave.
    pub fn advanced(&mut self, read: Result<Option<Pair>, DbError>) -> (r: Option<
        Result<Pair, DbError>,
    >)
        ensures
            r == item_of(read),
            final(self).start == old(self).start,
    {
        transpose(read)
    }
}

/// A backward walk: its start item, then one item per step of the cursor backward.
#[derive(Debug)]
pub struct ReverseWalker {
    /// The item fetched at construction and not yet handed out.
    pub start: Option<Result<Pair, DbError>>,
}

impl ReverseWalker {
    /// A walker whose first item is what the start position gave; a failed read fails
    /// the construction.
    pub fn new(start: Result<Option<Pair>, DbError>) -> (r: Result<ReverseWalker, DbError>)
        ensures
            start matches Err(e) ==> r == Err::<ReverseWalker, DbError>(e),
            start is Ok ==> (r matches Ok(w) && w.start == item_of(start)),
    {
        match start {
            Err(e) => Err(e),
            Ok(x) => Ok(ReverseWalker { start: transpose(Ok(x)) }),
        }
    }

    /// The next pull: the held start item if there is one, else a step backward.
    pub fn pull(&mut self) -> (r: Pull)
        ensures
            old(self).start is Some ==> r == Pull::Item(old(self).start),
            old(self).start is None ==> r == Pull::Advance,
            final(self).start is None,
    {
        take_start(&mut self.start)
    }

    /// The item that the cursor's step backward gave.
    pub fn advanced(&mut self, read: Result<Option<Pair>, DbError>) -> (r: Option<
        Result<Pair, DbError>,
    >)
        ensures
            r == item_of(read),
            final(self).start == old(self).start,
    {
        transpose(read)
    }
}

/// What the range walker makes of an item: the item itself while its key is inside the
/// end bound, else the end of the walk.
pub open spec fn range_item(end: KeyBound, item: Option<Result<Pair, DbError>>) -> Option<
    Result<Pair, DbError>,
> {
    match item {
        Some(Ok(p)) => if below_end(end, p.0@) {
            Some(Ok(p))
        } else {
            None
        },
        other => other,
    }
}

/// A bounded forward walk: like a forward walk, but it ends before the first key that
/// the end bound excludes, and stays ended.
#[derive(Debug)]
pub struct RangeWalker {
    /// The item fetched at construction and not yet handed out.
    pub start: Option<Result<Pair, DbError>>,
    /// The start bound the walk was built with.
    pub start_bound: KeyBound,
    /// The end bound the walk was built with.
    pub end_bound: KeyBound,
    /// Whether the walk has ended.
    pub is_done: bool,
}

impl RangeWalker {
    /// A range walker whose first item is what the start position gave; a failed read
    /// fails the construction.
    pub fn new(start_bound: KeyBound, end_bound: KeyBound, start: Result<Option<Pair>, DbError>) -> (r:
        Result<RangeWalker, DbError>)
        ensures
            start matches Err(e) ==> r == Err::<RangeWalker, DbError>(e),
            start is Ok ==> (r matches Ok(w) && w.start == item_of(start) && w.start_bound
                == start_bound && w.end_bound == end_bound && !w.is_done),
    {
        match start {
            Err(e) => Err(e),
            Ok(x) => Ok(RangeWalker { start: transpose(Ok(x)), start_bound, end_bound, is_done: false }),
        }
    }

    fn cut(&mut self, item: Option<Result<Pair, DbError>>) -> (r: Option<Result<Pair, DbError>>)
        ensures
            r == range_item(old(self).end_bound, item),
            final(self).is_done == (old(self).is_done || r is None),
            final(self).start == old(self).start,
            final(self).start_bound == old(self).start_bound,
            final(self).end_bound == old(self).end_bound,
    {
        match item {
            Some(Ok(p)) => {
                if end_admits(&self.end_bound, p.0.as_slice()) {
                    Some(Ok(p))
                } else {
                    self.is_done = true;
                    None
                }
            },
            Some(Err(e)) => Some(Err(e)),
            None => {
                self.is_done = true;
                None
            },
        }
    }

    /// The next pull: nothing once ended; else the held start item, cut by the end
    /// bound, if there is one; else a step forward.
    pub fn pull(&mut self) -> (r: Pull)
        ensures
            old(self).is_done ==> r == Pull::Item(None) && *final(self) == *old(self),
            !old(self).is_done && old(self).start is Some ==> r == Pull::Item(
                range_item(old(self).end_bound, old(self).start),
            ) && final(self).is_done == (r == Pull::Item(None)),
            !old(self).is_done && old(self).start is None ==> r == Pull::Advance
                && *final(self) == *old(self),
            final(self).end_bound == old(self).end_bound,
            final(self).start_bound == old(self).start_bound,
            !old(self).is_done ==> final(self).start is None,
    {
        if self.is_done {
            return Pull::Item(None);
        }
        match take_start(&mut self.start) {
            Pull::Item(item) => Pull::Item(self.cut(item)),
            Pull::Advance => Pull::Advance,
        }
    }

    /// The item that the cursor's step forward gave, cut by the end bound; nothing once
    /// ended.
    pub fn advanced(&mut self, read: Result<Option<Pair>, DbError>) -> (r: Option<
        Result<Pair, DbError>,
    >)
        ensures
            old(self).is_done ==> r is None && *final(self) == *old(self),
            !old(self).is_done ==> r == range_item(old(self).end_bound, item_of(read))
                && final(self).is_done == r is None,
            final(self).start == old(self).start,
            final(self).end_bound == old(self).end_bound,
            final(self).start_bound == old(self).start_bound,
    {
        if self.is_done {
            return None;
        }
        let item = transpose(read);
        self.cut(item)
    }
}

/// Where a walk over the values of one key starts.
#[derive(Clone, Debug, PartialEq, Eq)]
pub enum DupStart {
    /// Move the cursor to this position and start there.
    At(Position),
    /// Move to the first entry, then to the first value under its key whose subkey is at
    /// least this subkey.
    FirstKeyThen(Vec<u8>),
}

/// Where a walk over duplicates starts: with a key and a subkey, at the first value under
/// the key at or past the subkey; with a key alone, at its first value; with a subkey
/// alone, likewise within the first key; with neither, at the first entry.
pub fn walk_dup_start(key: Option<Vec<u8>>, subkey: Option<Vec<u8>>) -> (r: DupStart)
    ensures
        key matches Some(k) ==> (match subkey {
            Some(s) => r == DupStart::At(Position::GetBothRange(k, s)),
            None => r == DupStart::At(Position::KeyFirst(k)),
        }),
        key is None ==> (match subkey {
            Some(s) => r == DupStart::FirstKeyThen(s),
            None => r == DupStart::At(Position::First),
        }),
{
    match (key, subkey) {
        (Some(k), Some(s)) => DupStart::At(Position::GetBothRange(k, s)),
        (Some(k), None) => DupStart::At(Position::KeyFirst(k)),
        (None, Some(s)) => DupStart::FirstKeyThen(s),
        (None, None) => DupStart::At(Position::First),
    }
}

/// A walk over the values of one key: its start item, then one item per step of the
/// cursor to the next value under the same key.
#[derive(Debug)]
pub struct DupWalker {
    /// The item fetched at construction and not yet handed out.
    pub start: Option<Result<Pair, DbError>>,
}

/// The second stage of a walk over duplicates that names a subkey and no key.
#[derive(Debug)]
pub enum DupFirstKey {
    /// Move the cursor here and build the walker from what that gives.
    Seek(Position),
    /// The table is empty: the walker holds a not-found failure as its only item.
    Empty(DupWalker),
}

impl DupWalker {
    /// A walker whose first item is what the start position gave; a failed read fails
    /// the construction.
    pub fn new(start: Result<Option<Pair>, DbError>) -> (r: Result<DupWalker, DbError>)
        ensures
            start matches Err(e) ==> r == Err::<DupWalker, DbError>(e),
            start is Ok ==> (r matches Ok(w) && w.start == item_of(start)),
    {
        match start {
            Err(e) => Err(e),
            Ok(x) => Ok(DupWalker { start: transpose(Ok(x)) }),
        }
    }

    /// Continues a walk that names a subkey and no key, given what the move to the first
    /// entry gave: seek the subkey within that entry's key; on an empty table, a walker
    /// whose one item is a not-found failure; a failed read fails the construction.
    pub fn after_first(first: Result<Option<Pair>, DbError>, subkey: Vec<u8>) -> (r: Result<
        DupFirstKey,
        DbError,
    >)
        ensures
            first matches Err(e) ==> r == Err::<DupFirstKey, DbError>(e),
            first matches Ok(Some(p)) ==> r == Ok::<DupFirstKey, DbError>(
                DupFirstKey::Seek(Position::GetBothRange(p.0, subkey)),
            ),
            first == Ok::<Option<Pair>, DbError>(None) ==> (r matches Ok(DupFirstKey::Empty(w))
                && w.start == Some(Err::<Pair, DbError>(DbError::Read(NOT_FOUND)))),
    {
        match first {
            Err(e) => Err(e),
            Ok(Some(p)) => Ok(DupFirstKey::Seek(Position::GetBothRange(p.0, subkey))),
            Ok(None) => Ok(DupFirstKey::Empty(DupWalker { start: Some(Err(DbError::Read(NOT_FOUND))) })),
        }
    }

    /// The next pull: the held start item if there is one, else a step to the next value
    /// under the same key.
    pub fn pull(&mut self) -> (r: Pull)
        ensures
            old(self).start is Some ==> r == Pull::Item(old(self).start),
            old(self).start is None ==> r == Pull::Advance,
            final(self).start is None,
    {
        take_start(&mut self.start)
    }

    /// The item that the cursor's step to the next value under the same key gave.
    pub fn advanced(&mut self, read: Result<Option<Pair>, DbError>) -> (r: Option<
        Result<Pair, DbError>,
    >)
        ensures
            r == item_of(read),
            final(self).start == old(self).start,
    {
        transpose(read)
    }
}

} // verus!
