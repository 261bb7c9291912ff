use reth_cursor::codec::{decode_entry, decode_u64, encode_u64};
use reth_cursor::cursor::{
    delete_result, end_admits, read_result, read_value_result, read_value_under, transpose,
    value_only, write_result, DbError,
    KeyBound, Pair, Position, NOT_FOUND,
};
use reth_cursor::order::compare_bytes;
use reth_cursor::walker::{
    walk_back_position, walk_dup_start, walk_position, walk_range_position, DupFirstKey,
    DupStart, DupWalker, Pull, RangeWalker, ReverseWalker, Walker,
};

/// A sorted in-memory table standing in for the store, with a cursor position.
struct Store {
    rows: Vec<Pair>,
    pos: Option<usize>,
}

impl Store {
    fn new(mut rows: Vec<Pair>) -> Store {
        rows.sort();
        Store { rows, pos: None }
    }

    fn at(&mut self, i: Option<usize>) -> Result<Option<Pair>, i32> {
        self.pos = i.filter(|&i| i < self.rows.len());
        Ok(self.pos.map(|i| self.rows[i].clone()))
    }

    fn position(&mut self, p: &Position) -> Result<Option<Pair>, i32> {
        let i = match p {
            Position::First => Some(0),
            Position::Last => self.rows.len().checked_sub(1),
            Position::SetRange(k) => self.rows.iter().position(|r| r.0 >= *k),
            Position::SetKey(k) | Position::KeyFirst(k) => {
                self.rows.iter().position(|r| r.0 == *k)
            }
            Position::GetBothRange(k, s) => {
                self.rows.iter().position(|r| r.0 == *k && r.1 >= *s)
            }
        };
        self.at(i)
    }

    fn next(&mut self) -> Result<Option<Pair>, i32> {
        let i = match self.pos {
            Some(i) => Some(i + 1),
            None => Some(0),
        };
        self.at(i)
    }

    fn prev(&mut self) -> Result<Option<Pair>, i32> {
        let i = self.pos.and_then(|i| i.checked_sub(1));
        self.at(i)
    }

    fn next_dup(&mut self) -> Result<Option<Pair>, i32> {
        match self.pos {
            Some(i) if i + 1 < self.rows.len() && self.rows[i + 1].0 == self.rows[i].0 => {
                self.at(Some(i + 1))
            }
            _ => Ok(None),
        }
    }
}

fn k(n: u64) -> Vec<u8> {
    encode_u64(n)
}

fn table(keys: &[u64]) -> Store {
    Store::new(keys.iter().map(|&n| (k(n), k(n * 10))).collect())
}

fn keys_of(items: Vec<Result<Pair, DbError>>) -> Vec<u64> {
    items.into_iter().map(|r| decode_u64(&r.unwrap().0).unwrap()).collect()
}

fn run_range(store: &mut Store, start: KeyBound, end: KeyBound) -> Result<Vec<u64>, DbError> {
    let pos = walk_range_position(start.clone(), &end)?;
    let first = read_result(store.position(&pos));
    let mut w = RangeWalker::new(start, end, first)?;
    let mut out = vec![];
    loop {
        match w.pull() {
            Pull::Item(None) => break,
            Pull::Item(Some(x)) => out.push(x),
            Pull::Advance => match w.advanced(read_result(store.next())) {
                Some(x) => out.push(x),
                None => break,
            },
        }
    }
    Ok(keys_of(out))
}

fn run_forward(store: &mut Store, start: Option<u64>) -> Vec<u64> {
    let pos = walk_position(start.map(k));
    let mut w = Walker::new(read_result(store.position(&pos))).unwrap();
    let mut out = vec![];
    loop {
        match w.pull() {
            Pull::Item(Some(x)) => out.push(x),
            Pull::Item(None) => break,
            Pull::Advance => match w.advanced(read_result(store.next())) {
                Some(x) => out.push(x),
                None => break,
            },
        }
    }
    keys_of(out)
}

fn run_backward(store: &mut Store, start: Option<u64>) -> Vec<u64> {
    let pos = walk_back_position(start.map(k));
    let mut w = ReverseWalker::new(read_result(store.position(&pos))).unwrap();
    let mut out = vec![];
    loop {
        match w.pull() {
            Pull::Item(Some(x)) => out.push(x),
            Pull::Item(None) => break,
            Pull::Advance => match w.advanced(read_result(store.prev())) {
                Some(x) => out.push(x),
                None => break,
            },
        }
    }
    keys_of(out)
}

fn run_dup(store: &mut Store, key: Option<Vec<u8>>, subkey: Option<Vec<u8>>) -> Vec<Result<Pair, DbError>> {
    let mut w = match walk_dup_start(key, subkey) {
        DupStart::At(Position::GetBothRange(key, sub)) => {
            let native = store.position(&Position::GetBothRange(key.clone(), sub)).map(|o| o.map(|p| p.1));
            DupWalker::new(read_value_under(key, native)).unwrap()
        }
        DupStart::At(pos) => DupWalker::new(read_result(store.position(&pos))).unwrap(),
        DupStart::FirstKeyThen(sub) => {
            let first = read_result(store.position(&Position::First));
            match DupWalker::after_first(first, sub).unwrap() {
                DupFirstKey::Empty(w) => w,
                DupFirstKey::Seek(Position::GetBothRange(key, sub)) => {
                    let native = store.position(&Position::GetBothRange(key.clone(), sub)).map(|o| o.map(|p| p.1));
                    DupWalker::new(read_value_under(key, native)).unwrap()
                }
                DupFirstKey::Seek(_) => unreachable!(),
            }
        }
    };
    let mut out = vec![];
    loop {
        match w.pull() {
            Pull::Item(Some(x)) => {
                let failed = x.is_err();
                out.push(x);
                if failed {
                    break;
                }
            }
            Pull::Item(None) => break,
            Pull::Advance => match w.advanced(read_result(store.next_dup())) {
                Some(x) => out.push(x),
                None => break,
            },
        }
    }
    out
}

#[test]
fn range_included_to_excluded() {
    let mut s = table(&[1, 3, 5, 7, 9]);
    let got = run_range(&mut s, KeyBound::Included(k(3)), KeyBound::Excluded(k(9)));
    assert_eq!(got, Ok(vec![3, 5, 7]));
}

#[test]
fn range_included_to_included() {
    let mut s = table(&[1, 3, 5, 7, 9]);
    let got = run_range(&mut s, KeyBound::Included(k(3)), KeyBound::Included(k(9)));
    assert_eq!(got, Ok(vec![3, 5, 7, 9]));
}

#[test]
fn range_unbounded_to_excluded() {
    let mut s = table(&[1, 3, 5, 7, 9]);
    let got = run_range(&mut s, KeyBound::Unbounded, KeyBound::Excluded(k(5)));
    assert_eq!(got, Ok(vec![1, 3]));
}

#[test]
fn range_unbounded_both_ends_walks_everything() {
    let mut s = table(&[1, 3, 5, 7, 9]);
    let got = run_range(&mut s, KeyBound::Unbounded, KeyBound::Unbounded);
    assert_eq!(got, Ok(vec![1, 3, 5, 7, 9]));
}

#[test]
fn range_start_between_keys() {
    let mut s = table(&[1, 3, 5, 7, 9]);
    let got = run_range(&mut s, KeyBound::Included(k(4)), KeyBound::Included(k(8)));
    assert_eq!(got, Ok(vec![5, 7]));
}

#[test]
fn contradictory_range_fails_at_construction() {
    let end = KeyBound::Included(k(3));
    assert_eq!(walk_range_position(KeyBound::Included(k(9)), &end), Err(DbError::InvalidRange));
    let end = KeyBound::Excluded(k(3));
    assert_eq!(walk_range_position(KeyBound::Included(k(9)), &end), Err(DbError::InvalidRange));
    let mut s = table(&[1, 3, 5, 7, 9]);
    assert_eq!(
        run_range(&mut s, KeyBound::Included(k(9)), KeyBound::Included(k(3))),
        Err(DbError::InvalidRange)
    );
    assert_eq!(s.pos, None);
}

#[test]
fn excluded_start_is_refused() {
    assert_eq!(
        walk_range_position(KeyBound::Excluded(k(1)), &KeyBound::Unbounded),
        Err(DbError::InvalidRange)
    );
}

#[test]
fn equal_bounds_are_not_contradictory() {
    let end = KeyBound::Excluded(k(5));
    assert_eq!(walk_range_position(KeyBound::Included(k(5)), &end), Ok(Position::SetRange(k(5))));
    let mut s = table(&[1, 3, 5, 7, 9]);
    assert_eq!(run_range(&mut s, KeyBound::Included(k(5)), KeyBound::Excluded(k(5))), Ok(vec![]));
    let mut s = table(&[1, 3, 5, 7, 9]);
    assert_eq!(run_range(&mut s, KeyBound::Included(k(5)), KeyBound::Included(k(5))), Ok(vec![5]));
}

#[test]
fn range_walker_stays_done() {
    let mut w = RangeWalker::new(KeyBound::Unbounded, KeyBound::Excluded(k(2)), Ok(Some((k(5), k(1))))).unwrap();
    assert_eq!(w.pull(), Pull::Item(None));
    assert!(w.is_done);
    assert_eq!(w.pull(), Pull::Item(None));
    assert_eq!(w.advanced(Ok(Some((k(1), k(1))))), None);
}

#[test]
fn range_walker_passes_failures_on() {
    let mut w = RangeWalker::new(KeyBound::Unbounded, KeyBound::Unbounded, Ok(None)).unwrap();
    assert_eq!(w.pull(), Pull::Advance);
    assert_eq!(w.advanced(Ok(None)), None);
    assert!(w.is_done);
    let mut w = RangeWalker::new(KeyBound::Unbounded, KeyBound::Unbounded, Ok(Some((k(1), k(1))))).unwrap();
    assert_eq!(w.pull(), Pull::Item(Some(Ok((k(1), k(1))))));
    assert_eq!(w.pull(), Pull::Advance);
    assert_eq!(w.advanced(Err(DbError::Read(-5))), Some(Err(DbError::Read(-5))));
    assert!(!w.is_done);
    assert!(RangeWalker::new(KeyBound::Unbounded, KeyBound::Unbounded, Err(DbError::Read(-1))).is_err());
}

#[test]
fn forward_and_backward_walks_agree() {
    let mut s = table(&[4, 8, 15, 16, 23, 42]);
    let forward = run_forward(&mut s, None);
    let mut backward = run_backward(&mut s, None);
    backward.reverse();
    assert_eq!(forward, vec![4, 8, 15, 16, 23, 42]);
    assert_eq!(forward, backward);
}

#[test]
fn walks_from_a_start_key() {
    let mut s = table(&[4, 8, 15, 16, 23, 42]);
    assert_eq!(run_forward(&mut s, Some(10)), vec![15, 16, 23, 42]);
    assert_eq!(run_backward(&mut s, Some(16)), vec![16, 15, 8, 4]);
    assert_eq!(walk_position(None), Position::First);
    assert_eq!(walk_back_position(None), Position::Last);
    assert_eq!(walk_back_position(Some(k(2))), Position::SetRange(k(2)));
}

#[test]
fn walker_start_read_failure_fails_construction() {
    assert_eq!(Walker::new(Err(DbError::Read(-7))).err(), Some(DbError::Read(-7)));
    assert_eq!(ReverseWalker::new(Err(DbError::Read(-7))).err(), Some(DbError::Read(-7)));
    assert_eq!(DupWalker::new(Err(DbError::Read(-7))).err(), Some(DbError::Read(-7)));
}

fn dup_table() -> Store {
    // key 1 holds subkeys 1, 2, 3; key 2 holds subkey 1.
    Store::new(vec![(k(1), vec![1]), (k(1), vec![2]), (k(1), vec![3]), (k(2), vec![1])])
}

#[test]
fn dup_walk_stays_within_its_key() {
    let mut s = dup_table();
    let got = run_dup(&mut s, Some(k(1)), None);
    let got: Vec<Pair> = got.into_iter().map(|r| r.unwrap()).collect();
    assert_eq!(got, vec![(k(1), vec![1]), (k(1), vec![2]), (k(1), vec![3])]);
}

#[test]
fn dup_walk_from_subkey() {
    let mut s = dup_table();
    let got: Vec<Pair> = run_dup(&mut s, Some(k(1)), Some(vec![2])).into_iter().map(|r| r.unwrap()).collect();
    assert_eq!(got, vec![(k(1), vec![2]), (k(1), vec![3])]);
    let mut s = dup_table();
    let got: Vec<Pair> = run_dup(&mut s, None, Some(vec![3])).into_iter().map(|r| r.unwrap()).collect();
    assert_eq!(got, vec![(k(1), vec![3])]);
    let mut s = dup_table();
    let got: Vec<Pair> = run_dup(&mut s, None, None).into_iter().map(|r| r.unwrap()).collect();
    assert_eq!(got.len(), 3);
}

#[test]
fn dup_walk_on_empty_table_yields_not_found() {
    let mut s = Store::new(vec![]);
    let got = run_dup(&mut s, None, Some(vec![1]));
    assert_eq!(got, vec![Err(DbError::Read(NOT_FOUND))]);
}

#[test]
fn dup_start_choices() {
    assert_eq!(walk_dup_start(Some(k(1)), Some(vec![2])), DupStart::At(Position::GetBothRange(k(1), vec![2])));
    assert_eq!(walk_dup_start(Some(k(1)), None), DupStart::At(Position::KeyFirst(k(1))));
    assert_eq!(walk_dup_start(None, Some(vec![2])), DupStart::FirstKeyThen(vec![2]));
    assert_eq!(walk_dup_start(None, None), DupStart::At(Position::First));
    match DupWalker::after_first(Ok(Some((k(4), vec![9]))), vec![2]).unwrap() {
        DupFirstKey::Seek(p) => assert_eq!(p, Position::GetBothRange(k(4), vec![2])),
        DupFirstKey::Empty(_) => panic!("expected a seek"),
    }
    assert!(DupWalker::after_first(Err(DbError::Read(-3)), vec![2]).is_err());
}

#[test]
fn read_results_map_store_codes() {
    assert_eq!(read_result(Err(-30799)), Err(DbError::Read(-30799)));
    assert_eq!(read_result(Ok(None)), Ok(None));
    assert_eq!(read_value_under(k(1), Ok(Some(vec![7]))), Ok(Some((k(1), vec![7]))));
    assert_eq!(read_value_under(k(1), Ok(None)), Ok(None));
    assert_eq!(read_value_under(k(1), Err(-2)), Err(DbError::Read(-2)));
    assert_eq!(write_result(Err(-30799)), Err(DbError::Write(-30799)));
    assert_eq!(write_result(Ok(())), Ok(()));
    assert_eq!(delete_result(Err(-30798)), Err(DbError::Delete(-30798)));
    assert_eq!(delete_result(Ok(())), Ok(()));
    assert_eq!(transpose(Ok(None)), None);
    assert_eq!(transpose(Err(DbError::Decode)), Some(Err(DbError::Decode)));
}

#[test]
fn end_bounds_admit_keys() {
    assert!(end_admits(&KeyBound::Included(k(5)), &k(5)));
    assert!(!end_admits(&KeyBound::Excluded(k(5)), &k(5)));
    assert!(end_admits(&KeyBound::Excluded(k(5)), &k(4)));
    assert!(!end_admits(&KeyBound::Included(k(5)), &k(6)));
    assert!(end_admits(&KeyBound::Unbounded, &k(u64::MAX)));
}

#[test]
fn u64_codec_round_trips_and_keeps_order() {
    for &n in &[0u64, 1, 255, 256, 1337, u64::MAX - 1, u64::MAX] {
        let b = encode_u64(n);
        assert_eq!(b.len(), 8);
        assert_eq!(decode_u64(&b), Ok(n));
    }
    assert_eq!(encode_u64(0x0102030405060708), vec![1, 2, 3, 4, 5, 6, 7, 8]);
    assert_eq!(compare_bytes(&encode_u64(255), &encode_u64(256)), -1);
    assert_eq!(compare_bytes(&encode_u64(7), &encode_u64(7)), 0);
    assert_eq!(compare_bytes(&encode_u64(u64::MAX), &encode_u64(0)), 1);
    assert_eq!(decode_u64(&[1, 2, 3]), Err(DbError::Decode));
}

#[test]
fn byte_order_is_lexicographic() {
    assert_eq!(compare_bytes(&[], &[]), 0);
    assert_eq!(compare_bytes(&[], &[0]), -1);
    assert_eq!(compare_bytes(&[1, 2], &[1]), 1);
    assert_eq!(compare_bytes(&[1, 2], &[2]), -1);
    assert_eq!(compare_bytes(&[9, 0, 0], &[9, 0, 1]), -1);
}

#[test]
fn entries_decode_or_report_malformed_bytes() {
    assert_eq!(decode_entry(Ok(Some((k(3), k(30))))), Ok(Some((3, 30))));
    assert_eq!(decode_entry(Ok(None)), Ok(None));
    assert_eq!(decode_entry(Err(DbError::Read(-1))), Err(DbError::Read(-1)));
    assert_eq!(decode_entry(Ok(Some((vec![1], k(30))))), Err(DbError::Decode));
    assert_eq!(decode_entry(Ok(Some((k(3), vec![])))), Err(DbError::Decode));
}

#[test]
fn value_only_reads() {
    assert_eq!(read_value_result(Ok(Some(vec![4]))), Ok(Some(vec![4])));
    assert_eq!(read_value_result(Err(-9)), Err(DbError::Read(-9)));
    assert_eq!(value_only(Ok(Some((k(1), vec![2])))), Ok(Some(vec![2])));
    assert_eq!(value_only(Ok(None)), Ok(None));
    assert_eq!(value_only(Err(DbError::Decode)), Err(DbError::Decode));
}
