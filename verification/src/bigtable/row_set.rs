//! Sets of row keys: single keys and ranges of keys under the lexicographic order of bytes.
use vstd::prelude::*;

verus! {

/// The lexicographic order of byte strings: `a` sorts strictly before `b`.
pub open spec fn lex_lt(a: Seq<u8>, b: Seq<u8>) -> bool
    decreases a.len(),
{
    if b.len() == 0 {
        false
    } else if a.len() == 0 {
        true
    } else if a[0] != b[0] {
        a[0] < b[0]
    } else {
        lex_lt(a.drop_first(), b.drop_first())
    }
}

/// `a` sorts before `b` or equals it.
pub open spec fn lex_le(a: Seq<u8>, b: Seq<u8>) -> bool {
    lex_lt(a, b) || a == b
}

/// The lexicographic order is a strict total order.
pub proof fn lemma_lex_total(a: Seq<u8>, b: Seq<u8>)
    ensures
        !lex_lt(a, a),
        lex_lt(a, b) ==> !lex_lt(b, a),
        lex_lt(a, b) || a == b || lex_lt(b, a),
    decreases a.len(),
{
    if a.len() > 0 && b.len() > 0 {
        lemma_lex_total(a.drop_first(), b.drop_first());
        if a[0] == b[0] && a.drop_first() == b.drop_first() {
            assert(a =~= seq![a[0]] + a.drop_first());
            assert(b =~= seq![b[0]] + b.drop_first());
        }
    } else if a.len() > 0 {
        lemma_lex_total(a.drop_first(), a.drop_first());
    } else if b.len() > 0 {
        assert(a =~= Seq::<u8>::empty());
    } else {
        assert(a =~= b);
    }
    if a.len() > 0 {
        lemma_lex_total(a.drop_first(), a.drop_first());
    }
}

/// The lexicographic order is transitive.
pub proof fn lemma_lex_trans(a: Seq<u8>, b: Seq<u8>, c: Seq<u8>)
    requires
        lex_lt(a, b),
        lex_lt(b, c),
    ensures
        lex_lt(a, c),
    decreases a.len(),
{
    if a.len() > 0 && a[0] == b[0] && b[0] == c[0] {
        lemma_lex_trans(a.drop_first(), b.drop_first(), c.drop_first());
    }
}

/// Whether `a` sorts strictly before `b`.
pub fn bytes_lt(a: &[u8], b: &[u8]) -> (r: bool)
    ensures
        r == lex_lt(a@, b@),
{
    let mut i: usize = 0;
    proof {
        assert(a@.skip(0) =~= a@);
        assert(b@.skip(0) =~= b@);
    }
    while i < a.len() && i < b.len()
        invariant
            i <= a.len(),
            i <= b.len(),
            lex_lt(a@, b@) == lex_lt(a@.skip(i as int), b@.skip(i as int)),
        decreases a.len() - i,
    {
        if a[i] != b[i] {
            proof {
                assert(a@.skip(i as int)[0] == a@[i as int]);
                assert(b@.skip(i as int)[0] == b@[i as int]);
            }
            return a[i] < b[i];
        }
        proof {
            assert(a@.skip(i as int).drop_first() =~= a@.skip(i + 1));
            assert(b@.skip(i as int).drop_first() =~= b@.skip(i + 1));
        }
        i += 1;
    }
    proof {
        if i == a.len() {
            assert(a@.skip(i as int) =~= Seq::<u8>::empty());
        }
        if i == b.len() {
            assert(b@.skip(i as int) =~= Seq::<u8>::empty());
        }
    }
    i < b.len()
}

/// Whether `a` sorts before `b` or equals it.
pub fn bytes_le(a: &[u8], b: &[u8]) -> (r: bool)
    ensures
        r == lex_le(a@, b@),
{
    proof {
        lemma_lex_total(a@, b@);
    }
    !bytes_lt(b, a)
}

/// Whether two byte strings are equal.
pub fn bytes_eq(a: &[u8], b: &[u8]) -> (r: bool)
    ensures
        r == (a@ == b@),
{
    if a.len() != b.len() {
        return false;
    }
    let mut i: usize = 0;
    while i < a.len()
        invariant
            a.len() == b.len(),
            i <= a.len(),
            forall|j: int| 0 <= j < i ==> a@[j] == b@[j],
        decreases a.len() - i,
    {
        if a[i] != b[i] {
            return false;
        }
        i += 1;
    }
    proof {
        assert(a@ =~= b@);
    }
    true
}

/// A copy of a byte string.
pub fn copy_bytes(a: &Vec<u8>) -> (r: Vec<u8>)
    ensures
        r@ == a@,
{
    let mut r: Vec<u8> = Vec::new();
    for i in 0..a.len()
        invariant
            r@ == a@.subrange(0, i as int),
    {
        r.push(a[i]);
        proof {
            assert(r@ =~= a@.subrange(0, i + 1));
        }
    }
    proof {
        assert(r@ =~= a@);
    }
    r
}

/// The lower end of a range of row keys.
#[derive(Debug, Clone, PartialEq, Eq)]
pub enum StartKey {
    /// Keys from this key on, inclusive.
    StartKeyClosed(Vec<u8>),
    /// Keys after this key, exclusive.
    StartKeyOpen(Vec<u8>),
}

/// The upper end of a range of row keys.
#[derive(Debug, Clone, PartialEq, Eq)]
pub enum EndKey {
    /// Keys up to this key, exclusive.
    EndKeyOpen(Vec<u8>),
    /// Keys up to this key, inclusive.
    EndKeyClosed(Vec<u8>),
}

/// A contiguous range of rows; a missing end leaves that side unbounded.
#[derive(Debug, Clone, PartialEq, Eq, Default)]
pub struct RowRange {
    /// The row key at which to start the range.
    pub start_key: Option<StartKey>,
    /// The row key at which to end the range.
    pub end_key: Option<EndKey>,
}

/// Whether a key lies at or after the lower end.
pub open spec fn start_admits(start: Option<StartKey>, k: Seq<u8>) -> bool {
    match start {
        None => true,
        Some(StartKey::StartKeyClosed(b)) => lex_le(b@, k),
        Some(StartKey::StartKeyOpen(b)) => lex_lt(b@, k),
    }
}

/// Whether a key lies at or before the upper end.
pub open spec fn end_admits(end: Option<EndKey>, k: Seq<u8>) -> bool {
    match end {
        None => true,
        Some(EndKey::EndKeyClosed(b)) => lex_le(k, b@),
        Some(EndKey::EndKeyOpen(b)) => lex_lt(k, b@),
    }
}

/// Whether a range contains a key.
pub open spec fn range_contains(r: RowRange, k: Seq<u8>) -> bool {
    start_admits(r.start_key, k) && end_admits(r.end_key, k)
}

/// A bound on one side of a range of keys.
#[derive(Debug, Clone, PartialEq, Eq)]
pub enum KeyBound {
    /// The bound includes this key.
    Included(Vec<u8>),
    /// The bound excludes this key.
    Excluded(Vec<u8>),
    /// No bound.
    Unbounded,
}

/// The lower end of a range with the given start bound.
pub fn bound_to_start_key(bound: &KeyBound) -> (r: Option<StartKey>)
    ensures
        match bound {
            KeyBound::Included(b) => r matches Some(StartKey::StartKeyClosed(s)) && s@ == b@,
            KeyBound::Excluded(b) => r matches Some(StartKey::StartKeyOpen(s)) && s@ == b@,
            KeyBound::Unbounded => r is None,
        },
{
    match bound {
        KeyBound::Included(b) => Some(StartKey::StartKeyClosed(copy_bytes(b))),
        KeyBound::Excluded(b) => Some(StartKey::StartKeyOpen(copy_bytes(b))),
        KeyBound::Unbounded => None,
    }
}

/// The upper end of a range with the given end bound.
pub fn bound_to_end_key(bound: &KeyBound) -> (r: Option<EndKey>)
    ensures
        match bound {
            KeyBound::Included(b) => r matches Some(EndKey::EndKeyClosed(s)) && s@ == b@,
            KeyBound::Excluded(b) => r matches Some(EndKey::EndKeyOpen(s)) && s@ == b@,
            KeyBound::Unbounded => r is None,
        },
{
    match bound {
        KeyBound::Included(b) => Some(EndKey::EndKeyClosed(copy_bytes(b))),
        KeyBound::Excluded(b) => Some(EndKey::EndKeyOpen(copy_bytes(b))),
        KeyBound::Unbounded => None,
    }
}

/// Whether a bound admits a key from below.
pub open spec fn start_bound_admits(bound: KeyBound, k: Seq<u8>) -> bool {
    match bound {
        KeyBound::Included(b) => lex_le(b@, k),
        KeyBound::Excluded(b) => lex_lt(b@, k),
        KeyBound::Unbounded => true,
    }
}

/// Whether a bound admits a key from above.
pub open spec fn end_bound_admits(bound: KeyBound, k: Seq<u8>) -> bool {
    match bound {
        KeyBound::Included(b) => lex_le(k, b@),
        KeyBound::Excluded(b) => lex_lt(k, b@),
        KeyBound::Unbounded => true,
    }
}

impl RowRange {
    /// Take just the part of this range that's strictly after `key`, returning whether the
    /// resulting range can hold any key after `key`. When it cannot, the range is unchanged.
    pub fn restrict_to_after(&mut self, key: &Vec<u8>) -> (r: bool)
        ensures
            final(self).end_key == old(self).end_key,
            r ==> forall|k: Seq<u8>|
                range_contains(*final(self), k) <==> (range_contains(*old(self), k) && lex_lt(
                    key@,
                    k,
                )),
            !r ==> *final(self) == *old(self) && forall|k: Seq<u8>|
                range_contains(*old(self), k) ==> !lex_lt(key@, k),
            r == !(match old(self).end_key {
                Some(EndKey::EndKeyOpen(b)) => lex_le(b@, key@),
                Some(EndKey::EndKeyClosed(b)) => lex_le(b@, key@),
                None => false,
            }),
    {
        let empty_after = match &self.end_key {
            Some(EndKey::EndKeyOpen(b)) => bytes_le(b, key),
            Some(EndKey::EndKeyClosed(b)) => bytes_le(b, key),
            None => false,
        };
        if empty_after {
            proof {
                assert forall|k: Seq<u8>| range_contains(*old(self), k) implies !lex_lt(key@, k) by {
                    lemma_lex_total(key@, k);
                    match old(self).end_key {
                        Some(EndKey::EndKeyOpen(b)) => {
                            lemma_lex_total(k, b@);
                            lemma_lex_total(b@, key@);
                            if lex_lt(key@, k) {
                                if lex_lt(b@, key@) {
                                    lemma_lex_trans(b@, key@, k);
                                    lemma_lex_total(b@, k);
                                } else {
                                    lemma_lex_total(k, key@);
                                }
                            }
                        },
                        Some(EndKey::EndKeyClosed(b)) => {
                            if lex_lt(key@, k) {
                                if lex_lt(b@, key@) {
                                    lemma_lex_trans(b@, key@, k);
                                    lemma_lex_total(b@, k);
                                    lemma_lex_total(k, b@);
                                } else {
                                    lemma_lex_total(k, b@);
                                }
                            }
                        },
                        None => {},
                    }
                }
            }
            return false;
        }
        let replace_start_key = match &self.start_key {
            Some(StartKey::StartKeyOpen(b)) => !bytes_le(key, b),
            Some(StartKey::StartKeyClosed(b)) => !bytes_lt(key, b),
            None => true,
        };
        if replace_start_key {
            self.start_key = Some(StartKey::StartKeyOpen(copy_bytes(key)));
        }
        proof {
            assert forall|k: Seq<u8>|
                range_contains(*final(self), k) <==> (range_contains(*old(self), k) && lex_lt(
                    key@,
                    k,
                )) by {
                lemma_lex_total(key@, k);
                match old(self).start_key {
                    Some(StartKey::StartKeyOpen(b)) => {
                        lemma_lex_total(b@, k);
                        lemma_lex_total(key@, b@);
                        if replace_start_key {
                            // b < key: anything after key is after b
                            if lex_lt(key@, k) {
                                lemma_lex_trans(b@, key@, k);
                            }
                        } else {
                            // key <= b: anything after b is after key
                            if lex_lt(b@, k) && lex_lt(key@, b@) {
                                lemma_lex_trans(key@, b@, k);
                            }
                        }
                    },
                    Some(StartKey::StartKeyClosed(b)) => {
                        lemma_lex_total(b@, k);
                        lemma_lex_total(key@, b@);
                        if replace_start_key {
                            // b <= key
                            if lex_lt(key@, k) && lex_lt(b@, key@) {
                                lemma_lex_trans(b@, key@, k);
                            }
                        } else {
                            // key < b <= k
                            if lex_lt(b@, k) {
                                lemma_lex_trans(key@, b@, k);
                            }
                        }
                    },
                    None => {},
                }
            }
        }
        true
    }
}

/// A set of row keys: individual keys and ranges of keys.
#[derive(Debug, Clone, PartialEq, Eq, Default)]
pub struct RowSet {
    /// Single rows included in the set.
    pub row_keys: Vec<Vec<u8>>,
    /// Contiguous row ranges included in the set.
    pub row_ranges: Vec<RowRange>,
}

/// Whether one of the ranges contains a key.
pub open spec fn ranges_contain(rs: Seq<RowRange>, k: Seq<u8>) -> bool {
    exists|j: int| 0 <= j < rs.len() && range_contains(#[trigger] rs[j], k)
}

/// Whether a key is one of the given keys.
pub open spec fn keys_contain(ks: Seq<Vec<u8>>, k: Seq<u8>) -> bool {
    exists|i: int| 0 <= i < ks.len() && #[trigger] ks[i]@ == k
}

/// Whether a row set contains a key: it is one of the single keys or lies in one of the
/// ranges.
pub open spec fn set_contains(s: RowSet, k: Seq<u8>) -> bool {
    keys_contain(s.row_keys@, k) || ranges_contain(s.row_ranges@, k)
}

impl RowSet {
    /// Add a range of rows to this row set.
    pub fn with_range(self, start: KeyBound, end: KeyBound) -> (s: Self)
        ensures
            s.row_keys@ == self.row_keys@,
            s.row_ranges@.len() == self.row_ranges@.len() + 1,
            s.row_ranges@.drop_last() == self.row_ranges@,
            forall|k: Seq<u8>|
                range_contains(s.row_ranges@.last(), k) <==> (start_bound_admits(start, k)
                    && end_bound_admits(end, k)),
    {
        let start_key = bound_to_start_key(&start);
        let end_key = bound_to_end_key(&end);
        let range = RowRange { start_key, end_key };
        let mut s = self;
        s.row_ranges.push(range);
        proof {
            assert(s.row_ranges@.drop_last() =~= self.row_ranges@);
        }
        s
    }

    /// Add a single row to this row set.
    pub fn with_key(self, key: Vec<u8>) -> (s: Self)
        ensures
            s.row_keys@ == self.row_keys@.push(key),
            s.row_ranges@ == self.row_ranges@,
    {
        let mut s = self;
        s.row_keys.push(key);
        s
    }

    /// Restrict this set to the keys strictly after `key`: single keys at or before it are
    /// dropped, and ranges are cut down, or dropped when nothing after `key` remains.
    pub fn restrict_to_after(&mut self, key: Vec<u8>)
        ensures
            forall|k: Seq<u8>|
                #[trigger] set_contains(*final(self), k) <==> (set_contains(*old(self), k)
                    && lex_lt(key@, k)),
    {
        // ranges: walk from the back, keeping the restricted ranges
        let mut ranges: Vec<RowRange> = Vec::new();
        std::mem::swap(&mut ranges, &mut self.row_ranges);
        let mut kept_ranges: Vec<RowRange> = Vec::new();
        let ghost all_ranges = ranges@;
        while ranges.len() > 0
            invariant
                ranges@.len() <= all_ranges.len(),
                ranges@ == all_ranges.subrange(0, ranges@.len() as int),
                forall|k: Seq<u8>|
                    #[trigger] ranges_contain(kept_ranges@, k) <==> (ranges_contain(
                        all_ranges.subrange(ranges@.len() as int, all_ranges.len() as int),
                        k,
                    ) && lex_lt(key@, k)),
            decreases ranges.len(),
        {
            let ghost before_kept = kept_ranges@;
            let ghost idx = ranges@.len() - 1;
            let ghost tail_before = all_ranges.subrange(idx + 1, all_ranges.len() as int);
            let ghost tail_after = all_ranges.subrange(idx, all_ranges.len() as int);
            let mut r = ranges.pop().unwrap();
            proof {
                assert(r == all_ranges[idx]);
                assert(tail_after =~= seq![r] + tail_before);
            }
            let nonempty = r.restrict_to_after(&key);
            if nonempty {
                kept_ranges.push(r);
            }
            proof {
                assert forall|k: Seq<u8>|
                    #[trigger] ranges_contain(kept_ranges@, k) <==> (ranges_contain(
                        tail_after,
                        k,
                    ) && lex_lt(key@, k)) by {
                    if ranges_contain(kept_ranges@, k) {
                        let j = choose|j: int|
                            0 <= j < kept_ranges@.len() && range_contains(
                                #[trigger] kept_ranges@[j],
                                k,
                            );
                        if j < before_kept.len() {
                            assert(before_kept[j] == kept_ranges@[j]);
                            assert(ranges_contain(before_kept, k));
                            let j2 = choose|j2: int|
                                0 <= j2 < tail_before.len() && range_contains(
                                    #[trigger] tail_before[j2],
                                    k,
                                );
                            assert(tail_after[j2 + 1] == tail_before[j2]);
                        } else {
                            assert(range_contains(tail_after[0], k));
                        }
                    }
                    if ranges_contain(tail_after, k) && lex_lt(key@, k) {
                        let j = choose|j: int|
                            0 <= j < tail_after.len() && range_contains(
                                #[trigger] tail_after[j],
                                k,
                            );
                        if j == 0 {
                            assert(range_contains(kept_ranges@[kept_ranges@.len() - 1], k));
                        } else {
                            assert(tail_before[j - 1] == tail_after[j]);
                            assert(ranges_contain(tail_before, k));
                            assert(ranges_contain(before_kept, k));
                            let j2 = choose|j2: int|
                                0 <= j2 < before_kept.len() && range_contains(
                                    #[trigger] before_kept[j2],
                                    k,
                                );
                            assert(kept_ranges@[j2] == before_kept[j2]);
                        }
                    }
                }
            }
        }
        proof {
            assert(all_ranges.subrange(0, all_ranges.len() as int) =~= all_ranges);
        }
        // restore the original order
        let mut restored: Vec<RowRange> = Vec::new();
        let ghost kept_all = kept_ranges@;
        while kept_ranges.len() > 0
            invariant
                kept_ranges@.len() <= kept_all.len(),
                kept_ranges@ == kept_all.subrange(0, kept_ranges@.len() as int),
                restored@.len() + kept_ranges@.len() == kept_all.len(),
                forall|i: int|
                    0 <= i < restored@.len() ==> #[trigger] restored@[i] == kept_all[kept_all.len()
                        - 1 - i],
            decreases kept_ranges.len(),
        {
            let r = kept_ranges.pop().unwrap();
            restored.push(r);
        }
        proof {
            assert forall|k: Seq<u8>|
                #[trigger] ranges_contain(restored@, k) <==> ranges_contain(kept_all, k) by {
                if ranges_contain(restored@, k) {
                    let j = choose|j: int|
                        0 <= j < restored@.len() && range_contains(#[trigger] restored@[j], k);
                    assert(restored@[j] == kept_all[kept_all.len() - 1 - j]);
                }
                if ranges_contain(kept_all, k) {
                    let j = choose|j: int|
                        0 <= j < kept_all.len() && range_contains(#[trigger] kept_all[j], k);
                    assert(restored@[kept_all.len() - 1 - j] == kept_all[j]);
                }
            }
        }
        self.row_ranges = restored;
        // single keys: keep those after `key`, in order
        let mut keys: Vec<Vec<u8>> = Vec::new();
        std::mem::swap(&mut keys, &mut self.row_keys);
        let ghost all_keys = keys@;
        let mut kept_keys: Vec<Vec<u8>> = Vec::new();
        let mut i: usize = 0;
        while i < keys.len()
            invariant
                keys@ == all_keys,
                i <= keys.len(),
                forall|k: Seq<u8>|
                    #[trigger] keys_contain(kept_keys@, k) <==> (keys_contain(
                        all_keys.subrange(0, i as int),
                        k,
                    ) && lex_lt(key@, k)),
            decreases keys.len() - i,
        {
            let ghost before = kept_keys@;
            let ghost prefix = all_keys.subrange(0, i as int);
            let ghost next = all_keys.subrange(0, i + 1);
            if bytes_lt(&key, &keys[i]) {
                kept_keys.push(copy_bytes(&keys[i]));
            }
            proof {
                assert(next =~= prefix.push(all_keys[i as int]));
                assert forall|k: Seq<u8>|
                    #[trigger] keys_contain(kept_keys@, k) <==> (keys_contain(next, k) && lex_lt(
                        key@,
                        k,
                    )) by {
                    if keys_contain(kept_keys@, k) {
                        let j = choose|j: int| 0 <= j < kept_keys@.len() && #[trigger] kept_keys@[j]@ == k;
                        if j < before.len() {
                            assert(before[j] == kept_keys@[j]);
                            assert(keys_contain(before, k));
                            let j2 = choose|j2: int| 0 <= j2 < prefix.len() && #[trigger] prefix[j2]@ == k;
                            assert(next[j2] == prefix[j2]);
                        } else {
                            assert(next[i as int]@ == k);
                        }
                    }
                    if keys_contain(next, k) && lex_lt(key@, k) {
                        let j = choose|j: int| 0 <= j < next.len() && #[trigger] next[j]@ == k;
                        if j < i {
                            assert(prefix[j] == next[j]);
                            assert(keys_contain(prefix, k));
                            assert(keys_contain(before, k));
                            let j2 = choose|j2: int| 0 <= j2 < before.len() && #[trigger] before[j2]@ == k;
                            assert(kept_keys@[j2] == before[j2]);
                        } else {
                            assert(kept_keys@[kept_keys@.len() - 1]@ == k);
                        }
                    }
                }
            }
            i += 1;
        }
        proof {
            assert(all_keys.subrange(0, all_keys.len() as int) =~= all_keys);
        }
        self.row_keys = kept_keys;
    }
}

} // verus!
