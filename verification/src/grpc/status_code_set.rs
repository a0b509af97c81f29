use vstd::prelude::*;

use super::status::{code_from_number, code_number, lemma_code_number_roundtrip, Code, Status};
use crate::retry_policy::RetryPredicate;

verus! {

broadcast use vstd::seq_lib::group_seq_properties;

/// Whether bit `n` of `x` is set.
pub open spec fn bit_set(x: u32, n: int) -> bool {
    0 <= n < 32 && (x >> (n as u32)) & 1u32 == 1u32
}

proof fn lemma_bit_or(a: u32, b: u32, n: u32)
    by (bit_vector)
    requires
        n < 32,
    ensures
        (((a | b) >> n) & 1u32 == 1u32) == (((a >> n) & 1u32 == 1u32) || ((b >> n) & 1u32
            == 1u32)),
        (((a & b) >> n) & 1u32 == 1u32) == (((a >> n) & 1u32 == 1u32) && ((b >> n) & 1u32
            == 1u32)),
        (((a ^ b) >> n) & 1u32 == 1u32) == (((a >> n) & 1u32 == 1u32) != ((b >> n) & 1u32
            == 1u32)),
        ((0u32 >> n) & 1u32 == 1u32) == false,
{
}

proof fn lemma_single_bit(m: u32, n: u32)
    by (bit_vector)
    requires
        m < 32,
        n < 32,
    ensures
        (((1u32 << m) >> n) & 1u32 == 1u32) == (m == n),
{
}

proof fn lemma_small_bits(a: u32, b: u32, m: u32)
    by (bit_vector)
    requires
        a < 0x20000,
        b < 0x20000,
        m < 17,
    ensures
        (a | b) < 0x20000,
        (a & b) < 0x20000,
        (a ^ b) < 0x20000,
        (1u32 << m) < 0x20000,
{
}

proof fn lemma_small_bits_ext(a: u32, b: u32)
    by (bit_vector)
    requires
        a < 0x20000,
        b < 0x20000,
        (a >> 0u32) & 1u32 == (b >> 0u32) & 1u32,
        (a >> 1u32) & 1u32 == (b >> 1u32) & 1u32,
        (a >> 2u32) & 1u32 == (b >> 2u32) & 1u32,
        (a >> 3u32) & 1u32 == (b >> 3u32) & 1u32,
        (a >> 4u32) & 1u32 == (b >> 4u32) & 1u32,
        (a >> 5u32) & 1u32 == (b >> 5u32) & 1u32,
        (a >> 6u32) & 1u32 == (b >> 6u32) & 1u32,
        (a >> 7u32) & 1u32 == (b >> 7u32) & 1u32,
        (a >> 8u32) & 1u32 == (b >> 8u32) & 1u32,
        (a >> 9u32) & 1u32 == (b >> 9u32) & 1u32,
        (a >> 10u32) & 1u32 == (b >> 10u32) & 1u32,
        (a >> 11u32) & 1u32 == (b >> 11u32) & 1u32,
        (a >> 12u32) & 1u32 == (b >> 12u32) & 1u32,
        (a >> 13u32) & 1u32 == (b >> 13u32) & 1u32,
        (a >> 14u32) & 1u32 == (b >> 14u32) & 1u32,
        (a >> 15u32) & 1u32 == (b >> 15u32) & 1u32,
        (a >> 16u32) & 1u32 == (b >> 16u32) & 1u32,
    ensures
        a == b,
{
}

proof fn lemma_bit_is_zero_or_one(a: u32, n: u32)
    by (bit_vector)
    requires
        n < 32,
    ensures
        (a >> n) & 1u32 == 0u32 || (a >> n) & 1u32 == 1u32,
{
}

/// Two words below `2^17` that agree on the bits of all seventeen codes are equal.
proof fn lemma_words_equal(a: u32, b: u32)
    requires
        a < 0x20000,
        b < 0x20000,
        forall|n: int| 0 <= n < 17 ==> bit_set(a, n) == bit_set(b, n),
    ensures
        a == b,
{
    assert forall|n: u32| n < 17 implies (a >> n) & 1u32 == (b >> n) & 1u32 by {
        assert(bit_set(a, n as int) == bit_set(b, n as int));
        lemma_bit_is_zero_or_one(a, n);
        lemma_bit_is_zero_or_one(b, n);
    }
    assert((a >> 0u32) & 1u32 == (b >> 0u32) & 1u32);
    assert((a >> 1u32) & 1u32 == (b >> 1u32) & 1u32);
    assert((a >> 2u32) & 1u32 == (b >> 2u32) & 1u32);
    assert((a >> 3u32) & 1u32 == (b >> 3u32) & 1u32);
    assert((a >> 4u32) & 1u32 == (b >> 4u32) & 1u32);
    assert((a >> 5u32) & 1u32 == (b >> 5u32) & 1u32);
    assert((a >> 6u32) & 1u32 == (b >> 6u32) & 1u32);
    assert((a >> 7u32) & 1u32 == (b >> 7u32) & 1u32);
    assert((a >> 8u32) & 1u32 == (b >> 8u32) & 1u32);
    assert((a >> 9u32) & 1u32 == (b >> 9u32) & 1u32);
    assert((a >> 10u32) & 1u32 == (b >> 10u32) & 1u32);
    assert((a >> 11u32) & 1u32 == (b >> 11u32) & 1u32);
    assert((a >> 12u32) & 1u32 == (b >> 12u32) & 1u32);
    assert((a >> 13u32) & 1u32 == (b >> 13u32) & 1u32);
    assert((a >> 14u32) & 1u32 == (b >> 14u32) & 1u32);
    assert((a >> 15u32) & 1u32 == (b >> 15u32) & 1u32);
    assert((a >> 16u32) & 1u32 == (b >> 16u32) & 1u32);
    lemma_small_bits_ext(a, b);
}

/// A set of gRPC status [`Code`]s which can be efficiently checked for the presence or absence
/// of certain code values. Each code occupies the bit of its number in a 32-bit word.
#[derive(Clone, Copy, Debug, PartialEq, Eq, Structural)]
pub struct StatusCodeSet {
    set: u32,
}

/// The single bit that stands for a code.
fn code_to_bit(code: Code) -> (bit: u32)
    ensures
        bit < 0x20000,
        bit == 1u32 << (code_number(code) as u32),
        forall|n: int| #[trigger] bit_set(bit, n) <==> n == code_number(code),
{
    let n = code.as_i32();
    proof {
        lemma_code_number_roundtrip(code);
        lemma_small_bits(0, 0, n as u32);
        assert forall|k: int| #[trigger] bit_set(1u32 << (n as u32), k) <==> k == code_number(code) by {
            if 0 <= k < 32 {
                lemma_single_bit(n as u32, k as u32);
            }
        }
    }
    1u32 << (n as u32)
}

/// Perform a checked equivalent to [`Code::from_i32`]: `None` for integers that stand for no
/// code.
pub fn code_from_i32(integer_code: i32) -> (r: Option<Code>)
    ensures
        r is Some <==> 0 <= integer_code <= 16,
        r matches Some(c) ==> code_number(c) == integer_code,
{
    let code = Code::from_i32(integer_code);
    if code == Code::Unknown && integer_code != 2 {
        None
    } else {
        Some(code)
    }
}

impl View for StatusCodeSet {
    type V = Set<Code>;

    /// The codes whose bits are set.
    closed spec fn view(&self) -> Set<Code> {
        Set::new(|c: Code| bit_set(self.set, code_number(c)))
    }
}

impl StatusCodeSet {
    /// Only the bits of the seventeen known codes may be set.
    pub closed spec fn wf(self) -> bool {
        self.set < 0x20000
    }

    proof fn lemma_view_bit(self, n: int)
        requires
            0 <= n < 17,
        ensures
            self@.contains(code_from_number(n)) == bit_set(self.set, n),
    {
        lemma_code_number_roundtrip(code_from_number(n));
    }

    /// Two well-formed sets are equal exactly when they hold the same codes.
    pub proof fn lemma_eq_iff_same_codes(a: StatusCodeSet, b: StatusCodeSet)
        requires
            a.wf(),
            b.wf(),
        ensures
            (a == b) <==> (a@ == b@),
    {
        if a@ == b@ {
            assert forall|n: int| 0 <= n < 17 implies bit_set(a.set, n) == bit_set(b.set, n) by {
                a.lemma_view_bit(n);
                b.lemma_view_bit(n);
            }
            lemma_words_equal(a.set, b.set);
        }
    }

    /// Collecting the codes that `iter` lists gives the set back.
    pub proof fn lemma_collect_iter(s: StatusCodeSet, codes: Seq<Code>, t: StatusCodeSet)
        requires
            s.wf(),
            t.wf(),
            forall|c: Code| codes.contains(c) <==> s@.contains(c),
            t@ == codes.to_set(),
        ensures
            t == s,
    {
        assert(t@ =~= s@);
        StatusCodeSet::lemma_eq_iff_same_codes(t, s);
    }

    /// Create a new set with no elements
    pub fn empty() -> (s: Self)
        ensures
            s@ == Set::<Code>::empty(),
            s.wf(),
    {
        let s = Self { set: 0 };
        proof {
            assert forall|c: Code| !s@.contains(c) by {
                lemma_code_number_roundtrip(c);
                lemma_bit_or(0, 0, code_number(c) as u32);
            }
            assert(s@ =~= Set::<Code>::empty());
        }
        s
    }

    /// Create a new set containing the given status codes
    pub fn new(codes: &[Code]) -> (s: Self)
        ensures
            s@ == codes@.to_set(),
            s.wf(),
    {
        let mut s = Self::empty();
        let mut i: usize = 0;
        while i < codes.len()
            invariant
                i <= codes.len(),
                s.wf(),
                s@ == codes@.subrange(0, i as int).to_set(),
            decreases codes.len() - i,
        {
            let ghost prev = s;
            s = s.bitor(Self::from_code(codes[i]));
            proof {
                let ghost next = codes@.subrange(0, i + 1);
                assert(next =~= codes@.subrange(0, i as int).push(codes@[i as int]));
                assert forall|c: Code| s@.contains(c) <==> next.to_set().contains(c) by {
                    assert(next.contains(c) <==> (codes@.subrange(0, i as int).contains(c) || c
                        == codes@[i as int]));
                }
                assert(s@ =~= next.to_set());
            }
            i += 1;
        }
        proof {
            assert(codes@.subrange(0, codes.len() as int) =~= codes@);
        }
        s
    }

    /// Check whether this set contains the given code
    pub fn contains(&self, code: Code) -> (r: bool)
        ensures
            r == self@.contains(code),
    {
        proof {
            lemma_code_number_roundtrip(code);
        }
        let bit = code_to_bit(code);
        proof {
            lemma_bit_or(self.set, bit, code_number(code) as u32);
            lemma_single_bit(code_number(code) as u32, code_number(code) as u32);
            assert(bit_set(bit, code_number(code)));
        }
        let r = (self.set & bit) != 0;
        proof {
            lemma_and_single_bit(self.set, code_number(code) as u32);
        }
        r
    }

    /// The set holding only the given code.
    pub fn from_code(code: Code) -> (s: Self)
        ensures
            s@ == set![code],
            s.wf(),
    {
        let s = Self { set: code_to_bit(code) };
        proof {
            assert forall|c: Code| s@.contains(c) <==> c == code by {
                lemma_code_number_roundtrip(c);
                lemma_code_number_roundtrip(code);
            }
            assert(s@ =~= set![code]);
        }
        s
    }

    /// Create a set from a sequence of codes, as collecting an iterator of codes does.
    pub fn from_codes(codes: Vec<Code>) -> (s: Self)
        ensures
            s@ == codes@.to_set(),
            s.wf(),
    {
        let mut s = Self::empty();
        for i in 0..codes.len()
            invariant
                s.wf(),
                s@ == codes@.subrange(0, i as int).to_set(),
        {
            s = s.bitor(Self::from_code(codes[i]));
            proof {
                let ghost next = codes@.subrange(0, i + 1);
                assert(next =~= codes@.subrange(0, i as int).push(codes@[i as int]));
                assert forall|c: Code| s@.contains(c) <==> next.to_set().contains(c) by {
                    assert(next.contains(c) <==> (codes@.subrange(0, i as int).contains(c) || c
                        == codes@[i as int]));
                }
                assert(s@ =~= next.to_set());
            }
        }
        proof {
            assert(codes@.subrange(0, codes.len() as int) =~= codes@);
        }
        s
    }

    /// The union of two sets (the `|` operator).
    pub fn bitor(self, rhs: Self) -> (s: Self)
        requires
            self.wf(),
            rhs.wf(),
        ensures
            s@ == self@.union(rhs@),
            s.wf(),
    {
        let s = Self { set: self.set | rhs.set };
        proof {
            lemma_small_bits(self.set, rhs.set, 0);
            assert forall|c: Code| s@.contains(c) <==> self@.union(rhs@).contains(c) by {
                lemma_code_number_roundtrip(c);
                lemma_bit_or(self.set, rhs.set, code_number(c) as u32);
            }
            assert(s@ =~= self@.union(rhs@));
        }
        s
    }

    /// The intersection of two sets (the `&` operator).
    pub fn bitand(self, rhs: Self) -> (s: Self)
        requires
            self.wf(),
            rhs.wf(),
        ensures
            s@ == self@.intersect(rhs@),
            s.wf(),
    {
        let s = Self { set: self.set & rhs.set };
        proof {
            lemma_small_bits(self.set, rhs.set, 0);
            assert forall|c: Code| s@.contains(c) <==> self@.intersect(rhs@).contains(c) by {
                lemma_code_number_roundtrip(c);
                lemma_bit_or(self.set, rhs.set, code_number(c) as u32);
            }
            assert(s@ =~= self@.intersect(rhs@));
        }
        s
    }

    /// The codes in exactly one of the two sets (the `^` operator).
    pub fn bitxor(self, rhs: Self) -> (s: Self)
        requires
            self.wf(),
            rhs.wf(),
        ensures
            s@ == self@.union(rhs@).difference(self@.intersect(rhs@)),
            s.wf(),
    {
        let s = Self { set: self.set ^ rhs.set };
        proof {
            lemma_small_bits(self.set, rhs.set, 0);
            assert forall|c: Code|
                s@.contains(c) <==> self@.union(rhs@).difference(self@.intersect(rhs@)).contains(
                    c,
                ) by {
                lemma_code_number_roundtrip(c);
                lemma_bit_or(self.set, rhs.set, code_number(c) as u32);
            }
            assert(s@ =~= self@.union(rhs@).difference(self@.intersect(rhs@)));
        }
        s
    }

    /// Add the codes of `rhs` to this set (the `|=` operator).
    pub fn bitor_assign(&mut self, rhs: Self)
        requires
            old(self).wf(),
            rhs.wf(),
        ensures
            final(self)@ == old(self)@.union(rhs@),
            final(self).wf(),
    {
        *self = self.bitor(rhs);
    }

    /// Keep only the codes that are also in `rhs` (the `&=` operator).
    pub fn bitand_assign(&mut self, rhs: Self)
        requires
            old(self).wf(),
            rhs.wf(),
        ensures
            final(self)@ == old(self)@.intersect(rhs@),
            final(self).wf(),
    {
        *self = self.bitand(rhs);
    }

    /// Toggle the codes of `rhs` in this set (the `^=` operator).
    pub fn bitxor_assign(&mut self, rhs: Self)
        requires
            old(self).wf(),
            rhs.wf(),
        ensures
            final(self)@ == old(self)@.union(rhs@).difference(old(self)@.intersect(rhs@)),
            final(self).wf(),
    {
        *self = self.bitxor(rhs);
    }

    /// The codes contained in this set, in increasing order of their numbers.
    pub fn iter(&self) -> (codes: Vec<Code>)
        ensures
            forall|c: Code| codes@.contains(c) <==> self@.contains(c),
            forall|i: int, j: int|
                0 <= i < j < codes.len() ==> code_number(codes@[i]) < code_number(codes@[j]),
    {
        let mut codes: Vec<Code> = Vec::new();
        let mut n: i32 = 0;
        while n < 17
            invariant
                0 <= n <= 17,
                forall|c: Code|
                    codes@.contains(c) <==> (self@.contains(c) && code_number(c) < n),
                forall|i: int, j: int|
                    0 <= i < j < codes.len() ==> code_number(codes@[i]) < code_number(codes@[j]),
                forall|i: int| 0 <= i < codes.len() ==> code_number(codes@[i]) < n,
            decreases 17 - n,
        {
            match code_from_i32(n) {
                Some(code) => {
                    let ghost before = codes@;
                    let present = self.contains(code);
                    if present {
                        codes.push(code);
                    }
                    proof {
                        assert(present ==> codes@ == before.push(code));
                        assert(!present ==> codes@ == before);
                        assert forall|c: Code|
                            codes@.contains(c) <==> (self@.contains(c) && code_number(c) < n
                                + 1) by {
                            lemma_code_number_roundtrip(c);
                            lemma_code_number_roundtrip(code);
                            if present {
                                assert(codes@.contains(c) <==> (before.contains(c) || c == code));
                            }
                        }
                    }
                },
                None => {},
            }
            n += 1;
        }
        proof {
            assert forall|c: Code| codes@.contains(c) <==> self@.contains(c) by {
                lemma_code_number_roundtrip(c);
            }
        }
        codes
    }

    /// Create a set from integer code values, as deserializing a list of integers does. The
    /// first value that stands for no known code is returned as the error.
    pub fn from_i32_codes(values: &[i32]) -> (r: Result<Self, i32>)
        ensures
            r is Ok <==> (forall|i: int| 0 <= i < values.len() ==> 0 <= #[trigger] values@[i] <= 16),
            r matches Ok(s) ==> s.wf() && (forall|c: Code|
                s@.contains(c) <==> values@.contains(code_number(c) as i32)),
            r matches Err(v) ==> exists|k: int|
                0 <= k < values.len() && values@[k] == v && !(0 <= v <= 16) && (forall|i: int|
                    0 <= i < k ==> 0 <= #[trigger] values@[i] <= 16),
    {
        let mut s = Self::empty();
        for k in 0..values.len()
            invariant
                s.wf(),
                forall|i: int| 0 <= i < k ==> 0 <= #[trigger] values@[i] <= 16,
                forall|c: Code|
                    s@.contains(c) <==> values@.subrange(0, k as int).contains(
                        code_number(c) as i32,
                    ),
        {
            let v = values[k];
            match code_from_i32(v) {
                Some(code) => {
                    let ghost prev = s;
                    s = s.bitor(Self::from_code(code));
                    proof {
                        assert(values@.subrange(0, k + 1) =~= values@.subrange(0, k as int).push(v));
                        assert forall|c: Code|
                            s@.contains(c) <==> values@.subrange(0, k + 1).contains(
                                code_number(c) as i32,
                            ) by {
                            lemma_code_number_roundtrip(c);
                            lemma_code_number_roundtrip(code);
                            assert(values@.subrange(0, k + 1).contains(code_number(c) as i32) <==> (
                            values@.subrange(0, k as int).contains(code_number(c) as i32) || v
                                == code_number(c) as i32));
                        }
                    }
                },
                None => {
                    return Err(v);
                },
            }
        }
        proof {
            assert(values@.subrange(0, values.len() as int) =~= values@);
        }
        Ok(s)
    }
}

proof fn lemma_and_single_bit(a: u32, n: u32)
    by (bit_vector)
    requires
        n < 32,
    ensures
        ((a & (1u32 << n)) != 0u32) == ((a >> n) & 1u32 == 1u32),
{
}


impl Default for StatusCodeSet {
    fn default() -> (s: Self)
        ensures
            s@ == Set::<Code>::empty(),
            s.wf(),
    {
        Self::empty()
    }
}

impl RetryPredicate<Status> for StatusCodeSet {
    /// Whether the given error carries one of the codes in this set, making it retriable.
    fn is_retriable(&self, error: &Status) -> (r: bool)
        ensures
            r == self@.contains(error.code_spec()),
    {
        self.contains(error.code())
    }
}

/// The `|` operator: the union of two sets.
impl core::ops::BitOr for StatusCodeSet {
    type Output = StatusCodeSet;

    fn bitor(self, rhs: Self) -> (s: Self) {
        let s = StatusCodeSet::bitor(self, rhs);
        proof {
            let c = choose|c: Self| c.wf() && c@ == self@.union(rhs@);
            StatusCodeSet::lemma_eq_iff_same_codes(c, s);
        }
        s
    }
}

impl vstd::std_specs::ops::BitOrSpecImpl for StatusCodeSet {
    open spec fn obeys_bitor_spec() -> bool {
        true
    }

    open spec fn bitor_req(self, rhs: Self) -> bool {
        self.wf() && rhs.wf()
    }

    /// The well-formed set of the codes in either set.
    open spec fn bitor_spec(self, rhs: Self) -> Self {
        choose|c: Self| c.wf() && c@ == self@.union(rhs@)
    }
}

/// The `&` operator: the intersection of two sets.
impl core::ops::BitAnd for StatusCodeSet {
    type Output = StatusCodeSet;

    fn bitand(self, rhs: Self) -> (s: Self) {
        let s = StatusCodeSet::bitand(self, rhs);
        proof {
            let c = choose|c: Self| c.wf() && c@ == self@.intersect(rhs@);
            StatusCodeSet::lemma_eq_iff_same_codes(c, s);
        }
        s
    }
}

impl vstd::std_specs::ops::BitAndSpecImpl for StatusCodeSet {
    open spec fn obeys_bitand_spec() -> bool {
        true
    }

    open spec fn bitand_req(self, rhs: Self) -> bool {
        self.wf() && rhs.wf()
    }

    /// The well-formed set of the codes in both sets.
    open spec fn bitand_spec(self, rhs: Self) -> Self {
        choose|c: Self| c.wf() && c@ == self@.intersect(rhs@)
    }
}

/// The `^` operator: the codes in exactly one of the two sets.
impl core::ops::BitXor for StatusCodeSet {
    type Output = StatusCodeSet;

    fn bitxor(self, rhs: Self) -> (s: Self) {
        let s = StatusCodeSet::bitxor(self, rhs);
        proof {
            let c = choose|c: Self| c.wf() && c@ == self@.union(rhs@).difference(self@.intersect(rhs@));
            StatusCodeSet::lemma_eq_iff_same_codes(c, s);
        }
        s
    }
}

impl vstd::std_specs::ops::BitXorSpecImpl for StatusCodeSet {
    open spec fn obeys_bitxor_spec() -> bool {
        true
    }

    open spec fn bitxor_req(self, rhs: Self) -> bool {
        self.wf() && rhs.wf()
    }

    /// The well-formed set of the codes in exactly one of the two sets.
    open spec fn bitxor_spec(self, rhs: Self) -> Self {
        choose|c: Self| c.wf() && c@ == self@.union(rhs@).difference(self@.intersect(rhs@))
    }
}

} // verus!
