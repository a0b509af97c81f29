//! Character-level helpers on strings, used to build and inspect resource names.
use vstd::prelude::*;

verus! {

/// Whether `needle` occurs as a contiguous run of characters in `hay`.
pub open spec fn seq_has_infix(hay: Seq<char>, needle: Seq<char>) -> bool {
    exists|i: int|
        0 <= i && i + needle.len() <= hay.len() && #[trigger] hay.subrange(i, i + needle.len())
            == needle
}

/// The characters of a string slice, in order.
pub fn str_to_chars(s: &str) -> (r: Vec<char>)
    ensures
        r@ == s@,
{
    let mut r: Vec<char> = Vec::new();
    let mut it = s.chars();
    proof {
        broadcast use vstd::string::group_string_axioms;
        assert(vstd::std_specs::iter::IteratorSpec::remaining(&it) == s@);
    }
    loop
        invariant
            vstd::std_specs::iter::IteratorSpec::obeys_prophetic_iter_laws(&it),
            r@ + vstd::std_specs::iter::IteratorSpec::remaining(&it) == s@,
            vstd::std_specs::iter::IteratorSpec::decrease(&it) is Some,
        decreases vstd::std_specs::iter::IteratorSpec::decrease(&it)->0,
    {
        let ghost before = vstd::std_specs::iter::IteratorSpec::remaining(&it);
        match it.next() {
            Some(c) => {
                proof {
                    broadcast use vstd::string::group_string_axioms;
                }
                r.push(c);
                proof {
                    assert(before =~= seq![c] + before.drop_first());
                    assert(r@ + vstd::std_specs::iter::IteratorSpec::remaining(&it) =~= s@);
                }
            },
            None => {
                proof {
                    broadcast use vstd::string::group_string_axioms;
                    assert(r@ =~= s@);
                }
                return r;
            },
        }
    }
}

/// Whether the characters of `needle` occur at position `at` of `hay`.
fn matches_at(hay: &Vec<char>, needle: &Vec<char>, at: usize) -> (r: bool)
    requires
        at + needle.len() <= hay.len(),
    ensures
        r == (hay@.subrange(at as int, at + needle.len()) == needle@),
{
    let mut k: usize = 0;
    while k < needle.len()
        invariant
            at + needle.len() <= hay.len(),
            k <= needle.len(),
            forall|j: int| 0 <= j < k ==> hay@[at + j] == needle@[j],
        decreases needle.len() - k,
    {
        if hay[at + k] != needle[k] {
            proof {
                assert(hay@.subrange(at as int, at + needle.len())[k as int] != needle@[k as int]);
            }
            return false;
        }
        k += 1;
    }
    proof {
        assert(hay@.subrange(at as int, at + needle.len()) =~= needle@);
    }
    true
}

/// Whether `needle` occurs in `hay`.
pub fn contains_str(hay: &str, needle: &str) -> (r: bool)
    ensures
        r == seq_has_infix(hay@, needle@),
{
    let h = str_to_chars(hay);
    let n = str_to_chars(needle);
    if n.len() > h.len() {
        return false;
    }
    let last = h.len() - n.len();
    let mut i: usize = 0;
    loop
        invariant
            h@ == hay@,
            n@ == needle@,
            last == h.len() - n.len(),
            i <= last,
            forall|j: int| 0 <= j < i ==> #[trigger] h@.subrange(j, j + n.len()) != n@,
        ensures
            forall|j: int| 0 <= j <= last ==> #[trigger] h@.subrange(j, j + n.len()) != n@,
        decreases last - i,
    {
        if matches_at(&h, &n, i) {
            return true;
        }
        if i == last {
            break;
        }
        i += 1;
    }
    proof {
        assert forall|j: int|
            0 <= j && j + needle@.len() <= hay@.len() implies #[trigger] hay@.subrange(
            j,
            j + needle@.len(),
        ) != needle@ by {
            assert(j <= last);
        }
    }
    false
}

/// Whether `hay` begins with `prefix`.
pub fn starts_with_str(hay: &str, prefix: &str) -> (r: bool)
    ensures
        r == (prefix@.len() <= hay@.len() && hay@.subrange(0, prefix@.len() as int) == prefix@),
{
    let h = str_to_chars(hay);
    let p = str_to_chars(prefix);
    if p.len() > h.len() {
        return false;
    }
    matches_at(&h, &p, 0)
}

/// The concatenation of the given pieces.
pub fn concat_strs(pieces: &[&str]) -> (r: String)
    ensures
        r@ == pieces@.map_values(|p: &str| p@).fold_left(Seq::<char>::empty(), |acc: Seq<char>, p: Seq<char>| acc + p),
{
    let mut r = String::new();
    for i in 0..pieces.len()
        invariant
            r@ == pieces@.subrange(0, i as int).map_values(|p: &str| p@).fold_left(
                Seq::<char>::empty(),
                |acc: Seq<char>, p: Seq<char>| acc + p,
            ),
    {
        r.append(pieces[i]);
        proof {
            let f = |acc: Seq<char>, p: Seq<char>| acc + p;
            let next = pieces@.subrange(0, i + 1).map_values(|p: &str| p@);
            assert(next.drop_last() =~= pieces@.subrange(0, i as int).map_values(|p: &str| p@));
        }
    }
    proof {
        assert(pieces@.subrange(0, pieces.len() as int) =~= pieces@);
    }
    r
}

/// The character of a decimal digit.
pub open spec fn digit_char(d: nat) -> char {
    if d == 0 {
        '0'
    } else if d == 1 {
        '1'
    } else if d == 2 {
        '2'
    } else if d == 3 {
        '3'
    } else if d == 4 {
        '4'
    } else if d == 5 {
        '5'
    } else if d == 6 {
        '6'
    } else if d == 7 {
        '7'
    } else if d == 8 {
        '8'
    } else {
        '9'
    }
}

/// The decimal representation of a number, without leading zeros.
pub open spec fn decimal_spec(n: nat) -> Seq<char>
    decreases n,
{
    if n < 10 {
        seq![digit_char(n)]
    } else {
        decimal_spec(n / 10).push(digit_char(n % 10))
    }
}

fn digit_str(d: usize) -> (r: &'static str)
    requires
        d < 10,
    ensures
        r@ == seq![digit_char(d as nat)],
{
    proof {
        reveal_strlit("0");
        reveal_strlit("1");
        reveal_strlit("2");
        reveal_strlit("3");
        reveal_strlit("4");
        reveal_strlit("5");
        reveal_strlit("6");
        reveal_strlit("7");
        reveal_strlit("8");
        reveal_strlit("9");
    }
    match d {
        0 => "0",
        1 => "1",
        2 => "2",
        3 => "3",
        4 => "4",
        5 => "5",
        6 => "6",
        7 => "7",
        8 => "8",
        _ => "9",
    }
}

/// The decimal representation of a number, as displaying it writes it.
pub fn decimal(n: usize) -> (r: String)
    ensures
        r@ == decimal_spec(n as nat),
    decreases n,
{
    if n < 10 {
        let mut r = String::new();
        r.append(digit_str(n));
        proof {
            assert(r@ =~= decimal_spec(n as nat));
        }
        r
    } else {
        let mut r = decimal(n / 10);
        r.append(digit_str(n % 10));
        proof {
            assert(r@ =~= decimal_spec(n as nat));
        }
        r
    }
}

/// The largest value a `usize` holds; lengths beyond it are reported as this value.
pub open spec fn sat(n: nat) -> nat {
    if n > usize::MAX {
        usize::MAX as nat
    } else {
        n
    }
}

/// Adding saturated values and saturating gives the saturated sum.
pub proof fn lemma_sat_add(x: nat, y: nat)
    ensures
        sat(sat(x) + sat(y)) == sat(x + y),
{
}

/// The number of bytes of the UTF-8 encoding of a string.
pub open spec fn utf8_len(s: Seq<char>) -> nat {
    vstd::utf8::encode_utf8(s).len()
}

/// The number of bytes in the UTF-8 encoding of a character.
pub open spec fn char_width(c: char) -> nat {
    vstd::utf8::encode_scalar(c as u32).len()
}

fn char_utf8_width(c: char) -> (w: usize)
    ensures
        w == char_width(c),
        1 <= w <= 4,
{
    let v = c as u32;
    if v <= 0x7F {
        1
    } else if v <= 0x7FF {
        2
    } else if v <= 0xFFFF && !(0xD800 <= v && v <= 0xDFFF) {
        3
    } else {
        4
    }
}

/// The number of bytes of the UTF-8 encoding of a string (saturated at `usize::MAX`), as the
/// byte length of a string slice counts them.
pub fn utf8_byte_len(s: &str) -> (r: usize)
    ensures
        r == sat(utf8_len(s@)),
{
    let chars = str_to_chars(s);
    let mut total: usize = 0;
    let mut i = chars.len();
    while i > 0
        invariant
            chars@ == s@,
            i <= chars.len(),
            total == sat(utf8_len(s@.subrange(i as int, s@.len() as int))),
        decreases i,
    {
        let w = char_utf8_width(chars[i - 1]);
        proof {
            let tail = s@.subrange(i as int, s@.len() as int);
            let longer = s@.subrange(i - 1, s@.len() as int);
            assert(longer.drop_first() =~= tail);
            assert(longer[0] == chars@[i - 1]);
            lemma_sat_add(w as nat, utf8_len(tail));
        }
        total = w.saturating_add(total);
        i -= 1;
    }
    proof {
        assert(s@.subrange(0, s@.len() as int) =~= s@);
    }
    total
}

/// Whether two strings hold the same characters.
pub fn str_eq(a: &str, b: &str) -> (r: bool)
    ensures
        r == (a@ == b@),
{
    let x = str_to_chars(a);
    let y = str_to_chars(b);
    if x.len() != y.len() {
        return false;
    }
    let mut i: usize = 0;
    while i < x.len()
        invariant
            x@ == a@,
            y@ == b@,
            x.len() == y.len(),
            i <= x.len(),
            forall|j: int| 0 <= j < i ==> x@[j] == y@[j],
        decreases x.len() - i,
    {
        if x[i] != y[i] {
            return false;
        }
        i += 1;
    }
    proof {
        assert(x@ =~= y@);
    }
    true
}

} // verus!
