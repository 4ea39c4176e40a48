//! Character sequences: case folding and the comparisons that filters make on text.

use vstd::prelude::*;

verus! {

/// How one value stands to another in a total order.
#[derive(Debug, Clone, Copy, PartialEq, Eq, Structural)]
pub enum Order {
    Less,
    Equal,
    Greater,
}

/// The lower-case form of an ASCII capital; every other character is itself.
pub open spec fn lower(c: char) -> char {
    if 'A' <= c && c <= 'Z' {
        ((c as u8) + 32) as char
    } else {
        c
    }
}

/// A sequence with every ASCII capital replaced by its lower-case form.
pub open spec fn fold(s: Seq<char>) -> Seq<char> {
    Seq::new(s.len(), |i: int| lower(s[i]))
}

/// Two sequences that differ at most in the case of their ASCII letters.
pub open spec fn same_ignoring_case(a: Seq<char>, b: Seq<char>) -> bool {
    fold(a) == fold(b)
}

/// `needle` stands in `hay` from index `at` on.
pub open spec fn stands(needle: Seq<char>, hay: Seq<char>, at: int) -> bool {
    0 <= at && at + needle.len() <= hay.len() && hay.subrange(at, at + needle.len()) == needle
}

/// `needle` occurs in `hay` as a run of consecutive characters.
pub open spec fn occurs_in(needle: Seq<char>, hay: Seq<char>) -> bool {
    exists|at: int| stands(needle, hay, at)
}

/// `a` comes before `b` in dictionary order by code point: at the first place where
/// they part, `a` has ended or holds the smaller character.
pub open spec fn precedes(a: Seq<char>, b: Seq<char>) -> bool {
    exists|k: int|
        0 <= k <= a.len() && k < b.len() && #[trigger] a.subrange(0, k) == b.subrange(0, k) && (k
            == a.len() || a[k] < b[k])
}

/// Dictionary order by code point.
pub open spec fn text_order(a: Seq<char>, b: Seq<char>) -> Order {
    if a == b {
        Order::Equal
    } else if precedes(a, b) {
        Order::Less
    } else {
        Order::Greater
    }
}

/// The lower-case form of an ASCII capital; every other character is itself.
pub fn to_lower(c: char) -> (r: char)
    ensures
        r == lower(c),
{
    if 'A' <= c && c <= 'Z' {
        ((c as u8) + 32) as char
    } else {
        c
    }
}

/// The characters of a string, in order.
pub fn to_chars(s: &str) -> (r: Vec<char>)
    ensures
        r@ == s@,
{
    let mut out: Vec<char> = Vec::new();
    for c in it: s.chars()
        invariant
            out@ == it.seq().take(it.index() as int),
            it.seq() == s@,
    {
        out.push(c);
    }
    out
}

/// Length of the longest common prefix of two character vectors.
fn common_prefix(a: &Vec<char>, b: &Vec<char>) -> (k: usize)
    ensures
        k <= a.len(),
        k <= b.len(),
        a@.subrange(0, k as int) == b@.subrange(0, k as int),
        k < a.len() && k < b.len() ==> a@[k as int] != b@[k as int],
{
    let mut k: usize = 0;
    while k < a.len() && k < b.len() && a[k] == b[k]
        invariant
            k <= a.len(),
            k <= b.len(),
            a@.subrange(0, k as int) =~= b@.subrange(0, k as int),
        decreases a.len() - k,
    {
        k += 1;
        assert(a@.subrange(0, k as int) =~= a@.subrange(0, k - 1).push(a@[k - 1]));
        assert(b@.subrange(0, k as int) =~= b@.subrange(0, k - 1).push(b@[k - 1]));
    }
    k
}

/// Any two places up to which two sequences agree lie on one common prefix, so a
/// sequence that differs from another does so first at one well-defined place.
proof fn lemma_first_difference(a: Seq<char>, b: Seq<char>, k: int, j: int)
    requires
        0 <= k <= a.len(),
        k <= b.len(),
        a.subrange(0, k) == b.subrange(0, k),
        k < a.len() && k < b.len() ==> a[k] != b[k],
        0 <= j <= a.len(),
        j <= b.len(),
        a.subrange(0, j) == b.subrange(0, j),
    ensures
        j <= k,
        j < k ==> j < a.len() && j < b.len() && a[j] == b[j],
{
    if j > k {
        assert(a.subrange(0, j)[k] == a[k]);
        assert(b.subrange(0, j)[k] == b[k]);
    }
    if j < k {
        assert(a.subrange(0, k)[j] == a[j]);
        assert(b.subrange(0, k)[j] == b[j]);
    }
}

/// How `a` stands to `b` in dictionary order by code point.
pub fn chars_order(a: &Vec<char>, b: &Vec<char>) -> (r: Order)
    ensures
        r == text_order(a@, b@),
{
    let k = common_prefix(a, b);
    if k == a.len() && k == b.len() {
        assert(a@ =~= a@.subrange(0, k as int));
        assert(b@ =~= b@.subrange(0, k as int));
        Order::Equal
    } else if k == a.len() || (k < b.len() && a[k] < b[k]) {
        proof {
            if a@ == b@ {
                assert(k < a.len() && k < b.len());
            }
            assert(a@.subrange(0, k as int) == b@.subrange(0, k as int));
        }
        Order::Less
    } else {
        proof {
            if a@ == b@ {
                assert(a@.len() == b@.len());
            }
            if precedes(a@, b@) {
                let j = choose|j: int|
                    0 <= j <= a@.len() && j < b@.len() && #[trigger] a@.subrange(0, j)
                        == b@.subrange(0, j) && (j == a@.len() || a@[j] < b@[j]);
                lemma_first_difference(a@, b@, k as int, j);
            }
        }
        Order::Greater
    }
}

/// Whether two sequences of characters are the same.
pub fn chars_equal(a: &Vec<char>, b: &Vec<char>) -> (r: bool)
    ensures
        r == (a@ == b@),
{
    let k = common_prefix(a, b);
    if k == a.len() && k == b.len() {
        assert(a@ =~= a@.subrange(0, k as int));
        assert(b@ =~= b@.subrange(0, k as int));
        true
    } else {
        proof {
            if a@ == b@ {
                assert(a@.len() == b@.len());
            }
        }
        false
    }
}

/// Whether `needle` stands in `hay` at index `at`.
fn stands_at(needle: &Vec<char>, hay: &Vec<char>, at: usize) -> (r: bool)
    requires
        at + needle.len() <= hay.len(),
    ensures
        r == stands(needle@, hay@, at as int),
{
    let mut i: usize = 0;
    while i < needle.len()
        invariant
            i <= needle.len(),
            at + needle.len() <= hay.len(),
            forall|j: int| 0 <= j < i ==> hay@[at + j] == needle@[j],
        decreases needle.len() - i,
    {
        if hay[at + i] != needle[i] {
            assert(hay@.subrange(at as int, at + needle.len())[i as int] == hay@[at + i]);
            return false;
        }
        i += 1;
    }
    assert(hay@.subrange(at as int, at + needle.len()) =~= needle@);
    true
}

/// Whether `hay` begins with `needle`.
pub fn chars_start_with(hay: &Vec<char>, needle: &Vec<char>) -> (r: bool)
    ensures
        r == needle@.is_prefix_of(hay@),
{
    if needle.len() > hay.len() {
        return false;
    }
    stands_at(needle, hay, 0)
}

/// Whether `hay` ends with `needle`.
pub fn chars_end_with(hay: &Vec<char>, needle: &Vec<char>) -> (r: bool)
    ensures
        r == needle@.is_suffix_of(hay@),
{
    if needle.len() > hay.len() {
        return false;
    }
    let at = hay.len() - needle.len();
    assert(hay@.subrange(at as int, at + needle.len()) == hay@.subrange(
        hay@.len() - needle@.len(),
        hay@.len() as int,
    ));
    stands_at(needle, hay, at)
}

/// Whether `needle` occurs in `hay`.
pub fn chars_contain(hay: &Vec<char>, needle: &Vec<char>) -> (r: bool)
    ensures
        r == occurs_in(needle@, hay@),
{
    if needle.len() > hay.len() {
        return false;
    }
    let last = hay.len() - needle.len();
    let mut at: usize = 0;
    loop
        invariant
            at <= last,
            last + needle.len() == hay.len(),
            forall|i: int| 0 <= i < at ==> !stands(needle@, hay@, i),
        decreases last - at,
    {
        if stands_at(needle, hay, at) {
            return true;
        }
        if at == last {
            return false;
        }
        at += 1;
    }
}

/// Whether two strings differ at most in the case of their ASCII letters.
pub fn eq_ignore_case(a: &str, b: &str) -> (r: bool)
    ensures
        r == same_ignoring_case(a@, b@),
{
    let x = to_chars(a);
    let y = to_chars(b);
    if x.len() != y.len() {
        assert(fold(a@).len() != fold(b@).len());
        return false;
    }
    let mut i: usize = 0;
    while i < x.len()
        invariant
            i <= x.len(),
            x.len() == y.len(),
            x@ == a@,
            y@ == b@,
            forall|j: int| 0 <= j < i ==> lower(x@[j]) == lower(y@[j]),
        decreases x.len() - i,
    {
        if to_lower(x[i]) != to_lower(y[i]) {
            assert(fold(a@)[i as int] != fold(b@)[i as int]);
            return false;
        }
        i += 1;
    }
    assert(fold(a@) =~= fold(b@));
    true
}

} // verus!
