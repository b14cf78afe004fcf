//! Text comparison and search over `&str`, specified on the character view.

use vstd::prelude::*;
use vstd::string::*;
use vstd::utf8::*;

verus! {

/// `needle` stands in `hay` starting at character offset `at`.
pub open spec fn occurs_at(hay: Seq<char>, needle: Seq<char>, at: int) -> bool {
    &&& 0 <= at
    &&& at + needle.len() <= hay.len()
    &&& hay.subrange(at, at + needle.len()) == needle
}

/// `needle` stands somewhere in `hay` as a contiguous run of characters.
pub open spec fn contains(hay: Seq<char>, needle: Seq<char>) -> bool {
    exists|at: int| occurs_at(hay, needle, at)
}

/// A text that lacks one of the characters of `needle` does not contain it.
pub proof fn lemma_missing_character(hay: Seq<char>, needle: Seq<char>, k: int)
    requires
        0 <= k < needle.len(),
        forall|i: int| 0 <= i < hay.len() ==> hay[i] != needle[k],
    ensures
        !contains(hay, needle),
{
    assert forall|at: int| !occurs_at(hay, needle, at) by {
        if occurs_at(hay, needle, at) {
            assert(hay.subrange(at, at + needle.len())[k] == hay[at + k]);
        }
    }
}

/// Two texts with the same UTF-8 encoding are the same text.
pub proof fn lemma_encoding_is_injective(a: Seq<char>, b: Seq<char>)
    requires
        encode_utf8(a) == encode_utf8(b),
    ensures
        a == b,
{
    encode_utf8_decode_utf8(a);
    encode_utf8_decode_utf8(b);
}

/// Whether two string slices hold the same text.
pub fn str_eq(a: &str, b: &str) -> (r: bool)
    ensures
        r == (a@ == b@),
{
    let x = a.as_bytes();
    let y = b.as_bytes();
    if x.len() != y.len() {
        return false;
    }
    let mut i: usize = 0;
    while i < x.len()
        invariant
            x@.len() == y@.len(),
            i <= x@.len(),
            x@.take(i as int) == y@.take(i as int),
            x@ == a.spec_bytes(),
            y@ == b.spec_bytes(),
        decreases x@.len() - i,
    {
        if x[i] != y[i] {
            assert(x@[i as int] != y@[i as int]);
            return false;
        }
        assert(x@.take(i + 1) == x@.take(i as int).push(x@[i as int]));
        assert(y@.take(i + 1) == y@.take(i as int).push(y@[i as int]));
        i += 1;
    }
    proof {
        assert(x@ == x@.take(i as int));
        assert(y@ == y@.take(i as int));
        lemma_encoding_is_injective(a@, b@);
    }
    true
}

/// The characters of `s`, in order.
pub fn chars_of(s: &str) -> (v: Vec<char>)
    ensures
        v@ == s@,
{
    let mut v: Vec<char> = Vec::new();
    for c in it: s.chars()
        invariant
            v@ == it.seq().take(it.index() as int),
    {
        v.push(c);
    }
    v
}

/// Whether `needle` stands in `hay` at offset `at`, by comparing character by character.
fn matches_at(hay: &Vec<char>, needle: &Vec<char>, at: usize) -> (r: bool)
    requires
        at + needle@.len() <= hay@.len(),
    ensures
        r == occurs_at(hay@, needle@, at as int),
{
    let total = hay.len();
    let mut j: usize = 0;
    while j < needle.len()
        invariant
            total == hay@.len(),
            at + needle@.len() <= hay@.len(),
            j <= needle@.len(),
            forall|k: int| 0 <= k < j ==> hay@[at + k] == needle@[k],
        decreases needle@.len() - j,
    {
        if hay[at + j] != needle[j] {
            assert(hay@.subrange(at as int, at + needle@.len())[j as int] != needle@[j as int]);
            return false;
        }
        j += 1;
    }
    assert(hay@.subrange(at as int, at + needle@.len()) =~= needle@);
    true
}

/// Whether `needle` stands somewhere in `hay`; the empty text stands in every text.
pub fn str_contains(hay: &str, needle: &str) -> (r: bool)
    ensures
        r == contains(hay@, needle@),
{
    let h = chars_of(hay);
    let n = chars_of(needle);
    if n.len() > h.len() {
        return false;
    }
    let last: usize = h.len() - n.len();
    let mut at: usize = 0;
    loop
        invariant
            last == h@.len() - n@.len(),
            at <= last,
            h@ == hay@,
            n@ == needle@,
            forall|k: int| 0 <= k < at ==> !occurs_at(h@, n@, k),
        decreases last - at,
    {
        if matches_at(&h, &n, at) {
            return true;
        }
        if at == last {
            return false;
        }
        at += 1;
    }
}

/// The decimal digit of `d`, for `d` from 0 to 9.
pub open spec fn digit(d: int) -> char {
    "0123456789"@[d]
}

/// The decimal digits of `n`, most significant first, without leading zeros.
pub open spec fn natural_digits(n: nat) -> Seq<char>
    decreases n,
{
    if n < 10 {
        seq![digit(n as int)]
    } else {
        natural_digits(n / 10).push(digit((n % 10) as int))
    }
}

/// The decimal form of `n`: a minus sign where `n` is negative, then the
/// digits of its magnitude.
pub open spec fn decimal_of(n: int) -> Seq<char> {
    if n < 0 {
        seq!['-'] + natural_digits((-n) as nat)
    } else {
        natural_digits(n as nat)
    }
}

fn digit_text(d: u64) -> (text: &'static str)
    requires
        d < 10,
    ensures
        text@ == seq![digit(d as int)],
{
    let digits: &'static str = "0123456789";
    proof {
        reveal_strlit("0123456789");
    }
    let text = digits.substring_ascii(d as usize, d as usize + 1);
    assert(text@ =~= seq![digit(d as int)]);
    text
}

fn natural(n: u64) -> (text: String)
    ensures
        text@ == natural_digits(n as nat),
    decreases n,
{
    if n < 10 {
        String::from_str(digit_text(n))
    } else {
        let mut text = natural(n / 10);
        text.append(digit_text(n % 10));
        assert(text@ =~= natural_digits(n as nat));
        text
    }
}

/// The decimal form of `n`.
pub fn decimal(n: i64) -> (text: String)
    ensures
        text@ == decimal_of(n as int),
{
    if n < 0 {
        let magnitude: u64 = (-(n + 1)) as u64 + 1;
        let mut text = String::from_str("-");
        proof {
            reveal_strlit("-");
            assert("-"@ =~= seq!['-']);
        }
        let digits = natural(magnitude);
        text.append(digits.as_str());
        text
    } else {
        natural(n as u64)
    }
}

/// `first`, then `second`, as one text.
pub fn join2(first: &str, second: &str) -> (text: String)
    ensures
        text@ == first@ + second@,
{
    let mut text = String::from_str(first);
    text.append(second);
    text
}

/// `first`, then `second`, then `third`, as one text.
pub fn join3(first: &str, second: &str, third: &str) -> (text: String)
    ensures
        text@ == first@ + second@ + third@,
{
    let mut text = String::from_str(first);
    text.append(second);
    text.append(third);
    text
}

} // verus!
