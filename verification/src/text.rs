//! Character-level helpers for the text protocol: decimal numbers, separators and the
//! conversion between `str`/`String` and vectors of characters.
use vstd::prelude::*;

verus! {

/// An ASCII decimal digit.
pub open spec fn is_digit(c: char) -> bool {
    '0' <= c && c <= '9'
}

/// The value of an ASCII decimal digit.
pub open spec fn digit_value(c: char) -> nat {
    (c as int - '0' as int) as nat
}

/// The ASCII digit of a value below ten.
pub open spec fn digit_char(d: nat) -> char {
    ((d + 48) as u8) as char
}

/// Every character of `s` is a decimal digit.
pub open spec fn all_digits(s: Seq<char>) -> bool {
    forall|i: int| 0 <= i < s.len() ==> #[trigger] is_digit(s[i])
}

/// The value of a string of decimal digits, most significant first.
pub open spec fn digits_value(s: Seq<char>) -> nat
    decreases s.len(),
{
    if s.len() == 0 {
        0
    } else {
        digits_value(s.drop_last()) * 10 + digit_value(s.last())
    }
}

/// What `usize::from_str` accepts: an optional `+`, then at least one decimal digit,
/// with a value that fits in a `usize`.
pub open spec fn spec_parse_usize(s: Seq<char>) -> Option<usize> {
    let d = if s.len() > 0 && s[0] == '+' {
        s.drop_first()
    } else {
        s
    };
    if d.len() > 0 && all_digits(d) && digits_value(d) <= usize::MAX {
        Some(digits_value(d) as usize)
    } else {
        None
    }
}

/// The decimal form of `n`, without leading zeros, as `usize::to_string` writes it.
pub open spec fn spec_usize_text(n: nat) -> Seq<char>
    decreases n,
{
    if n < 10 {
        seq![digit_char(n)]
    } else {
        spec_usize_text(n / 10).push(digit_char(n % 10))
    }
}

/// The position of the first `c` in `s`, or `s.len()` where there is none.
pub open spec fn first_index(s: Seq<char>, c: char) -> nat
    decreases s.len(),
{
    if s.len() == 0 {
        0
    } else if s[0] == c {
        0
    } else {
        1 + first_index(s.drop_first(), c)
    }
}

pub proof fn lemma_first_index(s: Seq<char>, c: char)
    ensures
        first_index(s, c) <= s.len(),
        forall|j: int| 0 <= j < first_index(s, c) ==> s[j] != c,
        first_index(s, c) < s.len() ==> s[first_index(s, c) as int] == c,
    decreases s.len(),
{
    if s.len() > 0 && s[0] != c {
        lemma_first_index(s.drop_first(), c);
        assert forall|j: int| 0 <= j < first_index(s, c) implies s[j] != c by {
            if j > 0 {
                assert(s[j] == s.drop_first()[j - 1]);
            }
        }
    }
}

/// `k` is the first position of `c` in `s` (or `s.len()`) exactly when it meets the
/// characterization of `lemma_first_index`.
pub proof fn lemma_first_index_unique(s: Seq<char>, c: char, k: nat)
    requires
        k <= s.len(),
        forall|j: int| 0 <= j < k ==> s[j] != c,
        k < s.len() ==> s[k as int] == c,
    ensures
        first_index(s, c) == k,
{
    lemma_first_index(s, c);
    let f = first_index(s, c);
    if f < k {
        assert(s[f as int] != c);
    } else if k < f {
        assert(s[k as int] != c);
    }
}

proof fn lemma_digit_char(d: nat)
    requires
        d < 10,
    ensures
        is_digit(digit_char(d)),
        digit_value(digit_char(d)) == d,
{
    assert(((d + 48) as u8) as int == d + 48);
}

/// The decimal form of a number is a nonempty string of digits whose value is the number.
pub proof fn lemma_usize_text(n: nat)
    ensures
        spec_usize_text(n).len() > 0,
        all_digits(spec_usize_text(n)),
        digits_value(spec_usize_text(n)) == n,
    decreases n,
{
    if n < 10 {
        lemma_digit_char(n);
        assert(seq![digit_char(n)].drop_last() =~= Seq::<char>::empty());
        assert(digits_value(Seq::<char>::empty()) == 0);
        assert(seq![digit_char(n)].last() == digit_char(n));
    } else {
        lemma_usize_text(n / 10);
        lemma_digit_char(n % 10);
        let t = spec_usize_text(n / 10);
        assert(t.push(digit_char(n % 10)).drop_last() =~= t);
        assert(t.push(digit_char(n % 10)).last() == digit_char(n % 10));
        assert(n == (n / 10) * 10 + n % 10);
        assert forall|i: int| 0 <= i < t.len() + 1 implies #[trigger] is_digit(
            t.push(digit_char(n % 10))[i],
        ) by {
            if i < t.len() {
                assert(is_digit(t[i]));
            }
        }
    }
}

/// Parsing the decimal form of a `usize` gives the number back.
pub proof fn lemma_parse_usize_text(n: usize)
    ensures
        spec_parse_usize(spec_usize_text(n as nat)) == Some(n),
{
    lemma_usize_text(n as nat);
    let t = spec_usize_text(n as nat);
    assert(is_digit(t[0]));
}

/// A string of digits holds none of the non-digit characters.
pub proof fn lemma_digits_lack(s: Seq<char>, c: char)
    requires
        all_digits(s),
        !is_digit(c),
    ensures
        forall|j: int| 0 <= j < s.len() ==> s[j] != c,
{
    assert forall|j: int| 0 <= j < s.len() implies s[j] != c by {
        assert(is_digit(s[j]));
    }
}

/// The value of a digit string is at least the value of any of its prefixes.
proof fn lemma_digits_value_prefix(s: Seq<char>, k: int)
    requires
        0 <= k <= s.len(),
        all_digits(s),
    ensures
        digits_value(s.take(k)) <= digits_value(s),
    decreases s.len() - k,
{
    if k < s.len() {
        lemma_digits_value_prefix(s, k + 1);
        assert(s.take(k + 1).drop_last() =~= s.take(k));
        assert(s.take(k + 1).last() == s[k]);
    } else {
        assert(s.take(k) =~= s);
    }
}

/// Parses `s[lo..hi]` as `usize::from_str` does.
pub fn parse_usize(s: &Vec<char>, lo: usize, hi: usize) -> (res: Option<usize>)
    requires
        lo <= hi <= s@.len(),
    ensures
        res == spec_parse_usize(s@.subrange(lo as int, hi as int)),
{
    let ghost t = s@.subrange(lo as int, hi as int);
    let mut i = lo;
    if i < hi && s[i] == '+' {
        i = i + 1;
    }
    let ghost d = s@.subrange(i as int, hi as int);
    assert(d == if t.len() > 0 && t[0] == '+' {
        t.drop_first()
    } else {
        t
    });
    if i == hi {
        return None;
    }
    let start = i;
    let mut acc: usize = 0;
    while i < hi
        invariant
            lo <= start <= i <= hi <= s@.len(),
            start < hi,
            d == s@.subrange(start as int, hi as int),
            t == s@.subrange(lo as int, hi as int),
            d == if t.len() > 0 && t[0] == '+' {
                t.drop_first()
            } else {
                t
            },
            all_digits(s@.subrange(start as int, i as int)),
            acc == digits_value(s@.subrange(start as int, i as int)),
        decreases hi - i,
    {
        let c = s[i];
        let ghost prefix = s@.subrange(start as int, i as int);
        let ghost next = s@.subrange(start as int, i + 1);
        assert(next.drop_last() =~= prefix);
        assert(d.take(i - start) =~= prefix);
        assert(d.take(i + 1 - start) =~= next);
        if c < '0' || c > '9' {
            assert(!is_digit(d[i - start]));
            return None;
        }
        let digit = (c as u32 - '0' as u32) as usize;
        assert(digit == digit_value(c));
        let times_ten = acc.checked_mul(10);
        let sum = match times_ten {
            Some(m) => m.checked_add(digit),
            None => None,
        };
        assert forall|j: int| 0 <= j < next.len() implies #[trigger] is_digit(next[j]) by {
            if j < prefix.len() {
                assert(next[j] == prefix[j]);
            }
        }
        match sum {
            Some(v) => {
                acc = v;
            },
            None => {
                proof {
                    if all_digits(d) {
                        lemma_digits_value_prefix(d, i + 1 - start);
                    }
                }
                return None;
            },
        }
        i = i + 1;
    }
    assert(s@.subrange(start as int, i as int) =~= d);
    Some(acc)
}

/// The decimal form of `n`.
pub fn usize_text(n: usize) -> (res: Vec<char>)
    ensures
        res@ == spec_usize_text(n as nat),
    decreases n,
{
    if n < 10 {
        let c = ((n as u8) + 48u8) as char;
        vec![c]
    } else {
        let mut res = usize_text(n / 10);
        let c = (((n % 10) as u8) + 48u8) as char;
        res.push(c);
        res
    }
}

/// The first position `k` in `lo..hi` with `s[k] == c`, or `hi` where there is none.
pub fn find_char(s: &Vec<char>, lo: usize, hi: usize, c: char) -> (k: usize)
    requires
        lo <= hi <= s@.len(),
    ensures
        lo <= k <= hi,
        k - lo == first_index(s@.subrange(lo as int, hi as int), c),
{
    let mut k = lo;
    while k < hi && s[k] != c
        invariant
            lo <= k <= hi <= s@.len(),
            forall|j: int| lo <= j < k ==> s@[j] != c,
        decreases hi - k,
    {
        k = k + 1;
    }
    proof {
        let t = s@.subrange(lo as int, hi as int);
        assert forall|j: int| 0 <= j < k - lo implies t[j] != c by {
            assert(t[j] == s@[lo + j]);
        }
        lemma_first_index_unique(t, c, (k - lo) as nat);
    }
    k
}

/// The characters of `s`, in order.
pub fn chars_of(s: &str) -> (res: Vec<char>)
    ensures
        res@ == s@,
{
    let mut res: Vec<char> = Vec::new();
    for c in it: s.chars()
        invariant
            res@ == it.seq().take(it.index() as int),
    {
        res.push(c);
    }
    res
}

/// Appends `c` to `s` (`String::push`).
#[verifier::external_body]
fn push_char(s: &mut String, c: char)
    ensures
        final(s)@ == old(s)@.push(c),
{
    s.push(c);
}

/// A `String` holding the characters `chars[lo..hi]`.
pub fn string_of(chars: &Vec<char>, lo: usize, hi: usize) -> (res: String)
    requires
        lo <= hi <= chars@.len(),
    ensures
        res@ == chars@.subrange(lo as int, hi as int),
{
    let mut res = String::new();
    let mut i = lo;
    while i < hi
        invariant
            lo <= i <= hi <= chars@.len(),
            res@ == chars@.subrange(lo as int, i as int),
        decreases hi - i,
    {
        push_char(&mut res, chars[i]);
        assert(chars@.subrange(lo as int, i + 1) =~= chars@.subrange(lo as int, i as int).push(
            chars@[i as int],
        ));
        i = i + 1;
    }
    res
}

/// Appends the characters of `src` to `dst`.
pub fn extend_chars(dst: &mut Vec<char>, src: &Vec<char>)
    ensures
        final(dst)@ == old(dst)@ + src@,
{
    let mut i: usize = 0;
    while i < src.len()
        invariant
            i <= src@.len(),
            dst@ == old(dst)@ + src@.take(i as int),
        decreases src@.len() - i,
    {
        dst.push(src[i]);
        assert(src@.take(i + 1) =~= src@.take(i as int).push(src@[i as int]));
        i = i + 1;
    }
    assert(src@.take(i as int) =~= src@);
}

} // verus!
