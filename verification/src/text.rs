//! Small verified string operations.
use vstd::prelude::*;
use vstd::string::StringExecFns;
use vstd::utf8::encode_utf8;

verus! {

/// Calls `String::push`, which std documents as appending the given `char`
/// to the end of the string. Claimed: the new text is the old text followed
/// by `c`.
#[verifier::external_body]
pub(crate) fn push_char(s: &mut String, c: char)
    ensures
        final(s)@ == old(s)@.push(c),
{
    s.push(c)
}

/// The text with every occurrence of `c` removed.
pub open spec fn without_char(s: Seq<char>, c: char) -> Seq<char> {
    s.filter(other_than(c))
}

/// The predicate "is not `c`".
pub open spec fn other_than(c: char) -> spec_fn(char) -> bool {
    |x: char| x != c
}

/// `s` with every `c` removed, as `str::replace(c, "")` gives it.
pub fn remove_char(s: &str, c: char) -> (r: String)
    ensures
        r@ == without_char(s@, c),
{
    let n = s.unicode_len();
    let mut r = String::new();
    let ghost pred = other_than(c);
    let mut i: usize = 0;
    while i < n
        invariant
            n == s@.len(),
            i <= n,
            pred == other_than(c),
            r@ == s@.take(i as int).filter(pred),
        decreases n - i,
    {
        let ch = s.get_char(i);
        proof {
            s@.take(i as int).lemma_filter_push(ch, pred);
            assert(s@.take(i as int).push(ch) =~= s@.take(i + 1));
        }
        if ch != c {
            push_char(&mut r, ch);
        }
        i = i + 1;
    }
    proof {
        assert(s@.take(n as int) =~= s@);
    }
    r
}

/// Whether `a` and `b` hold the same text.
pub fn same_text(a: &str, b: &str) -> (r: bool)
    ensures
        r == (a@ == b@),
{
    let x = a.to_owned();
    let y = b.to_owned();
    x == y
}

/// `a` followed by `b`.
pub fn concat_text(a: &str, b: &str) -> (r: String)
    ensures
        r@ == a@ + b@,
{
    let mut r = a.to_owned();
    r.append(b);
    r
}

/// Whether the UTF-8 encoding of `s` is shorter than `n` bytes.
pub fn utf8_shorter_than(s: &str, n: usize) -> (r: bool)
    ensures
        r == (encode_utf8(s@).len() < n),
{
    let bytes = s.as_bytes();
    bytes.len() < n
}

/// The decimal digit for `d` (0 to 9).
pub open spec fn digit_char(d: nat) -> char {
    ((d + 48) as u8) as char
}

/// The decimal digits of `n`, most significant first, without leading
/// zeros (a single `0` for zero).
pub open spec fn decimal_digits(n: nat) -> Seq<char>
    decreases n,
{
    if n < 10 {
        seq![digit_char(n)]
    } else {
        decimal_digits(n / 10).push(digit_char(n % 10))
    }
}

/// The decimal text of an integer, with a leading `-` when it is negative.
pub open spec fn decimal_text(n: int) -> Seq<char> {
    if n < 0 {
        seq!['-'] + decimal_digits((-n) as nat)
    } else {
        decimal_digits(n as nat)
    }
}

fn push_digits(s: &mut String, m: u64)
    ensures
        final(s)@ == old(s)@ + decimal_digits(m as nat),
    decreases m,
{
    if m >= 10 {
        push_digits(s, m / 10);
    }
    let d: u8 = (m % 10) as u8;
    push_char(s, (d + 48) as char);
    proof {
        assert(decimal_digits(m as nat) =~= if m < 10 {
            seq![digit_char(m as nat)]
        } else {
            decimal_digits((m / 10) as nat).push(digit_char((m % 10) as nat))
        });
    }
}

/// The decimal text of `n`, as `format!("{}", n)` writes an integer.
pub fn decimal_string(n: i64) -> (r: String)
    ensures
        r@ == decimal_text(n as int),
{
    let mut s = String::new();
    if n < 0 {
        push_char(&mut s, '-');
        let m: u64 = if n == i64::MIN {
            9_223_372_036_854_775_808u64
        } else {
            (-n) as u64
        };
        push_digits(&mut s, m);
    } else {
        push_digits(&mut s, n as u64);
    }
    s
}

/// Removing a character leaves none of it, keeps every other character in
/// order, and removing it again changes nothing.
pub proof fn lemma_without_char(s: Seq<char>, c: char)
    ensures
        !without_char(s, c).contains(c),
        without_char(s, c).len() <= s.len(),
        without_char(without_char(s, c), c) == without_char(s, c),
        !s.contains(c) ==> without_char(s, c) == s,
    decreases s.len(),
{
    reveal(Seq::filter);
    if s.len() > 0 {
        lemma_without_char(s.drop_last(), c);
        let rest = without_char(s.drop_last(), c);
        let p = other_than(c);
        assert(s.drop_last().push(s.last()) =~= s);
        s.drop_last().lemma_filter_push(s.last(), p);
        if s.last() != c {
            rest.lemma_filter_push(s.last(), p);
            assert forall|i: int| 0 <= i < rest.push(s.last()).len() implies rest.push(
                s.last(),
            )[i] != c by {
                if i < rest.len() {
                    assert(!rest.contains(c));
                    assert(rest[i] != c);
                }
            }
            if !s.contains(c) {
                assert(!s.drop_last().contains(c)) by {
                    if s.drop_last().contains(c) {
                        let k = choose|k: int| 0 <= k < s.drop_last().len() && s.drop_last()[k] == c;
                        assert(s[k] == c);
                    }
                }
            }
        } else {
            assert(s.contains(c)) by {
                assert(s[s.len() - 1] == c);
            }
        }
    } else {
        assert(without_char(s, c) =~= s);
    }
}

} // verus!
