//! Small verified helpers on characters and strings: collecting the
//! characters of a string, substring search, prefix tests, and printing
//! integers in decimal.

use vstd::prelude::*;
use vstd::string::StrSliceExecFns;
use vstd::string::StringExecFns;

verus! {

/// The characters of `s`, as a vector.
pub fn chars_of(s: &str) -> (v: Vec<char>)
    ensures
        v@ == s@,
{
    let n: usize = s.unicode_len();
    let mut v: Vec<char> = Vec::new();
    let mut i: usize = 0;
    while i < n
        invariant
            n == s@.len(),
            0 <= i <= n,
            v@ =~= s@.take(i as int),
        decreases n - i,
    {
        v.push(s.get_char(i));
        proof {
            assert(v@ =~= s@.take(i + 1));
        }
        i = i + 1;
    }
    proof {
        assert(v@ =~= s@);
    }
    v
}

/// Whether `needle` occurs in `hay` as a contiguous run.
pub open spec fn seq_contains_sub(hay: Seq<char>, needle: Seq<char>) -> bool {
    exists|i: int|
        0 <= i && i + needle.len() <= hay.len() && #[trigger] hay.subrange(i, i + needle.len())
            == needle
}

/// Substring search over character vectors.
pub fn contains_chars(hay: &Vec<char>, needle: &Vec<char>) -> (r: bool)
    ensures
        r == seq_contains_sub(hay@, needle@),
{
    let hn: usize = hay.len();
    let nn: usize = needle.len();
    if nn > hn {
        return false;
    }
    let mut i: usize = 0;
    while i <= hn - nn
        invariant
            hn == hay@.len(),
            nn == needle@.len(),
            nn <= hn,
            0 <= i <= hn - nn + 1,
            forall|k: int|
                0 <= k < i ==> #[trigger] hay@.subrange(k, k + needle@.len()) != needle@,
        decreases hn - nn - i + 1,
    {
        let mut j: usize = 0;
        while j < nn
            invariant
                hn == hay@.len(),
                nn == needle@.len(),
                nn <= hn,
                0 <= i <= hn - nn,
                0 <= j <= nn,
                forall|m: int| 0 <= m < j ==> hay@[i + m] == needle@[m],
            ensures
                0 <= j <= nn,
                j < nn ==> hay@[i + j] != needle@[j as int],
                forall|m: int| 0 <= m < j ==> hay@[i + m] == needle@[m],
            decreases nn - j,
        {
            if hay[i + j] != needle[j] {
                break;
            }
            j = j + 1;
        }
        if j == nn {
            proof {
                assert(hay@.subrange(i as int, i + needle@.len()) =~= needle@);
            }
            return true;
        }
        proof {
            assert(hay@.subrange(i as int, i + needle@.len())[j as int] != needle@[j as int]);
        }
        i = i + 1;
    }
    proof {
        assert(forall|k: int|
            0 <= k && k + needle@.len() <= hay@.len() ==> #[trigger] hay@.subrange(
                k,
                k + needle@.len(),
            ) != needle@);
    }
    false
}

/// Whether the characters of `p` open the characters of `s`.
pub open spec fn is_char_prefix(p: Seq<char>, s: Seq<char>) -> bool {
    p.len() <= s.len() && s.subrange(0, p.len() as int) == p
}

/// Prefix test over character vectors.
pub fn starts_with_chars(s: &Vec<char>, p: &Vec<char>) -> (r: bool)
    ensures
        r == is_char_prefix(p@, s@),
{
    let pn: usize = p.len();
    if pn > s.len() {
        return false;
    }
    let mut j: usize = 0;
    while j < pn
        invariant
            pn == p@.len(),
            pn <= s@.len(),
            0 <= j <= pn,
            forall|m: int| 0 <= m < j ==> s@[m] == p@[m],
        decreases pn - j,
    {
        if s[j] != p[j] {
            proof {
                assert(s@.subrange(0, p@.len() as int)[j as int] != p@[j as int]);
            }
            return false;
        }
        j = j + 1;
    }
    proof {
        assert(s@.subrange(0, p@.len() as int) =~= p@);
    }
    true
}

/// The decimal digit character for `d` (which must be below ten).
pub open spec fn spec_digit(d: u64) -> char {
    if d == 0 {
        '0'
    } else if d == 1 {
        '1'
    } else if d == 2 {
        '2'
    } else if d == 3 {
        '3'
    } else if d == 4 {
        '4'
    } else if d == 5 {
        '5'
    } else if d == 6 {
        '6'
    } else if d == 7 {
        '7'
    } else if d == 8 {
        '8'
    } else {
        '9'
    }
}

/// The decimal rendering of `n`, most significant digit first.
pub open spec fn spec_u64_str(n: u64) -> Seq<char>
    decreases n,
{
    if n < 10 {
        seq![spec_digit(n)]
    } else {
        spec_u64_str(n / 10).push(spec_digit(n % 10))
    }
}

/// The one-character string for a decimal digit.
fn digit_str(d: u64) -> (r: &'static str)
    requires
        d < 10,
    ensures
        r@ == seq![spec_digit(d)],
{
    proof {
        reveal_strlit("0");
        reveal_strlit("1");
        reveal_strlit("2");
        reveal_strlit("3");
        reveal_strlit("4");
        reveal_strlit("5");
        reveal_strlit("6");
        reveal_strlit("7");
        reveal_strlit("8");
        reveal_strlit("9");
    }
    let r = if d == 0 {
        "0"
    } else if d == 1 {
        "1"
    } else if d == 2 {
        "2"
    } else if d == 3 {
        "3"
    } else if d == 4 {
        "4"
    } else if d == 5 {
        "5"
    } else if d == 6 {
        "6"
    } else if d == 7 {
        "7"
    } else if d == 8 {
        "8"
    } else {
        "9"
    };
    proof {
        assert(r@ =~= seq![spec_digit(d)]);
    }
    r
}

/// The values of a sequence of strings.
pub open spec fn strings_view(s: Seq<String>) -> Seq<Seq<char>>
    decreases s.len(),
{
    if s.len() == 0 {
        Seq::empty()
    } else {
        strings_view(s.drop_last()).push(s.last()@)
    }
}

/// `strings_view` maps the view over the sequence, element by element.
pub broadcast proof fn lemma_strings_view(s: Seq<String>)
    ensures
        (#[trigger] strings_view(s)).len() == s.len(),
        forall|i: int| 0 <= i < s.len() ==> strings_view(s)[i] == s[i]@,
    decreases s.len(),
{
    if s.len() > 0 {
        lemma_strings_view(s.drop_last());
        assert forall|i: int| 0 <= i < s.len() implies strings_view(s)[i] == s[i]@ by {
            if i < s.len() - 1 {
                assert(s.drop_last()[i] == s[i]);
            } else {
                assert(s.last() == s[i]);
            }
        }
    }
}

/// String equality by characters.
pub fn str_eq(a: &str, b: &str) -> (r: bool)
    ensures
        r == (a@ == b@),
{
    let sa = String::from_str(a);
    let sb = String::from_str(b);
    sa == sb
}

/// Prints `n` in decimal.
pub fn u64_to_string(n: u64) -> (r: String)
    ensures
        r@ == spec_u64_str(n),
    decreases n,
{
    if n < 10 {
        String::from_str(digit_str(n))
    } else {
        let mut r = u64_to_string(n / 10);
        r.append(digit_str(n % 10));
        proof {
            assert(r@ =~= spec_u64_str(n));
        }
        r
    }
}

} // verus!
