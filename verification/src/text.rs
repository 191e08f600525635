//! Character-level text operations on which the sandbox rules are built.
//!
//! Paths, host names and environment keys are compared as sequences of
//! Unicode scalar values, which is how `str::starts_with` and `==` on `str`
//! behave for well-formed UTF-8.

use vstd::prelude::*;
use vstd::string::StrSliceExecFns;
use vstd::string::StringExecFns;

verus! {

/// `s` with every leading `'/'` removed (what `trim_start_matches('/')` gives).
pub open spec fn trim_leading_slashes(s: Seq<char>) -> Seq<char>
    decreases s.len(),
{
    if s.len() > 0 && s[0] == '/' {
        trim_leading_slashes(s.drop_first())
    } else {
        s
    }
}

/// A relative path appended to a base path: a `'/'` goes between them unless
/// the base is empty or already ends with one.
pub open spec fn join_path(base: Seq<char>, rel: Seq<char>) -> Seq<char> {
    if base.len() > 0 && base.last() != '/' {
        base + seq!['/'] + rel
    } else {
        base + rel
    }
}

/// Whether `p` is a prefix of `s`, character by character.
pub fn has_prefix(s: &str, p: &str) -> (r: bool)
    ensures
        r == p@.is_prefix_of(s@),
{
    let n = p.unicode_len();
    let m = s.unicode_len();
    if n > m {
        return false;
    }
    let mut i: usize = 0;
    while i < n
        invariant
            n == p@.len(),
            m == s@.len(),
            n <= m,
            i <= n,
            forall|j: int| 0 <= j < i ==> p@[j] == s@[j],
        decreases n - i,
    {
        if p.get_char(i) != s.get_char(i) {
            assert(p@[i as int] != s@.subrange(0, n as int)[i as int]);
            return false;
        }
        i = i + 1;
    }
    assert(p@ =~= s@.subrange(0, n as int));
    true
}

/// Whether `a` and `b` hold the same characters.
pub fn same_text(a: &str, b: &str) -> (r: bool)
    ensures
        r == (a@ == b@),
{
    if a.unicode_len() != b.unicode_len() {
        return false;
    }
    let r = has_prefix(a, b);
    proof {
        if r {
            assert(a@ =~= b@);
        }
    }
    r
}

/// A new string holding the characters of `s` from index `from` on.
pub fn suffix_from(s: &str, from: usize) -> (r: String)
    requires
        from <= s@.len(),
    ensures
        r@ == s@.skip(from as int),
{
    let n = s.unicode_len();
    let tail = s.substring_char(from, n);
    String::from_str(tail)
}

/// A new string holding the first `to` characters of `s`.
pub fn prefix_until(s: &str, to: usize) -> (r: String)
    requires
        to <= s@.len(),
    ensures
        r@ == s@.take(to as int),
{
    let head = s.substring_char(0, to);
    String::from_str(head)
}

/// The number of `'/'` characters at the start of `s`.
fn leading_slash_count(s: &str) -> (k: usize)
    ensures
        k <= s@.len(),
        trim_leading_slashes(s@) == s@.skip(k as int),
{
    let n = s.unicode_len();
    let mut k: usize = 0;
    assert(s@.skip(0) =~= s@);
    while k < n && s.get_char(k) == '/'
        invariant
            n == s@.len(),
            k <= n,
            trim_leading_slashes(s@) == trim_leading_slashes(s@.skip(k as int)),
        decreases n - k,
    {
        assert(s@.skip(k as int).drop_first() =~= s@.skip(k + 1));
        k = k + 1;
    }
    k
}

/// `s` without its leading `'/'` characters.
pub fn trim_slashes(s: &str) -> (r: String)
    ensures
        r@ == trim_leading_slashes(s@),
{
    let k = leading_slash_count(s);
    suffix_from(s, k)
}

/// `rel` appended to `base` as `PathBuf::join` does for a relative path.
pub fn join_relative(base: &String, rel: &str) -> (r: String)
    ensures
        r@ == join_path(base@, rel@),
{
    let mut out = base.clone();
    let n = base.as_str().unicode_len();
    if n > 0 && base.as_str().get_char(n - 1) != '/' {
        let sep = "/";
        proof {
            reveal_strlit("/");
        }
        out.append(sep);
    }
    out.append(rel);
    out
}

/// The decimal digit character for `d` (below ten).
pub open spec fn digit_char(d: nat) -> char {
    if d == 0 { '0' }
    else if d == 1 { '1' }
    else if d == 2 { '2' }
    else if d == 3 { '3' }
    else if d == 4 { '4' }
    else if d == 5 { '5' }
    else if d == 6 { '6' }
    else if d == 7 { '7' }
    else if d == 8 { '8' }
    else { '9' }
}

/// The decimal text of `n`, without leading zeros (how `Display` writes an
/// unsigned integer).
pub open spec fn decimal_text(n: nat) -> Seq<char>
    decreases n,
{
    if n < 10 {
        seq![digit_char(n)]
    } else {
        decimal_text(n / 10).push(digit_char(n % 10))
    }
}

/// The one-character text of digit `d`.
fn digit_str(d: u64) -> (r: &'static str)
    requires
        d < 10,
    ensures
        r@ == seq![digit_char(d as nat)],
{
    proof {
        reveal_strlit("0");
        reveal_strlit("1");
        reveal_strlit("2");
        reveal_strlit("3");
        reveal_strlit("4");
        reveal_strlit("5");
        reveal_strlit("6");
        reveal_strlit("7");
        reveal_strlit("8");
        reveal_strlit("9");
    }
    let r = if d == 0 { "0" }
    else if d == 1 { "1" }
    else if d == 2 { "2" }
    else if d == 3 { "3" }
    else if d == 4 { "4" }
    else if d == 5 { "5" }
    else if d == 6 { "6" }
    else if d == 7 { "7" }
    else if d == 8 { "8" }
    else { "9" };
    assert(r@ =~= seq![digit_char(d as nat)]);
    r
}

/// The decimal text of `n`.
pub fn decimal(n: u64) -> (r: String)
    ensures
        r@ == decimal_text(n as nat),
    decreases n,
{
    if n < 10 {
        String::from_str(digit_str(n))
    } else {
        let mut r = decimal(n / 10);
        r.append(digit_str(n % 10));
        r
    }
}

} // verus!
