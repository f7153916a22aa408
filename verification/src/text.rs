//! Character-level string helpers the name and key translations are built on.

use vstd::prelude::*;
use vstd::string::*;

verus! {

/// `a` and `b` hold the same characters.
pub fn str_eq(a: &str, b: &str) -> (r: bool)
    ensures
        r == (a@ == b@),
{
    let n = a.unicode_len();
    if n != b.unicode_len() {
        return false;
    }
    let mut i: usize = 0;
    while i < n
        invariant
            n == a@.len(),
            n == b@.len(),
            i <= n,
            forall|j: int| 0 <= j < i ==> a@[j] == b@[j],
        decreases n - i,
    {
        if a.get_char(i) != b.get_char(i) {
            return false;
        }
        i += 1;
    }
    assert(a@ =~= b@);
    true
}

} // verus!

verus! {

/// The characters `String::from_utf8_lossy` decodes from `bytes`.
pub uninterp spec fn utf8_lossy(bytes: Seq<u8>) -> Seq<char>;

/// `String::from_utf8_lossy(bytes).into_owned()`. Its result is named
/// [`utf8_lossy`] of the bytes; std documents that valid UTF-8 comes back
/// unchanged, which is stated. What replaces invalid sequences is not stated.
#[verifier::external_body]
pub(crate) fn string_from_utf8_lossy(bytes: &[u8]) -> (s: String)
    ensures
        s@ == utf8_lossy(bytes@),
        vstd::utf8::valid_utf8(bytes@) ==> s@ == vstd::utf8::decode_utf8(bytes@),
{
    String::from_utf8_lossy(bytes).into_owned()
}

/// The characters `String::from_utf8_lossy` gives for `bytes`: valid UTF-8
/// decodes to its own characters; for other input the replacement is
/// [`utf8_lossy`].
pub open spec fn lossy_chars(bytes: Seq<u8>) -> Seq<char> {
    if vstd::utf8::valid_utf8(bytes) {
        vstd::utf8::decode_utf8(bytes)
    } else {
        utf8_lossy(bytes)
    }
}

/// `s` without the suffix `suf`, if it ends with it.
pub open spec fn spec_strip_suffix(s: Seq<char>, suf: Seq<char>) -> Option<Seq<char>> {
    if suf.len() <= s.len() && s.skip(s.len() - suf.len()) == suf {
        Some(s.take(s.len() - suf.len()))
    } else {
        None
    }
}

/// `s` without the prefix `pre`, if it starts with it.
pub open spec fn spec_strip_prefix(s: Seq<char>, pre: Seq<char>) -> Option<Seq<char>> {
    if pre.len() <= s.len() && s.take(pre.len() as int) == pre {
        Some(s.skip(pre.len() as int))
    } else {
        None
    }
}

/// The first index at or after `i` where `s` holds `c`.
pub open spec fn find_char_from(s: Seq<char>, c: char, i: int) -> Option<int>
    decreases s.len() - i,
{
    if i < 0 || i >= s.len() {
        None
    } else if s[i] == c {
        Some(i)
    } else {
        find_char_from(s, c, i + 1)
    }
}

/// The first `c` at or after `k` is at `m` when `s[k..m]` holds none.
pub proof fn lemma_find_char_at(s: Seq<char>, c: char, k: int, m: int)
    requires
        0 <= k <= m < s.len(),
        s[m] == c,
        forall|j: int| k <= j < m ==> s[j] != c,
    ensures
        find_char_from(s, c, k) == Some(m),
    decreases m - k,
{
    if k < m {
        lemma_find_char_at(s, c, k + 1, m);
    }
}

/// `s` split around the first `c`.
pub open spec fn spec_split_once(s: Seq<char>, c: char) -> Option<(Seq<char>, Seq<char>)> {
    match find_char_from(s, c, 0) {
        Some(i) => Some((s.take(i), s.skip(i + 1))),
        None => None,
    }
}

/// `s.strip_suffix(suf)`.
pub fn strip_suffix<'a>(s: &'a str, suf: &str) -> (r: Option<&'a str>)
    ensures
        r matches Some(t) ==> spec_strip_suffix(s@, suf@) == Some(t@),
        r is None ==> spec_strip_suffix(s@, suf@) is None,
{
    let n = s.unicode_len();
    let m = suf.unicode_len();
    if m > n {
        return None;
    }
    let mut j: usize = 0;
    while j < m
        invariant
            n == s@.len(),
            m == suf@.len(),
            m <= n,
            j <= m,
            forall|k: int| 0 <= k < j ==> s@[n - m + k] == suf@[k],
        decreases m - j,
    {
        if s.get_char(n - m + j) != suf.get_char(j) {
            assert(s@.skip(n - m)[j as int] != suf@[j as int]);
            return None;
        }
        j += 1;
    }
    assert(s@.skip(n - m) =~= suf@);
    Some(s.substring_char(0, n - m))
}

/// `s.strip_prefix(pre)`.
pub fn strip_prefix<'a>(s: &'a str, pre: &str) -> (r: Option<&'a str>)
    ensures
        r matches Some(t) ==> spec_strip_prefix(s@, pre@) == Some(t@),
        r is None ==> spec_strip_prefix(s@, pre@) is None,
{
    let n = s.unicode_len();
    let m = pre.unicode_len();
    if m > n {
        return None;
    }
    let mut j: usize = 0;
    while j < m
        invariant
            n == s@.len(),
            m == pre@.len(),
            m <= n,
            j <= m,
            forall|k: int| 0 <= k < j ==> s@[k] == pre@[k],
        decreases m - j,
    {
        if s.get_char(j) != pre.get_char(j) {
            assert(s@.take(m as int)[j as int] != pre@[j as int]);
            return None;
        }
        j += 1;
    }
    assert(s@.take(m as int) =~= pre@);
    Some(s.substring_char(m, n))
}

/// `s.split_once(c)`.
pub fn split_once<'a>(s: &'a str, c: char) -> (r: Option<(&'a str, &'a str)>)
    ensures
        r matches Some((a, b)) ==> spec_split_once(s@, c) == Some((a@, b@)),
        r is None ==> spec_split_once(s@, c) is None,
{
    let n = s.unicode_len();
    let mut i: usize = 0;
    while i < n
        invariant
            n == s@.len(),
            i <= n,
            find_char_from(s@, c, i as int) == find_char_from(s@, c, 0),
        decreases n - i,
    {
        if s.get_char(i) == c {
            return Some((s.substring_char(0, i), s.substring_char(i + 1, n)));
        }
        i += 1;
    }
    None
}

} // verus!

verus! {

/// The character of the decimal digit `d` (`d < 10`).
pub open spec fn digit_char(d: nat) -> char {
    (d + 48) as char
}

/// The decimal representation of `n`, most significant digit first, with no
/// leading zeros (`0` is `"0"`).
pub open spec fn decimal(n: nat) -> Seq<char>
    decreases n,
{
    if n < 10 {
        seq![digit_char(n)]
    } else {
        decimal(n / 10).push(digit_char(n % 10))
    }
}

/// The one-character string of the digit `d`.
fn digit_str(d: usize) -> (s: &'static str)
    requires
        d < 10,
    ensures
        s@ == seq![digit_char(d as nat)],
{
    proof {
        reveal_strlit("0");
        reveal_strlit("1");
        reveal_strlit("2");
        reveal_strlit("3");
        reveal_strlit("4");
        reveal_strlit("5");
        reveal_strlit("6");
        reveal_strlit("7");
        reveal_strlit("8");
        reveal_strlit("9");
    }
    let s = if d == 0 {
        "0"
    } else if d == 1 {
        "1"
    } else if d == 2 {
        "2"
    } else if d == 3 {
        "3"
    } else if d == 4 {
        "4"
    } else if d == 5 {
        "5"
    } else if d == 6 {
        "6"
    } else if d == 7 {
        "7"
    } else if d == 8 {
        "8"
    } else {
        "9"
    };
    assert(s@ =~= seq![digit_char(d as nat)]);
    s
}

/// Append the decimal representation of `n` to `s` (what `format!("{n}")`
/// writes for an unsigned integer).
pub fn push_decimal(s: &mut String, n: usize)
    ensures
        final(s)@ == old(s)@ + decimal(n as nat),
    decreases n,
{
    if n >= 10 {
        push_decimal(s, n / 10);
    }
    let d = digit_str(n % 10);
    s.append(d);
    proof {
        if n >= 10 {
            assert(old(s)@ + decimal(n as nat) =~= old(s)@ + decimal((n / 10) as nat) + seq![
                digit_char((n % 10) as nat),
            ]);
        } else {
            assert(decimal(n as nat) =~= seq![digit_char((n % 10) as nat)]);
        }
    }
}

} // verus!
