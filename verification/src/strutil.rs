//! Verified string helpers: trimming, substring search, splitting,
//! prefix/suffix stripping, and decimal conversion.

use vstd::prelude::*;

verus! {

/// The whitespace characters that trimming removes.
pub open spec fn is_ascii_space(c: char) -> bool {
    c == ' ' || c == '\t' || c == '\n' || c == '\r'
}

/// The sequence with its leading whitespace removed.
pub open spec fn drop_leading(s: Seq<char>) -> Seq<char>
    decreases s.len(),
{
    if s.len() > 0 && is_ascii_space(s[0]) {
        drop_leading(s.drop_first())
    } else {
        s
    }
}

/// The sequence with its trailing whitespace removed.
pub open spec fn drop_trailing(s: Seq<char>) -> Seq<char>
    decreases s.len(),
{
    if s.len() > 0 && is_ascii_space(s.last()) {
        drop_trailing(s.drop_last())
    } else {
        s
    }
}

/// The sequence with whitespace removed from both ends.
pub open spec fn trimmed(s: Seq<char>) -> Seq<char> {
    drop_trailing(drop_leading(s))
}

proof fn lemma_drop_leading_subrange(s: Seq<char>, a: int)
    requires
        0 <= a <= s.len(),
        forall|j: int| 0 <= j < a ==> is_ascii_space(s[j]),
        a < s.len() ==> !is_ascii_space(s[a]),
    ensures
        drop_leading(s) == s.subrange(a, s.len() as int),
    decreases a,
{
    if a == 0 {
        assert(s.subrange(0, s.len() as int) =~= s);
    } else {
        lemma_drop_leading_subrange(s.drop_first(), a - 1);
        assert(s.drop_first().subrange(a - 1, s.drop_first().len() as int) =~= s.subrange(
            a,
            s.len() as int,
        ));
    }
}

proof fn lemma_drop_trailing_subrange(s: Seq<char>, b: int)
    requires
        0 <= b <= s.len(),
        forall|j: int| b <= j < s.len() ==> is_ascii_space(s[j]),
        b > 0 ==> !is_ascii_space(s[b - 1]),
    ensures
        drop_trailing(s) == s.subrange(0, b),
    decreases s.len() - b,
{
    if b == s.len() {
        assert(s.subrange(0, b) =~= s);
    } else {
        lemma_drop_trailing_subrange(s.drop_last(), b);
        assert(s.drop_last().subrange(0, b) =~= s.subrange(0, b));
    }
}

fn is_space_at(s: &str, i: usize) -> (b: bool)
    requires
        i < s@.len(),
    ensures
        b == is_ascii_space(s@[i as int]),
{
    let c = s.get_char(i);
    c == ' ' || c == '\t' || c == '\n' || c == '\r'
}

/// A copy of the string with leading and trailing whitespace removed.
pub fn trim_str(s: &str) -> (r: String)
    ensures
        r@ == trimmed(s@),
{
    let len = s.unicode_len();
    let mut a: usize = 0;
    while a < len && is_space_at(s, a)
        invariant
            0 <= a <= len,
            len == s@.len(),
            forall|j: int| 0 <= j < a ==> is_ascii_space(s@[j]),
        decreases len - a,
    {
        a += 1;
    }
    let mut b: usize = len;
    while b > a && is_space_at(s, b - 1)
        invariant
            a <= b <= len,
            len == s@.len(),
            forall|j: int| b <= j < len ==> is_ascii_space(s@[j]),
        decreases b,
    {
        b -= 1;
    }
    let r = s.substring_char(a, b).to_owned();
    proof {
        lemma_drop_leading_subrange(s@, a as int);
        let t = s@.subrange(a as int, len as int);
        lemma_drop_trailing_subrange(t, b - a);
        assert(t.subrange(0, b - a) =~= s@.subrange(a as int, b as int));
    }
    r
}

/// Whether `sep` occurs in `s` starting at position `i`.
pub open spec fn matches_at(s: Seq<char>, sep: Seq<char>, i: int) -> bool {
    0 <= i && i + sep.len() <= s.len() && s.subrange(i, i + sep.len()) == sep
}

/// Position of the first occurrence of `sep` in `s` at or after `i`, or -1.
/// The empty separator occurs right away.
pub open spec fn find_from(s: Seq<char>, sep: Seq<char>, i: int) -> int
    decreases s.len() - i,
    when 0 <= i <= s.len()
{
    if sep.len() == 0 {
        i
    } else if i + sep.len() > s.len() {
        -1
    } else if matches_at(s, sep, i) {
        i
    } else {
        find_from(s, sep, i + 1)
    }
}

/// Position of the first occurrence of `sep` in `s`, or -1 if there is none.
pub open spec fn find_sub(s: Seq<char>, sep: Seq<char>) -> int {
    find_from(s, sep, 0)
}

/// What `find_from` returns: -1 and no occurrence from `i` on, or the
/// position of the first occurrence.
pub proof fn lemma_find_from_props(s: Seq<char>, sep: Seq<char>, i: int)
    requires
        0 <= i <= s.len(),
        sep.len() > 0,
    ensures
        ({
            let f = find_from(s, sep, i);
            ||| (f == -1 && forall|j: int| i <= j ==> !matches_at(s, sep, j))
            ||| (i <= f && matches_at(s, sep, f) && forall|j: int|
                i <= j < f ==> !matches_at(s, sep, j))
        }),
    decreases s.len() - i,
{
    if i + sep.len() > s.len() {
        assert(forall|j: int| i <= j ==> !matches_at(s, sep, j));
    } else if !matches_at(s, sep, i) {
        lemma_find_from_props(s, sep, i + 1);
    }
}


/// If no occurrence starts before `i`, the search may start at `i`.
pub proof fn lemma_find_skip(s: Seq<char>, sep: Seq<char>, i: int)
    requires
        0 <= i <= s.len(),
        sep.len() > 0,
        forall|j: int| 0 <= j < i ==> !matches_at(s, sep, j),
    ensures
        find_sub(s, sep) == find_from(s, sep, i),
    decreases i,
{
    if i > 0 {
        lemma_find_skip(s, sep, i - 1);
    }
}

/// Whether `sep` occurs in `s` at position `i`, checked character by
/// character.
pub fn match_at(s: &str, i: usize, sep: &str) -> (b: bool)
    requires
        i + sep@.len() <= s@.len(),
    ensures
        b == matches_at(s@, sep@, i as int),
{
    let n = s.unicode_len();
    let m = sep.unicode_len();
    let mut j: usize = 0;
    while j < m
        invariant
            0 <= j <= m,
            m == sep@.len(),
            n == s@.len(),
            i + m <= n,
            forall|k: int| 0 <= k < j ==> s@[i + k] == sep@[k],
        decreases m - j,
    {
        if s.get_char(i + j) != sep.get_char(j) {
            proof {
                assert(s@.subrange(i as int, i + m as int)[j as int] == s@[i + j]);
            }
            return false;
        }
        j += 1;
    }
    proof {
        assert(s@.subrange(i as int, i + m as int) =~= sep@);
    }
    true
}

/// Position of the first occurrence of `sep` in `s`, if any.
pub fn find(s: &str, sep: &str) -> (r: Option<usize>)
    ensures
        match r {
            Some(i) => find_sub(s@, sep@) == i,
            None => find_sub(s@, sep@) == -1,
        },
{
    let n = s.unicode_len();
    let m = sep.unicode_len();
    if m == 0 {
        return Some(0);
    }
    if m > n {
        return None;
    }
    let mut i: usize = 0;
    while i <= n - m
        invariant
            0 <= i <= n - m + 1,
            n == s@.len(),
            m == sep@.len(),
            1 <= m <= n,
            forall|j: int| 0 <= j < i ==> !matches_at(s@, sep@, j),
        decreases n - i,
    {
        if match_at(s, i, sep) {
            proof {
                lemma_find_skip(s@, sep@, i as int);
            }
            return Some(i);
        }
        i += 1;
    }
    proof {
        lemma_find_skip(s@, sep@, (n - m + 1) as int);
        assert(forall|j: int|
            n - m + 1 <= j <= s@.len() ==> !matches_at(s@, sep@, j));
        lemma_find_from_props(s@, sep@, (n - m + 1) as int);
    }
    None
}

/// The part of `s` before the first occurrence of `sep`, or all of `s`.
pub open spec fn split2_first(s: Seq<char>, sep: Seq<char>) -> Seq<char> {
    let i = find_sub(s, sep);
    if i == -1 {
        s
    } else {
        s.subrange(0, i)
    }
}

/// The part of `s` after the first occurrence of `sep`, if `sep` occurs.
pub open spec fn split2_rest(s: Seq<char>, sep: Seq<char>) -> Option<Seq<char>> {
    let i = find_sub(s, sep);
    if i == -1 {
        None
    } else {
        Some(s.subrange(i + sep.len(), s.len() as int))
    }
}

/// Splits `s` in at most two parts around the first occurrence of `sep`.
pub fn split2(s: &str, sep: &str) -> (r: (String, Option<String>))
    ensures
        r.0@ == split2_first(s@, sep@),
        match r.1 {
            Some(x) => split2_rest(s@, sep@) == Some(x@),
            None => split2_rest(s@, sep@) is None,
        },
{
    match find(s, sep) {
        None => (s.to_owned(), None),
        Some(i) => {
            let m = sep.unicode_len();
            let n = s.unicode_len();
            proof {
                if sep@.len() > 0 {
                    lemma_find_from_props(s@, sep@, 0);
                }
            }
            let before = s.substring_char(0, i).to_owned();
            let after = s.substring_char(i + m, n).to_owned();
            (before, Some(after))
        },
    }
}

/// Whether `p` is a prefix of `s`.
pub open spec fn has_prefix(s: Seq<char>, p: Seq<char>) -> bool {
    p.len() <= s.len() && s.subrange(0, p.len() as int) == p
}

/// Whether `p` is a suffix of `s`.
pub open spec fn has_suffix(s: Seq<char>, p: Seq<char>) -> bool {
    p.len() <= s.len() && s.subrange(s.len() - p.len(), s.len() as int) == p
}

/// The string without the suffix `p`, if `p` is a suffix of it.
pub fn strip_suffix_str(s: &str, p: &str) -> (r: Option<String>)
    ensures
        match r {
            Some(x) => has_suffix(s@, p@) && x@ == s@.subrange(0, s@.len() - p@.len()),
            None => !has_suffix(s@, p@),
        },
{
    let n = s.unicode_len();
    let m = p.unicode_len();
    if m > n {
        return None;
    }
    if match_at(s, n - m, p) {
        Some(s.substring_char(0, n - m).to_owned())
    } else {
        None
    }
}

/// Character-by-character string equality.
pub fn str_eq(a: &str, b: &str) -> (r: bool)
    ensures
        r == (a@ == b@),
{
    let n = a.unicode_len();
    if n != b.unicode_len() {
        proof {
            assert(a@.len() != b@.len());
        }
        return false;
    }
    let mut i: usize = 0;
    while i < n
        invariant
            0 <= i <= n,
            n == a@.len(),
            n == b@.len(),
            forall|j: int| 0 <= j < i ==> a@[j] == b@[j],
        decreases n - i,
    {
        if a.get_char(i) != b.get_char(i) {
            return false;
        }
        i += 1;
    }
    proof {
        assert(a@ =~= b@);
    }
    true
}

/// Whether `c` is a decimal digit.
pub open spec fn is_digit(c: char) -> bool {
    48 <= c as u32 <= 57
}

/// The numeric value of a digit character.
pub open spec fn digit_val(c: char) -> nat {
    (c as u32 - 48) as nat
}

/// Whether every character of `s` is a decimal digit.
pub open spec fn all_digits(s: Seq<char>) -> bool {
    forall|i: int| 0 <= i < s.len() ==> is_digit(#[trigger] s[i])
}

/// The value of a sequence of decimal digits, most significant first.
pub open spec fn digits_val(s: Seq<char>) -> nat
    decreases s.len(),
{
    if s.len() == 0 {
        0
    } else {
        digits_val(s.drop_last()) * 10 + digit_val(s.last())
    }
}

/// A longer digit prefix never has a smaller value.
proof fn lemma_digits_val_take_monotone(s: Seq<char>, i: int)
    requires
        0 <= i <= s.len(),
    ensures
        digits_val(s.take(i)) <= digits_val(s),
    decreases s.len() - i,
{
    if i < s.len() {
        assert(s.take(i + 1).drop_last() =~= s.take(i));
        assert(digits_val(s.take(i + 1)) == digits_val(s.take(i)) * 10 + digit_val(
            s.take(i + 1).last(),
        ));
        lemma_digits_val_take_monotone(s, i + 1);
    } else {
        assert(s.take(i) =~= s);
    }
}

/// Whether `s` is a non-empty string of decimal digits whose value fits
/// in 32 bits.
pub open spec fn is_u32_str(s: Seq<char>) -> bool {
    s.len() > 0 && all_digits(s) && digits_val(s) <= u32::MAX
}

/// Parses a non-empty string of decimal digits as a 32-bit value.  Fails
/// on an empty string, any non-digit character, or a value out of range.
pub fn parse_u32(s: &str) -> (r: Option<u32>)
    ensures
        match r {
            Some(v) => is_u32_str(s@) && digits_val(s@) == v,
            None => !is_u32_str(s@),
        },
{
    let n = s.unicode_len();
    if n == 0 {
        return None;
    }
    let mut acc: u64 = 0;
    let mut i: usize = 0;
    while i < n
        invariant
            0 <= i <= n,
            n == s@.len(),
            forall|j: int| 0 <= j < i ==> is_digit(#[trigger] s@[j]),
            acc == digits_val(s@.take(i as int)),
            acc <= u32::MAX,
        decreases n - i,
    {
        let c = s.get_char(i);
        let cv = c as u32;
        if cv < 48 || cv > 57 {
            assert(!is_digit(s@[i as int]));
            return None;
        }
        let d: u64 = (cv - 48) as u64;
        proof {
            assert(s@.take(i + 1 as int).drop_last() =~= s@.take(i as int));
        }
        acc = acc * 10 + d;
        if acc > u32::MAX as u64 {
            proof {
                lemma_digits_val_take_monotone(s@, i + 1 as int);
            }
            return None;
        }
        i += 1;
    }
    proof {
        assert(s@.take(n as int) =~= s@);
    }
    Some(acc as u32)
}

/// The decimal rendering of `n`, most significant digit first.
pub open spec fn dec_str(n: nat) -> Seq<char>
    decreases n,
{
    if n < 10 {
        seq![dec_digit(n)]
    } else {
        dec_str(n / 10).push(dec_digit(n % 10))
    }
}

/// The character for one decimal digit.
pub open spec fn dec_digit(d: nat) -> char {
    if d == 0 {
        '0'
    } else if d == 1 {
        '1'
    } else if d == 2 {
        '2'
    } else if d == 3 {
        '3'
    } else if d == 4 {
        '4'
    } else if d == 5 {
        '5'
    } else if d == 6 {
        '6'
    } else if d == 7 {
        '7'
    } else if d == 8 {
        '8'
    } else {
        '9'
    }
}

fn dec_digit_char(d: u64) -> (c: char)
    requires
        d < 10,
    ensures
        c == dec_digit(d as nat),
{
    if d == 0 {
        '0'
    } else if d == 1 {
        '1'
    } else if d == 2 {
        '2'
    } else if d == 3 {
        '3'
    } else if d == 4 {
        '4'
    } else if d == 5 {
        '5'
    } else if d == 6 {
        '6'
    } else if d == 7 {
        '7'
    } else if d == 8 {
        '8'
    } else {
        '9'
    }
}

/// Relies on `String::push`: appends exactly one character at the end.
#[verifier::external_body]
pub fn push_char(s: &mut String, c: char)
    ensures
        final(s)@ == old(s)@.push(c),
{
    s.push(c);
}

/// Renders `n` in decimal.
pub fn u32_to_string(n: u32) -> (r: String)
    ensures
        r@ == dec_str(n as nat),
{
    let mut digits: Vec<char> = Vec::new();
    let mut m: u64 = n as u64;
    loop
        invariant
            dec_str(n as nat) == (if m >= 10 {
                dec_str((m / 10) as nat).push(dec_digit((m % 10) as nat))
            } else {
                seq![dec_digit(m as nat)]
            }).add(digits@.reverse()),
            m <= n,
        decreases m,
    {
        let d = m % 10;
        let next = m / 10;
        if next == 0 {
            let mut r = String::new();
            push_char(&mut r, dec_digit_char(d));
            let mut k: usize = digits.len();
            proof {
                assert(r@ =~= seq![dec_digit(m as nat)].add(
                    digits@.reverse().take(digits@.len() - k),
                ));
            }
            while k > 0
                invariant
                    0 <= k <= digits@.len(),
                    dec_str(n as nat) == seq![dec_digit(m as nat)].add(digits@.reverse()),
                    m < 10,
                    r@ == seq![dec_digit(m as nat)].add(digits@.reverse().take(digits@.len() - k)),
                decreases k,
            {
                push_char(&mut r, digits[k - 1]);
                proof {
                    assert(digits@.reverse().take(digits@.len() - (k - 1)) =~= digits@.reverse()
                        .take(digits@.len() - k).push(digits@[k - 1]));
                }
                k -= 1;
            }
            proof {
                assert(digits@.reverse().take(digits@.len() - 0) =~= digits@.reverse());
            }
            return r;
        }
        digits.push(dec_digit_char(d));
        proof {
            let old_rev = digits@.drop_last().reverse();
            assert(digits@.reverse() =~= seq![dec_digit((m % 10) as nat)].add(old_rev));
            assert(dec_str((m / 10) as nat).push(dec_digit((m % 10) as nat)).add(old_rev)
                =~= dec_str((m / 10) as nat).add(digits@.reverse()));
            if m / 10 >= 10 {
                assert(dec_str((m / 10) as nat) == dec_str((m / 10 / 10) as nat).push(
                    dec_digit((m / 10 % 10) as nat),
                ));
            }
        }
        m = next;
    }
}

} // verus!
