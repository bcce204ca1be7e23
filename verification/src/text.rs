//! Small verified text helpers: decimal rendering of integers and
//! concatenation of strings with a known character view.

use vstd::prelude::*;

verus! {

/// The ASCII digit character for `d` (for `d` in `0..10`).
pub open spec fn digit_char(d: nat) -> char {
    if d == 0 { '0' }
    else if d == 1 { '1' }
    else if d == 2 { '2' }
    else if d == 3 { '3' }
    else if d == 4 { '4' }
    else if d == 5 { '5' }
    else if d == 6 { '6' }
    else if d == 7 { '7' }
    else if d == 8 { '8' }
    else { '9' }
}

/// The decimal rendering of `n` without leading zeros (`"0"` for zero).
pub open spec fn spec_decimal(n: nat) -> Seq<char>
    decreases n,
{
    if n < 10 {
        seq![digit_char(n)]
    } else {
        spec_decimal(n / 10).push(digit_char(n % 10))
    }
}

/// The literal text of one decimal digit.
fn digit_str(d: u8) -> (s: &'static str)
    requires
        d < 10,
    ensures
        s@ == seq![digit_char(d as nat)],
{
    proof {
        reveal_strlit("0");
        reveal_strlit("1");
        reveal_strlit("2");
        reveal_strlit("3");
        reveal_strlit("4");
        reveal_strlit("5");
        reveal_strlit("6");
        reveal_strlit("7");
        reveal_strlit("8");
        reveal_strlit("9");
    }
    if d == 0 { "0" }
    else if d == 1 { "1" }
    else if d == 2 { "2" }
    else if d == 3 { "3" }
    else if d == 4 { "4" }
    else if d == 5 { "5" }
    else if d == 6 { "6" }
    else if d == 7 { "7" }
    else if d == 8 { "8" }
    else { "9" }
}

/// Renders `n` in decimal, as `Display` does for unsigned integers.
pub fn decimal(n: u128) -> (s: String)
    ensures
        s@ == spec_decimal(n as nat),
    decreases n,
{
    if n < 10 {
        String::from_str(digit_str(n as u8))
    } else {
        let mut s = decimal(n / 10);
        s.append(digit_str((n % 10) as u8));
        s
    }
}

/// Appends the decimal rendering of `n` to `out`.
pub fn push_decimal(out: &mut String, n: u128)
    ensures
        final(out)@ == old(out)@ + spec_decimal(n as nat),
{
    let d = decimal(n);
    out.append(d.as_str());
}

/// Appends `piece` to `out`.
pub fn push_str(out: &mut String, piece: &str)
    ensures
        final(out)@ == old(out)@ + piece@,
{
    out.append(piece);
}


/// Unicode `White_Space`, the property that `char::is_whitespace` tests.
pub open spec fn is_unicode_whitespace(c: char) -> bool {
    ||| ('\u{9}' <= c && c <= '\u{d}')
    ||| c == ' '
    ||| c == '\u{85}'
    ||| c == '\u{a0}'
    ||| c == '\u{1680}'
    ||| ('\u{2000}' <= c && c <= '\u{200a}')
    ||| c == '\u{2028}'
    ||| c == '\u{2029}'
    ||| c == '\u{202f}'
    ||| c == '\u{205f}'
    ||| c == '\u{3000}'
}

/// Whether `c` is Unicode white space.
pub fn is_whitespace(c: char) -> (r: bool)
    ensures
        r == is_unicode_whitespace(c),
{
    ('\u{9}' <= c && c <= '\u{d}') || c == ' ' || c == '\u{85}' || c == '\u{a0}'
        || c == '\u{1680}' || ('\u{2000}' <= c && c <= '\u{200a}') || c == '\u{2028}'
        || c == '\u{2029}' || c == '\u{202f}' || c == '\u{205f}' || c == '\u{3000}'
}

/// Every character of `s` is white space (so `s.trim()` is empty).
pub open spec fn spec_is_blank(s: Seq<char>) -> bool {
    forall|i: int| 0 <= i < s.len() ==> is_unicode_whitespace(#[trigger] s[i])
}

/// Whether `s.trim()` is empty.
pub fn is_blank(s: &str) -> (r: bool)
    ensures
        r == spec_is_blank(s@),
{
    let n = s.unicode_len();
    let mut i: usize = 0;
    while i < n
        invariant
            n == s@.len(),
            i <= n,
            forall|j: int| 0 <= j < i ==> is_unicode_whitespace(#[trigger] s@[j]),
        decreases n - i,
    {
        if !is_whitespace(s.get_char(i)) {
            return false;
        }
        i = i + 1;
    }
    true
}

/// Every character of `s` is an ASCII digit.
pub open spec fn spec_all_ascii_digits(s: Seq<char>) -> bool {
    forall|i: int| 0 <= i < s.len() ==> '0' <= #[trigger] s[i] && s[i] <= '9'
}

/// Whether every character of `s` is an ASCII digit (true for the empty text).
pub fn all_ascii_digits(s: &str) -> (r: bool)
    ensures
        r == spec_all_ascii_digits(s@),
{
    let n = s.unicode_len();
    let mut i: usize = 0;
    while i < n
        invariant
            n == s@.len(),
            i <= n,
            forall|j: int| 0 <= j < i ==> '0' <= #[trigger] s@[j] && s@[j] <= '9',
        decreases n - i,
    {
        let c = s.get_char(i);
        if !('0' <= c && c <= '9') {
            return false;
        }
        i = i + 1;
    }
    true
}

/// Index of the first character of `s` that is not white space (or `s.len()`).
pub open spec fn spec_trim_start_index(s: Seq<char>) -> int
    decreases s.len(),
{
    if s.len() == 0 {
        0
    } else if is_unicode_whitespace(s[0]) {
        1 + spec_trim_start_index(s.drop_first())
    } else {
        0
    }
}

/// Index just past the last character of `s` that is not white space (or 0).
pub open spec fn spec_trim_end_index(s: Seq<char>) -> int
    decreases s.len(),
{
    if s.len() == 0 {
        0
    } else if is_unicode_whitespace(s.last()) {
        spec_trim_end_index(s.drop_last())
    } else {
        s.len() as int
    }
}

/// `s` without leading and trailing white space, as `str::trim` gives it.
pub open spec fn spec_trim(s: Seq<char>) -> Seq<char> {
    let start = spec_trim_start_index(s);
    let end = spec_trim_end_index(s);
    if start < end { s.subrange(start, end) } else { Seq::empty() }
}

proof fn lemma_trim_start_index(s: Seq<char>)
    ensures
        0 <= spec_trim_start_index(s) <= s.len(),
        forall|j: int| 0 <= j < spec_trim_start_index(s) ==> is_unicode_whitespace(#[trigger] s[j]),
        spec_trim_start_index(s) < s.len() ==> !is_unicode_whitespace(s[spec_trim_start_index(s)]),
    decreases s.len(),
{
    if s.len() > 0 && is_unicode_whitespace(s[0]) {
        lemma_trim_start_index(s.drop_first());
        assert forall|j: int| 0 <= j < spec_trim_start_index(s) implies is_unicode_whitespace(#[trigger] s[j]) by {
            if j > 0 {
                assert(s[j] == s.drop_first()[j - 1]);
            }
        }
    }
}

proof fn lemma_trim_end_index(s: Seq<char>)
    ensures
        0 <= spec_trim_end_index(s) <= s.len(),
        forall|j: int| spec_trim_end_index(s) <= j < s.len() ==> is_unicode_whitespace(#[trigger] s[j]),
        spec_trim_end_index(s) > 0 ==> !is_unicode_whitespace(s[spec_trim_end_index(s) - 1]),
    decreases s.len(),
{
    if s.len() > 0 && is_unicode_whitespace(s.last()) {
        lemma_trim_end_index(s.drop_last());
        assert forall|j: int| spec_trim_end_index(s) <= j < s.len() implies is_unicode_whitespace(#[trigger] s[j]) by {
            if j < s.len() - 1 {
                assert(s[j] == s.drop_last()[j]);
            }
        }
    }
}

/// The first index whose character is not white space.
proof fn lemma_trim_start_unique(s: Seq<char>, k: int)
    requires
        0 <= k <= s.len(),
        forall|j: int| 0 <= j < k ==> is_unicode_whitespace(#[trigger] s[j]),
        k < s.len() ==> !is_unicode_whitespace(s[k]),
    ensures
        spec_trim_start_index(s) == k,
{
    lemma_trim_start_index(s);
    let t = spec_trim_start_index(s);
    if t < k {
        assert(is_unicode_whitespace(s[t]));
    } else if k < t {
        assert(is_unicode_whitespace(s[k]));
    }
}

proof fn lemma_trim_end_unique(s: Seq<char>, k: int)
    requires
        0 <= k <= s.len(),
        forall|j: int| k <= j < s.len() ==> is_unicode_whitespace(#[trigger] s[j]),
        k > 0 ==> !is_unicode_whitespace(s[k - 1]),
    ensures
        spec_trim_end_index(s) == k,
{
    lemma_trim_end_index(s);
    let t = spec_trim_end_index(s);
    if t < k {
        assert(is_unicode_whitespace(s[k - 1]));
    } else if k < t {
        assert(is_unicode_whitespace(s[t - 1]));
    }
}

/// Whether two texts hold the same characters.
pub fn same_text(a: &str, b: &str) -> (r: bool)
    ensures
        r == (a@ == b@),
{
    let n = a.unicode_len();
    if n != b.unicode_len() {
        return false;
    }
    let mut i: usize = 0;
    while i < n
        invariant
            n == a@.len(),
            n == b@.len(),
            i <= n,
            forall|j: int| 0 <= j < i ==> a@[j] == b@[j],
        decreases n - i,
    {
        if a.get_char(i) != b.get_char(i) {
            return false;
        }
        i = i + 1;
    }
    proof {
        assert(a@ =~= b@);
    }
    true
}

/// `value` in decimal, with a `-` sign when negative.
pub open spec fn spec_signed_decimal(value: int) -> Seq<char> {
    if value < 0 {
        "-"@ + spec_decimal((-value) as nat)
    } else {
        spec_decimal(value as nat)
    }
}

/// Appends `value` in decimal, with a `-` sign when negative.
pub fn push_signed_decimal(out: &mut String, value: i64)
    ensures
        final(out)@ == old(out)@ + spec_signed_decimal(value as int),
{
    proof {
        reveal_strlit("-");
    }
    if value < 0 {
        push_str(out, "-");
        let magnitude: u128 = (-(value as i128)) as u128;
        push_decimal(out, magnitude);
        proof {
            assert(old(out)@ + "-"@ + spec_decimal(magnitude as nat) == old(out)@ + ("-"@ + spec_decimal(magnitude as nat)));
        }
    } else {
        push_decimal(out, value as u128);
    }
}

/// Text that neither starts nor ends with white space is its own trim.
pub proof fn lemma_trim_unchanged(s: Seq<char>)
    requires
        s.len() > 0,
        !is_unicode_whitespace(s[0]),
        !is_unicode_whitespace(s[s.len() - 1]),
    ensures
        spec_trim(s) == s,
{
    lemma_trim_start_unique(s, 0);
    lemma_trim_end_unique(s, s.len() as int);
    assert(s.subrange(0, s.len() as int) == s);
}

/// `s` without leading and trailing white space, as a slice of `s`.
pub fn trim_str<'a>(s: &'a str) -> (r: &'a str)
    ensures
        r@ == spec_trim(s@),
{
    let n = s.unicode_len();
    let mut start: usize = 0;
    while start < n && is_whitespace(s.get_char(start))
        invariant
            n == s@.len(),
            start <= n,
            forall|j: int| 0 <= j < start ==> is_unicode_whitespace(#[trigger] s@[j]),
        decreases n - start,
    {
        start = start + 1;
    }
    let mut end: usize = n;
    while end > start && is_whitespace(s.get_char(end - 1))
        invariant
            n == s@.len(),
            start <= end <= n,
            forall|j: int| end <= j < n ==> is_unicode_whitespace(#[trigger] s@[j]),
        decreases end,
    {
        end = end - 1;
    }
    proof {
        lemma_trim_start_unique(s@, start as int);
        if start < end {
            lemma_trim_end_unique(s@, end as int);
        } else {
            lemma_trim_end_index(s@);
            assert(end == start);
            if spec_trim_end_index(s@) > start {
                assert(!is_unicode_whitespace(s@[spec_trim_end_index(s@) - 1]));
                if start < n {
                    assert(spec_trim_end_index(s@) - 1 >= start);
                }
            }
        }
    }
    s.substring_char(start, end)
}

/// `s` without leading and trailing white space.
pub fn trim(s: &str) -> (r: String)
    ensures
        r@ == spec_trim(s@),
{
    let n = s.unicode_len();
    let mut start: usize = 0;
    while start < n && is_whitespace(s.get_char(start))
        invariant
            n == s@.len(),
            start <= n,
            forall|j: int| 0 <= j < start ==> is_unicode_whitespace(#[trigger] s@[j]),
        decreases n - start,
    {
        start = start + 1;
    }
    let mut end: usize = n;
    while end > 0 && is_whitespace(s.get_char(end - 1))
        invariant
            n == s@.len(),
            end <= n,
            forall|j: int| end <= j < n ==> is_unicode_whitespace(#[trigger] s@[j]),
        decreases end,
    {
        end = end - 1;
    }
    proof {
        lemma_trim_start_unique(s@, start as int);
        lemma_trim_end_unique(s@, end as int);
    }
    if start < end {
        String::from_str(s.substring_char(start, end))
    } else {
        String::new()
    }
}

} // verus!
