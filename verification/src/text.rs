//! Character- and byte-sequence utilities: searching, quoted-field scanning
//! and decimal numerals, each with its spec-level definition.

use vstd::prelude::*;
use vstd::string::StrSliceExecFns;
use vstd::string::StringExecFns;

verus! {

broadcast use vstd::string::group_string_axioms;

// ---------------------------------------------------------------------------
// Searching
// ---------------------------------------------------------------------------
/// First index `i >= from` with `s[i] == x`; `s.len()` when there is none.
pub open spec fn find_at<T>(s: Seq<T>, x: T, from: int) -> int
    decreases s.len() - from,
{
    if from < 0 || from >= s.len() {
        s.len() as int
    } else if s[from] == x {
        from
    } else {
        find_at(s, x, from + 1)
    }
}

pub proof fn lemma_find_at<T>(s: Seq<T>, x: T, from: int)
    requires
        0 <= from <= s.len(),
    ensures
        from <= find_at(s, x, from) <= s.len(),
        find_at(s, x, from) < s.len() ==> s[find_at(s, x, from)] == x,
        forall|j: int| from <= j < find_at(s, x, from) ==> s[j] != x,
    decreases s.len() - from,
{
    if from < s.len() && s[from] != x {
        lemma_find_at(s, x, from + 1);
    }
}

/// `find_at` lands exactly on the first occurrence.
pub proof fn lemma_find_at_is<T>(s: Seq<T>, x: T, from: int, k: int)
    requires
        0 <= from <= k < s.len(),
        s[k] == x,
        forall|j: int| from <= j < k ==> s[j] != x,
    ensures
        find_at(s, x, from) == k,
    decreases k - from,
{
    if from < k {
        lemma_find_at_is(s, x, from + 1, k);
    }
}

/// Without an occurrence, `find_at` returns the length.
pub proof fn lemma_find_at_none<T>(s: Seq<T>, x: T, from: int)
    requires
        0 <= from <= s.len(),
        forall|j: int| from <= j < s.len() ==> s[j] != x,
    ensures
        find_at(s, x, from) == s.len(),
    decreases s.len() - from,
{
    if from < s.len() {
        lemma_find_at_none(s, x, from + 1);
    }
}

/// First index `i >= from` with `s[i] == a && s[i + 1] == b`; `s.len()` when
/// there is none.
pub open spec fn find_pair_at(s: Seq<char>, a: char, b: char, from: int) -> int
    decreases s.len() - from,
{
    if from < 0 || from + 1 >= s.len() {
        s.len() as int
    } else if s[from] == a && s[from + 1] == b {
        from
    } else {
        find_pair_at(s, a, b, from + 1)
    }
}

pub proof fn lemma_find_pair_at(s: Seq<char>, a: char, b: char, from: int)
    requires
        0 <= from <= s.len(),
    ensures
        from <= find_pair_at(s, a, b, from) <= s.len(),
        find_pair_at(s, a, b, from) < s.len() ==> {
            let i = find_pair_at(s, a, b, from);
            i + 1 < s.len() && s[i] == a && s[i + 1] == b
        },
        forall|j: int|
            from <= j < find_pair_at(s, a, b, from) && j + 1 < s.len() ==> !(#[trigger] s[j] == a
                && s[j + 1] == b),
    decreases s.len() - from,
{
    if from + 1 < s.len() && !(s[from] == a && s[from + 1] == b) {
        lemma_find_pair_at(s, a, b, from + 1);
    }
}

/// `find_pair_at` lands exactly on the first occurrence of the pair.
pub proof fn lemma_find_pair_at_is(s: Seq<char>, a: char, b: char, from: int, k: int)
    requires
        0 <= from <= k,
        k + 1 < s.len(),
        s[k] == a && s[k + 1] == b,
        forall|j: int| from <= j < k ==> !(#[trigger] s[j] == a && s[j + 1] == b),
    ensures
        find_pair_at(s, a, b, from) == k,
    decreases k - from,
{
    if from < k {
        lemma_find_pair_at_is(s, a, b, from + 1, k);
    }
}

// ---------------------------------------------------------------------------
// Quoted-field scanning
// ---------------------------------------------------------------------------
/// Index one past the first unescaped `"` at or after `from`, where each
/// backslash toggles the escape flag and an escaped quote clears it;
/// `s.len()` when no closing quote is found.
pub open spec fn scan_quoted(s: Seq<char>, from: int, escaped: bool) -> int
    decreases s.len() - from,
{
    if from < 0 || from >= s.len() {
        s.len() as int
    } else if s[from] == '\\' {
        scan_quoted(s, from + 1, !escaped)
    } else if s[from] == '"' {
        if escaped {
            scan_quoted(s, from + 1, false)
        } else {
            from + 1
        }
    } else {
        scan_quoted(s, from + 1, escaped)
    }
}

pub proof fn lemma_scan_quoted_bounds(s: Seq<char>, from: int, escaped: bool)
    requires
        0 <= from <= s.len(),
    ensures
        from <= scan_quoted(s, from, escaped) <= s.len(),
        from < s.len() ==> from + 1 <= scan_quoted(s, from, escaped),
    decreases s.len() - from,
{
    if from < s.len() {
        if s[from] == '\\' {
            lemma_scan_quoted_bounds(s, from + 1, !escaped);
        } else if s[from] == '"' {
            if escaped {
                lemma_scan_quoted_bounds(s, from + 1, false);
            }
        } else {
            lemma_scan_quoted_bounds(s, from + 1, escaped);
        }
    }
}

/// Over a stretch free of quotes and backslashes that ends at a quote, the
/// scan stops one past that quote.
pub proof fn lemma_scan_quoted_finds(s: Seq<char>, from: int, k: int)
    requires
        0 <= from <= k < s.len(),
        s[k] == '"',
        forall|j: int| from <= j < k ==> s[j] != '"' && s[j] != '\\',
    ensures
        scan_quoted(s, from, false) == k + 1,
    decreases k - from,
{
    if from < k {
        lemma_scan_quoted_finds(s, from + 1, k);
    }
}

// ---------------------------------------------------------------------------
// Decimal numerals
// ---------------------------------------------------------------------------
pub open spec fn is_digit_char(c: char) -> bool {
    48 <= c as u32 <= 57
}

pub open spec fn digit_val(c: char) -> nat {
    (c as u32 - 48) as nat
}

pub open spec fn digit_char(d: nat) -> char {
    if d == 0 {
        '0'
    } else if d == 1 {
        '1'
    } else if d == 2 {
        '2'
    } else if d == 3 {
        '3'
    } else if d == 4 {
        '4'
    } else if d == 5 {
        '5'
    } else if d == 6 {
        '6'
    } else if d == 7 {
        '7'
    } else if d == 8 {
        '8'
    } else {
        '9'
    }
}

pub open spec fn all_digits(s: Seq<char>) -> bool {
    forall|i: int| 0 <= i < s.len() ==> is_digit_char(#[trigger] s[i])
}

/// The value of a string of decimal digits, most significant first.
pub open spec fn digits_val(s: Seq<char>) -> nat
    decreases s.len(),
{
    if s.len() == 0 {
        0
    } else {
        digits_val(s.drop_last()) * 10 + digit_val(s.last())
    }
}

/// The canonical decimal numeral of `n`: no sign, no leading zeros.
pub open spec fn dec_rep(n: nat) -> Seq<char>
    decreases n,
{
    if n < 10 {
        seq![digit_char(n)]
    } else {
        dec_rep(n / 10).push(digit_char(n % 10))
    }
}

/// A segment that parses as a `u64`: nonempty, all digits, in range.
pub open spec fn is_u64_digits(s: Seq<char>) -> bool {
    s.len() > 0 && all_digits(s) && digits_val(s) <= u64::MAX
}

pub proof fn lemma_digit_char_val(d: nat)
    requires
        d < 10,
    ensures
        is_digit_char(digit_char(d)),
        digit_val(digit_char(d)) == d,
{
}

/// The canonical numeral is made of digits and evaluates back to `n`.
pub proof fn lemma_dec_rep_wf(n: nat)
    ensures
        dec_rep(n).len() >= 1,
        all_digits(dec_rep(n)),
        digits_val(dec_rep(n)) == n,
    decreases n,
{
    if n < 10 {
        lemma_digit_char_val(n);
        let r = dec_rep(n);
        assert(r =~= seq![digit_char(n)]);
        assert(r.drop_last() =~= Seq::<char>::empty());
        assert(r.last() == digit_char(n));
        assert(digits_val(r.drop_last()) == 0);
        assert(digits_val(r) == 0 * 10 + digit_val(digit_char(n)));
    } else {
        lemma_dec_rep_wf(n / 10);
        lemma_digit_char_val(n % 10);
        let w = dec_rep(n / 10);
        let r = w.push(digit_char(n % 10));
        assert(r.drop_last() =~= w);
        assert(r.last() == digit_char(n % 10));
        assert(forall|i: int|
            0 <= i < r.len() ==> is_digit_char(#[trigger] r[i]) == if i < w.len() {
                is_digit_char(w[i])
            } else {
                is_digit_char(digit_char(n % 10))
            });
        assert(digits_val(r) == (n / 10) * 10 + n % 10);
        assert((n / 10) * 10 + n % 10 == n) by {
            vstd::arithmetic::div_mod::lemma_fundamental_div_mod(n as int, 10);
        }
    }
}

/// For digit strings, the value of a prefix never exceeds the whole.
pub proof fn lemma_digits_val_prefix(s: Seq<char>, i: int)
    requires
        all_digits(s),
        0 <= i <= s.len(),
    ensures
        digits_val(s.take(i)) <= digits_val(s),
    decreases s.len() - i,
{
    if i < s.len() {
        let a = s.take(i);
        let b = s.take(i + 1);
        assert(b.drop_last() =~= a);
        assert(digits_val(b) == digits_val(a) * 10 + digit_val(s[i]));
        assert(digits_val(a) <= digits_val(a) * 10);
        lemma_digits_val_prefix(s, i + 1);
    } else {
        assert(s.take(i) =~= s);
    }
}

// ---------------------------------------------------------------------------
// Executable helpers over `&str`
// ---------------------------------------------------------------------------
/// `p` is a prefix of `s`.
pub open spec fn starts_with(s: Seq<char>, p: Seq<char>) -> bool {
    p.len() <= s.len() && s.subrange(0, p.len() as int) == p
}

/// Character-for-character string equality.
pub fn str_eq_str(a: &str, b: &str) -> (r: bool)
    ensures
        r == (a@ == b@),
{
    let alen = a.unicode_len();
    let blen = b.unicode_len();
    if alen != blen {
        return false;
    }
    let mut i: usize = 0;
    while i < alen
        invariant
            0 <= i <= alen,
            alen == a@.len(),
            alen == b@.len(),
            forall|j: int| 0 <= j < i ==> a@[j] == b@[j],
        decreases alen - i,
    {
        if a.get_char(i) != b.get_char(i) {
            return false;
        }
        i += 1;
    }
    proof {
        assert(a@ =~= b@);
    }
    true
}

/// Whether `s` starts with the pattern `p`.
pub fn str_starts_with(s: &str, p: &str) -> (r: bool)
    ensures
        r == starts_with(s@, p@),
{
    let slen = s.unicode_len();
    let plen = p.unicode_len();
    if plen > slen {
        return false;
    }
    let mut i: usize = 0;
    while i < plen
        invariant
            0 <= i <= plen <= slen,
            slen == s@.len(),
            plen == p@.len(),
            forall|j: int| 0 <= j < i ==> s@[j] == p@[j],
        decreases plen - i,
    {
        if s.get_char(i) != p.get_char(i) {
            return false;
        }
        i += 1;
    }
    proof {
        assert(s@.subrange(0, p@.len() as int) =~= p@);
    }
    true
}

/// First position of `x` in `s` at or after `from`; the length when absent.
pub fn find_char_in(s: &str, x: char, from: usize) -> (r: usize)
    requires
        from <= s@.len(),
    ensures
        r as int == find_at(s@, x, from as int),
{
    let len = s.unicode_len();
    let mut i = from;
    while i < len
        invariant
            from <= i <= len,
            len == s@.len(),
            forall|j: int| from <= j < i ==> s@[j] != x,
        decreases len - i,
    {
        if s.get_char(i) == x {
            proof {
                lemma_find_at_is(s@, x, from as int, i as int);
            }
            return i;
        }
        i += 1;
    }
    proof {
        lemma_find_at_none(s@, x, from as int);
    }
    len
}

/// First position of `x` in the byte buffer at or after `from`; the length
/// when absent.
pub fn find_byte_in(v: &Vec<u8>, x: u8, from: usize) -> (r: usize)
    requires
        from <= v@.len(),
    ensures
        r as int == find_at(v@, x, from as int),
{
    let n = v.len();
    let mut i = from;
    while i < n
        invariant
            from <= i <= n,
            n == v@.len(),
            forall|j: int| from <= j < i ==> v@[j] != x,
        decreases n - i,
    {
        if v[i] == x {
            proof {
                lemma_find_at_is(v@, x, from as int, i as int);
            }
            return i;
        }
        i += 1;
    }
    proof {
        lemma_find_at_none(v@, x, from as int);
    }
    n
}

/// First position of the two-character pattern `a b` in `s` at or after
/// `from`; the length when absent.
pub fn find_pair_in(s: &str, a: char, b: char, from: usize) -> (r: usize)
    requires
        from <= s@.len(),
    ensures
        r as int == find_pair_at(s@, a, b, from as int),
{
    let len = s.unicode_len();
    if len == 0 {
        proof {
            lemma_find_pair_at_none(s@, a, b, from as int);
        }
        return len;
    }
    let mut i = from;
    while i < len - 1
        invariant
            from <= i,
            i <= len,
            1 <= len == s@.len(),
            forall|j: int| from <= j < i ==> !(#[trigger] s@[j] == a && s@[j + 1] == b),
        decreases len - i,
    {
        if s.get_char(i) == a && s.get_char(i + 1) == b {
            proof {
                lemma_find_pair_at_is(s@, a, b, from as int, i as int);
            }
            return i;
        }
        i += 1;
    }
    proof {
        lemma_find_pair_at_none(s@, a, b, from as int);
    }
    len
}

/// Follows the quoted field that opens at `offset`, which must sit on the
/// opening `"`: each backslash toggles an escape flag, and the scan stops one
/// past the first unescaped closing quote, or at the end of the text when no
/// closing quote exists.
pub fn follow_quoted_str(buf: &str, offset: usize) -> (r: usize)
    requires
        offset < buf@.len(),
    ensures
        r as int == scan_quoted(buf@, offset + 1, false),
{
    let len = buf.unicode_len();
    let mut i = offset + 1;
    let mut escape = false;
    while i < len
        invariant
            offset + 1 <= i <= len,
            len == buf@.len(),
            scan_quoted(buf@, offset + 1, false) == scan_quoted(buf@, i as int, escape),
        decreases len - i,
    {
        let c = buf.get_char(i);
        if c == '\\' {
            escape = !escape;
        } else if c == '"' {
            if escape {
                escape = false;
            } else {
                return i + 1;
            }
        }
        i += 1;
    }
    len
}

/// Parses `s[from..to]` as a base-10 `u64`: `Some` exactly when the segment
/// is nonempty, all digits, and its value fits.
pub fn parse_u64_seg(s: &str, from: usize, to: usize) -> (r: Option<u64>)
    requires
        from <= to <= s@.len(),
    ensures
        ({
            let seg = s@.subrange(from as int, to as int);
            &&& r is Some <==> is_u64_digits(seg)
            &&& r is Some ==> r->0 == digits_val(seg)
        }),
{
    let ghost seg = s@.subrange(from as int, to as int);
    if from == to {
        return None;
    }
    let mut v: u64 = 0;
    let mut i = from;
    while i < to
        invariant
            from <= i <= to <= s@.len(),
            seg == s@.subrange(from as int, to as int),
            forall|j: int| 0 <= j < i - from ==> is_digit_char(#[trigger] seg[j]),
            v == digits_val(seg.take(i - from)),
        decreases to - i,
    {
        let c = s.get_char(i);
        let cu = c as u32;
        proof {
            assert(seg[i - from] == s@[i as int]);
        }
        if cu < 48 || cu > 57 {
            proof {
                assert(!is_digit_char(seg[i - from]));
            }
            return None;
        }
        let d = (cu - 48) as u64;
        proof {
            assert(seg.take(i - from + 1).drop_last() =~= seg.take(i - from));
            assert(seg.take(i - from + 1).last() == seg[i - from]);
            assert(digits_val(seg.take(i - from + 1)) == digits_val(seg.take(i - from)) * 10
                + digit_val(seg[i - from]));
        }
        if v > (u64::MAX - d) / 10 {
            proof {
                vstd::arithmetic::div_mod::lemma_fundamental_div_mod((u64::MAX - d) as int, 10);
                assert(v * 10 + d > u64::MAX);
                if all_digits(seg) {
                    lemma_digits_val_prefix(seg, i - from + 1);
                    assert(digits_val(seg) >= digits_val(seg.take(i - from + 1)));
                }
            }
            return None;
        }
        proof {
            vstd::arithmetic::div_mod::lemma_fundamental_div_mod((u64::MAX - d) as int, 10);
            assert(v * 10 + d <= u64::MAX);
        }
        v = v * 10 + d;
        i += 1;
    }
    proof {
        assert(seg.take(to - from) =~= seg);
    }
    Some(v)
}

/// The canonical decimal numeral of `n` as a string.
pub fn u64_to_string(n: u64) -> (r: String)
    ensures
        r@ == dec_rep(n as nat),
    decreases n,
{
    if n < 10 {
        let d = digit_str(n);
        String::from_str(d)
    } else {
        let mut s = u64_to_string(n / 10);
        let d = digit_str(n % 10);
        s.append(d);
        proof {
            assert(dec_rep((n / 10) as nat) + seq![digit_char((n % 10) as nat)] =~= dec_rep(
                (n / 10) as nat,
            ).push(digit_char((n % 10) as nat)));
        }
        s
    }
}

/// The one-character numeral of a single digit.
fn digit_str(d: u64) -> (r: &'static str)
    requires
        d < 10,
    ensures
        r@ == seq![digit_char(d as nat)],
{
    if d == 0 {
        proof {
            reveal_strlit("0");
            assert("0"@ =~= seq![digit_char(0)]);
        }
        "0"
    } else if d == 1 {
        proof {
            reveal_strlit("1");
            assert("1"@ =~= seq![digit_char(1)]);
        }
        "1"
    } else if d == 2 {
        proof {
            reveal_strlit("2");
            assert("2"@ =~= seq![digit_char(2)]);
        }
        "2"
    } else if d == 3 {
        proof {
            reveal_strlit("3");
            assert("3"@ =~= seq![digit_char(3)]);
        }
        "3"
    } else if d == 4 {
        proof {
            reveal_strlit("4");
            assert("4"@ =~= seq![digit_char(4)]);
        }
        "4"
    } else if d == 5 {
        proof {
            reveal_strlit("5");
            assert("5"@ =~= seq![digit_char(5)]);
        }
        "5"
    } else if d == 6 {
        proof {
            reveal_strlit("6");
            assert("6"@ =~= seq![digit_char(6)]);
        }
        "6"
    } else if d == 7 {
        proof {
            reveal_strlit("7");
            assert("7"@ =~= seq![digit_char(7)]);
        }
        "7"
    } else if d == 8 {
        proof {
            reveal_strlit("8");
            assert("8"@ =~= seq![digit_char(8)]);
        }
        "8"
    } else {
        proof {
            reveal_strlit("9");
            assert("9"@ =~= seq![digit_char(9)]);
        }
        "9"
    }
}

/// Without an occurrence of the pair, `find_pair_at` returns the length.
pub proof fn lemma_find_pair_at_none(s: Seq<char>, a: char, b: char, from: int)
    requires
        0 <= from,
        forall|j: int| from <= j && j + 1 < s.len() ==> !(#[trigger] s[j] == a && s[j + 1] == b),
    ensures
        find_pair_at(s, a, b, from) == s.len(),
    decreases s.len() - from,
{
    if from + 1 < s.len() {
        lemma_find_pair_at_none(s, a, b, from + 1);
    }
}

} // verus!
