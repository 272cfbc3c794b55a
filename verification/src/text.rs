//! Character-level text helpers shared by the parsers of the library.
//!
//! Every function here works on the characters of a string (`s@`), the same
//! unit in which `str::trim`, `str::find` and `str::split_once` reason about
//! text.
use vstd::prelude::*;

verus! {

/// `char::is_whitespace`: the Unicode `White_Space` property.
pub open spec fn is_ws(c: char) -> bool {
    ||| ('\u{9}' <= c && c <= '\u{d}')
    ||| c == ' '
    ||| c == '\u{85}'
    ||| c == '\u{a0}'
    ||| c == '\u{1680}'
    ||| ('\u{2000}' <= c && c <= '\u{200a}')
    ||| c == '\u{2028}'
    ||| c == '\u{2029}'
    ||| c == '\u{202f}'
    ||| c == '\u{205f}'
    ||| c == '\u{3000}'
}

pub open spec fn is_digit(c: char) -> bool {
    '0' <= c && c <= '9'
}

pub open spec fn is_upper(c: char) -> bool {
    'A' <= c && c <= 'Z'
}

/// `char::to_ascii_lowercase`.
pub open spec fn lower(c: char) -> char {
    if is_upper(c) {
        ((c as u32) + 32) as char
    } else {
        c
    }
}

/// `str::to_ascii_lowercase`, character by character.
pub open spec fn lower_seq(s: Seq<char>) -> Seq<char> {
    s.map_values(|c: char| lower(c))
}

/// `str::eq_ignore_ascii_case`.
pub open spec fn eq_ignore_case(a: Seq<char>, b: Seq<char>) -> bool {
    lower_seq(a) == lower_seq(b)
}

pub open spec fn all_digits(s: Seq<char>) -> bool {
    forall|i: int| 0 <= i < s.len() ==> #[trigger] is_digit(s[i])
}

pub open spec fn has_ws(s: Seq<char>) -> bool {
    exists|i: int| 0 <= i < s.len() && #[trigger] is_ws(s[i])
}

/// Number of whitespace characters at the start of `s`.
pub open spec fn leading_ws(s: Seq<char>) -> nat
    decreases s.len(),
{
    if s.len() > 0 && is_ws(s[0]) {
        1 + leading_ws(s.drop_first())
    } else {
        0
    }
}

/// Number of characters equal to `c` at the end of `s`.
pub open spec fn trailing_count(s: Seq<char>, c: char) -> nat
    decreases s.len(),
{
    if s.len() > 0 && s.last() == c {
        1 + trailing_count(s.drop_last(), c)
    } else {
        0
    }
}

/// Number of whitespace characters at the end of `s`.
pub open spec fn trailing_ws(s: Seq<char>) -> nat
    decreases s.len(),
{
    if s.len() > 0 && is_ws(s.last()) {
        1 + trailing_ws(s.drop_last())
    } else {
        0
    }
}

/// `str::trim_start`.
pub open spec fn trim_start(s: Seq<char>) -> Seq<char> {
    s.skip(leading_ws(s) as int)
}

/// `str::trim_end`.
pub open spec fn trim_end(s: Seq<char>) -> Seq<char> {
    s.take(s.len() - trailing_ws(s))
}

/// `str::trim`.
pub open spec fn trim(s: Seq<char>) -> Seq<char> {
    trim_end(trim_start(s))
}

/// `str::trim_end_matches(c)` for a single character.
pub open spec fn trim_end_char(s: Seq<char>, c: char) -> Seq<char> {
    s.take(s.len() - trailing_count(s, c))
}

/// Decimal value of a string of ASCII digits.
pub open spec fn digits_value(s: Seq<char>) -> nat
    decreases s.len(),
{
    if s.len() == 0 {
        0
    } else {
        digits_value(s.drop_last()) * 10 + ((s.last() as u32) - ('0' as u32)) as nat
    }
}

/// The digits that `u16::from_str` reads: an optional leading `+` is skipped.
pub open spec fn unsigned_digits(s: Seq<char>) -> Seq<char> {
    if s.len() > 0 && s[0] == '+' {
        s.drop_first()
    } else {
        s
    }
}

/// `s.parse::<u16>().ok()`.
pub open spec fn parse_u16(s: Seq<char>) -> Option<u16> {
    let d = unsigned_digits(s);
    if d.len() > 0 && all_digits(d) && digits_value(d) <= 65535 {
        Some(digits_value(d) as u16)
    } else {
        None
    }
}

/// `String::push`, whose documentation says that it appends the character.
#[verifier::external_body]
pub(crate) fn push_char(s: &mut String, c: char)
    ensures
        final(s)@ == old(s)@.push(c),
{
    s.push(c);
}

/// The characters of `s`, in order.
pub fn chars_of(s: &str) -> (out: Vec<char>)
    ensures
        out@ == s@,
{
    let mut out: Vec<char> = Vec::new();
    for c in it: s.chars()
        invariant
            out@ == it.seq().take(it.index() as int),
            it.seq() == s@,
    {
        out.push(c);
    }
    out
}

/// A string made of the characters of `v`.
pub fn string_of(v: &[char]) -> (out: String)
    ensures
        out@ == v@,
{
    let mut out = String::new();
    let mut i: usize = 0;
    while i < v.len()
        invariant
            0 <= i <= v.len(),
            out@ == v@.take(i as int),
        decreases v.len() - i,
    {
        push_char(&mut out, v[i]);
        proof {
            assert(v@.take(i as int).push(v@[i as int]) =~= v@.take(i + 1));
        }
        i += 1;
    }
    proof {
        assert(v@.take(v.len() as int) =~= v@);
    }
    out
}

/// The characters of `v` from `start` up to `end`.
pub fn slice(v: &[char], start: usize, end: usize) -> (out: Vec<char>)
    requires
        start <= end <= v.len(),
    ensures
        out@ == v@.subrange(start as int, end as int),
{
    let mut out: Vec<char> = Vec::new();
    let mut i: usize = start;
    while i < end
        invariant
            start <= i <= end <= v.len(),
            out@ == v@.subrange(start as int, i as int),
        decreases end - i,
    {
        out.push(v[i]);
        proof {
            assert(v@.subrange(start as int, i as int).push(v@[i as int]) =~= v@.subrange(
                start as int,
                i + 1,
            ));
        }
        i += 1;
    }
    out
}

pub fn is_ws_char(c: char) -> (b: bool)
    ensures
        b == is_ws(c),
{
    ('\u{9}' <= c && c <= '\u{d}') || c == ' ' || c == '\u{85}' || c == '\u{a0}' || c == '\u{1680}'
        || ('\u{2000}' <= c && c <= '\u{200a}') || c == '\u{2028}' || c == '\u{2029}' || c
        == '\u{202f}' || c == '\u{205f}' || c == '\u{3000}'
}

pub fn lower_char(c: char) -> (out: char)
    ensures
        out == lower(c),
{
    if 'A' <= c && c <= 'Z' {
        let u: u32 = c as u32;
        let l: u32 = u + 32;
        proof {
            assert(0x61 <= l <= 0x7a);
        }
        let b: u8 = l as u8;
        b as char
    } else {
        c
    }
}

proof fn lemma_leading_ws_skip(s: Seq<char>, i: int)
    requires
        0 <= i <= s.len(),
        forall|j: int| 0 <= j < i ==> #[trigger] is_ws(s[j]),
    ensures
        leading_ws(s) == i + leading_ws(s.skip(i)),
    decreases i,
{
    if i > 0 {
        assert(is_ws(s[0]));
        let t = s.drop_first();
        assert forall|j: int| 0 <= j < i - 1 implies #[trigger] is_ws(t[j]) by {
            assert(t[j] == s[j + 1]);
        }
        lemma_leading_ws_skip(t, i - 1);
        assert(t.skip(i - 1) =~= s.skip(i));
    } else {
        assert(s.skip(0) =~= s);
    }
}

proof fn lemma_trailing_ws_take(s: Seq<char>, k: int)
    requires
        0 <= k <= s.len(),
        forall|j: int| k <= j < s.len() ==> #[trigger] is_ws(s[j]),
    ensures
        trailing_ws(s) == (s.len() - k) + trailing_ws(s.take(k)),
    decreases s.len() - k,
{
    if k < s.len() {
        assert(is_ws(s.last()));
        let t = s.drop_last();
        lemma_trailing_ws_take(t, k);
        assert(t.take(k) =~= s.take(k));
    } else {
        assert(s.take(k) =~= s);
    }
}

proof fn lemma_trailing_count_take(s: Seq<char>, c: char, k: int)
    requires
        0 <= k <= s.len(),
        forall|j: int| k <= j < s.len() ==> #[trigger] s[j] == c,
    ensures
        trailing_count(s, c) == (s.len() - k) + trailing_count(s.take(k), c),
    decreases s.len() - k,
{
    if k < s.len() {
        assert(s[s.len() - 1] == c);
        let t = s.drop_last();
        lemma_trailing_count_take(t, c, k);
        assert(t.take(k) =~= s.take(k));
    } else {
        assert(s.take(k) =~= s);
    }
}

/// Bounds `(a, b)` such that `v[a..b]` is `trim(v)`.
pub fn trim_bounds(v: &[char]) -> (r: (usize, usize))
    ensures
        r.0 <= r.1 <= v.len(),
        v@.subrange(r.0 as int, r.1 as int) == trim(v@),
        r.0 == leading_ws(v@),
{
    let mut a: usize = 0;
    while a < v.len() && is_ws_char(v[a])
        invariant
            0 <= a <= v.len(),
            forall|j: int| 0 <= j < a ==> #[trigger] is_ws(v@[j]),
        decreases v.len() - a,
    {
        a += 1;
    }
    proof {
        lemma_leading_ws_skip(v@, a as int);
        let rest = v@.skip(a as int);
        if rest.len() > 0 {
            assert(rest[0] == v@[a as int]);
        }
        assert(leading_ws(rest) == 0);
    }
    let mut b: usize = v.len();
    while b > a && is_ws_char(v[b - 1])
        invariant
            a <= b <= v.len(),
            forall|j: int| b <= j < v.len() ==> #[trigger] is_ws(v@[j]),
        decreases b - a,
    {
        b -= 1;
    }
    proof {
        let ts = v@.skip(a as int);
        let k = (b - a) as int;
        assert forall|j: int| k <= j < ts.len() implies #[trigger] is_ws(ts[j]) by {
            assert(ts[j] == v@[a + j]);
        }
        lemma_trailing_ws_take(ts, k);
        let tk = ts.take(k);
        if tk.len() > 0 {
            assert(tk.last() == v@[b - 1]);
        }
        assert(trailing_ws(tk) == 0);
        assert(v@.subrange(a as int, b as int) =~= ts.take(k));
    }
    (a, b)
}

/// Length of `v[..end]` once trailing `c` characters are removed.
pub fn trim_end_char_len(v: &[char], end: usize, c: char) -> (n: usize)
    requires
        end <= v.len(),
    ensures
        n <= end,
        v@.take(n as int) == trim_end_char(v@.take(end as int), c),
{
    let mut b: usize = end;
    while b > 0 && v[b - 1] == c
        invariant
            b <= end <= v.len(),
            forall|j: int| b <= j < end ==> #[trigger] v@[j] == c,
        decreases b,
    {
        b -= 1;
    }
    proof {
        let s = v@.take(end as int);
        assert forall|j: int| b <= j < s.len() implies #[trigger] s[j] == c by {
            assert(s[j] == v@[j]);
        }
        lemma_trailing_count_take(s, c, b as int);
        let t = s.take(b as int);
        if t.len() > 0 {
            assert(t.last() == v@[b - 1]);
        }
        assert(trailing_count(t, c) == 0);
        assert(v@.take(b as int) =~= s.take(b as int));
    }
    b
}

/// `trim(v)` as a new vector.
pub fn trimmed(v: &[char]) -> (out: Vec<char>)
    ensures
        out@ == trim(v@),
{
    let (a, b) = trim_bounds(v);
    slice(v, a, b)
}

/// Index of the first `c` in `v[from..]`.
pub fn find_from(v: &[char], from: usize, c: char) -> (r: Option<usize>)
    requires
        from <= v.len(),
    ensures
        match r {
            Some(k) => from <= k < v.len() && v@[k as int] == c && forall|j: int|
                from <= j < k ==> #[trigger] v@[j] != c,
            None => forall|j: int| from <= j < v.len() ==> #[trigger] v@[j] != c,
        },
{
    let mut i: usize = from;
    while i < v.len()
        invariant
            from <= i <= v.len(),
            forall|j: int| from <= j < i ==> #[trigger] v@[j] != c,
        decreases v.len() - i,
    {
        if v[i] == c {
            return Some(i);
        }
        i += 1;
    }
    None
}

/// Index of the last `c` in `v`.
pub fn find_last(v: &[char], c: char) -> (r: Option<usize>)
    ensures
        match r {
            Some(k) => k < v.len() && v@[k as int] == c && forall|j: int|
                k < j < v.len() ==> #[trigger] v@[j] != c,
            None => forall|j: int| 0 <= j < v.len() ==> #[trigger] v@[j] != c,
        },
{
    let mut i: usize = v.len();
    while i > 0
        invariant
            i <= v.len(),
            forall|j: int| i <= j < v.len() ==> #[trigger] v@[j] != c,
        decreases i,
    {
        if v[i - 1] == c {
            return Some(i - 1);
        }
        i -= 1;
    }
    None
}

/// Whether `v` contains `c`.
pub fn contains_char(v: &[char], c: char) -> (b: bool)
    ensures
        b == v@.contains(c),
{
    match find_from(v, 0, c) {
        Some(k) => {
            assert(v@[k as int] == c);
            true
        },
        None => false,
    }
}

/// Whether every character of `v` is an ASCII digit.
pub fn all_digits_exec(v: &[char]) -> (b: bool)
    ensures
        b == all_digits(v@),
{
    let mut i: usize = 0;
    while i < v.len()
        invariant
            0 <= i <= v.len(),
            forall|j: int| 0 <= j < i ==> #[trigger] is_digit(v@[j]),
        decreases v.len() - i,
    {
        if !('0' <= v[i] && v[i] <= '9') {
            assert(!is_digit(v@[i as int]));
            return false;
        }
        i += 1;
    }
    true
}

/// Whether some character of `v` is whitespace.
pub fn has_ws_exec(v: &[char]) -> (b: bool)
    ensures
        b == has_ws(v@),
{
    let mut i: usize = 0;
    while i < v.len()
        invariant
            0 <= i <= v.len(),
            forall|j: int| 0 <= j < i ==> !#[trigger] is_ws(v@[j]),
        decreases v.len() - i,
    {
        if is_ws_char(v[i]) {
            return true;
        }
        i += 1;
    }
    false
}

/// `lower_seq(v)` as a new vector.
pub fn lower_chars(v: &[char]) -> (out: Vec<char>)
    ensures
        out@ == lower_seq(v@),
{
    let mut out: Vec<char> = Vec::new();
    let mut i: usize = 0;
    while i < v.len()
        invariant
            0 <= i <= v.len(),
            out@ == lower_seq(v@.take(i as int)),
        decreases v.len() - i,
    {
        let l = lower_char(v[i]);
        out.push(l);
        proof {
            assert(lower_seq(v@.take(i as int)).push(l) =~= lower_seq(v@.take(i + 1)));
        }
        i += 1;
    }
    proof {
        assert(v@.take(v.len() as int) =~= v@);
    }
    out
}

/// `eq_ignore_case(a, b)`.
pub fn eq_ignore_case_exec(a: &[char], b: &[char]) -> (r: bool)
    ensures
        r == eq_ignore_case(a@, b@),
{
    if a.len() != b.len() {
        proof {
            assert(lower_seq(a@).len() != lower_seq(b@).len());
        }
        return false;
    }
    let mut i: usize = 0;
    while i < a.len()
        invariant
            a.len() == b.len(),
            0 <= i <= a.len(),
            forall|j: int| 0 <= j < i ==> #[trigger] lower(a@[j]) == lower(b@[j]),
        decreases a.len() - i,
    {
        if lower_char(a[i]) != lower_char(b[i]) {
            proof {
                assert(lower_seq(a@)[i as int] != lower_seq(b@)[i as int]);
            }
            return false;
        }
        i += 1;
    }
    proof {
        assert(lower_seq(a@) =~= lower_seq(b@));
    }
    true
}

/// `eq_ignore_case(a, lit)` for a string literal `lit`.
pub fn eq_ignore_case_str(a: &[char], lit: &str) -> (r: bool)
    ensures
        r == eq_ignore_case(a@, lit@),
{
    let b = chars_of(lit);
    eq_ignore_case_exec(a, b.as_slice())
}

/// Whether `a` equals the literal `lit`.
pub fn eq_str(a: &[char], lit: &str) -> (r: bool)
    ensures
        r == (a@ == lit@),
{
    let b = chars_of(lit);
    if a.len() != b.len() {
        assert(a@.len() != lit@.len());
        return false;
    }
    let mut i: usize = 0;
    while i < a.len()
        invariant
            a.len() == b.len(),
            b@ == lit@,
            0 <= i <= a.len(),
            forall|j: int| 0 <= j < i ==> #[trigger] a@[j] == b@[j],
        decreases a.len() - i,
    {
        if a[i] != b[i] {
            assert(a@[i as int] != lit@[i as int]);
            return false;
        }
        i += 1;
    }
    proof {
        assert(a@ =~= b@);
    }
    true
}

/// Whether `a` starts with the characters of `lit`.
pub fn starts_with_str(a: &[char], lit: &str) -> (r: bool)
    ensures
        r == (lit@.len() <= a@.len() && a@.take(lit@.len() as int) == lit@),
{
    let b = chars_of(lit);
    if a.len() < b.len() {
        return false;
    }
    let mut i: usize = 0;
    while i < b.len()
        invariant
            b.len() <= a.len(),
            b@ == lit@,
            0 <= i <= b.len(),
            forall|j: int| 0 <= j < i ==> #[trigger] a@[j] == b@[j],
        decreases b.len() - i,
    {
        if a[i] != b[i] {
            proof {
                assert(a@.take(b.len() as int)[i as int] != b@[i as int]);
            }
            return false;
        }
        i += 1;
    }
    proof {
        assert(a@.take(b.len() as int) =~= b@);
    }
    true
}

proof fn lemma_digits_value_push(s: Seq<char>, c: char)
    ensures
        digits_value(s.push(c)) == digits_value(s) * 10 + ((c as u32) - ('0' as u32)) as nat,
{
    assert(s.push(c).drop_last() =~= s);
}

/// `parse_u16(v)`, the value that `str::parse::<u16>` gives.
pub fn parse_u16_exec(v: &[char]) -> (r: Option<u16>)
    ensures
        r == parse_u16(v@),
{
    let start: usize = if v.len() > 0 && v[0] == '+' {
        1
    } else {
        0
    };
    let ghost d = unsigned_digits(v@);
    proof {
        if start == 1 {
            assert(d =~= v@.skip(1));
        } else {
            assert(d =~= v@.skip(0));
        }
    }
    if start >= v.len() {
        return None;
    }
    let mut value: u32 = 0;
    let mut i: usize = start;
    while i < v.len()
        invariant
            start <= i <= v.len(),
            d == v@.skip(start as int),
            d == unsigned_digits(v@),
            forall|j: int| start <= j < i ==> #[trigger] is_digit(v@[j]),
            value == digits_value(v@.subrange(start as int, i as int)),
            value <= 65535,
        decreases v.len() - i,
    {
        let c = v[i];
        if !('0' <= c && c <= '9') {
            proof {
                assert(d[i - start] == c);
                assert(!is_digit(d[i - start]));
                assert(!all_digits(d));
                assert(parse_u16(v@) is None);
            }
            return None;
        }
        let digit: u32 = (c as u32) - ('0' as u32);
        let next: u32 = value * 10 + digit;
        proof {
            lemma_digits_value_push(v@.subrange(start as int, i as int), c);
            assert(v@.subrange(start as int, i as int).push(c) =~= v@.subrange(
                start as int,
                i + 1,
            ));
        }
        if next > 65535 {
            proof {
                assert(d.take((i + 1 - start) as int) =~= v@.subrange(start as int, i + 1));
                if all_digits(d) {
                    lemma_digits_value_prefix_le(d, (i + 1 - start) as int);
                    assert(digits_value(d) > 65535);
                }
                assert(parse_u16(v@) is None);
            }
            return None;
        }
        value = next;
        i += 1;
    }
    proof {
        assert(v@.subrange(start as int, v.len() as int) =~= d);
        assert forall|j: int| 0 <= j < d.len() implies #[trigger] is_digit(d[j]) by {
            assert(d[j] == v@[start + j]);
        }
    }
    Some(value as u16)
}

/// A longer prefix of digits never has a smaller value.
proof fn lemma_digits_value_prefix_le(s: Seq<char>, k: int)
    requires
        0 <= k <= s.len(),
        all_digits(s),
    ensures
        digits_value(s.take(k)) <= digits_value(s),
    decreases s.len() - k,
{
    if k < s.len() {
        let t = s.drop_last();
        assert forall|j: int| 0 <= j < t.len() implies #[trigger] is_digit(t[j]) by {
            assert(t[j] == s[j]);
        }
        lemma_digits_value_prefix_le(t, k);
        assert(t.take(k) =~= s.take(k));
        assert(is_digit(s[s.len() - 1]));
        assert(digits_value(s) == digits_value(t) * 10 + ((s.last() as u32) - ('0' as u32)) as nat);
    } else {
        assert(s.take(k) =~= s);
    }
}

pub open spec fn is_first_at(s: Seq<char>, c: char, k: int) -> bool {
    0 <= k < s.len() && s[k] == c && forall|j: int| 0 <= j < k ==> #[trigger] s[j] != c
}

pub open spec fn is_last_at(s: Seq<char>, c: char, k: int) -> bool {
    0 <= k < s.len() && s[k] == c && forall|j: int| k < j < s.len() ==> #[trigger] s[j] != c
}

/// Position of the first `c` in `s` (`str::find` on a character).
pub open spec fn first_index(s: Seq<char>, c: char) -> Option<int> {
    if exists|k: int| is_first_at(s, c, k) {
        Some(choose|k: int| is_first_at(s, c, k))
    } else {
        None
    }
}

/// Position of the last `c` in `s` (`str::rfind` on a character).
pub open spec fn last_index(s: Seq<char>, c: char) -> Option<int> {
    if exists|k: int| is_last_at(s, c, k) {
        Some(choose|k: int| is_last_at(s, c, k))
    } else {
        None
    }
}

/// `first_index` as a computation.
pub fn index_of_char(v: &[char], c: char) -> (r: Option<usize>)
    ensures
        match r {
            Some(k) => k < v.len() && first_index(v@, c) == Some(k as int),
            None => first_index(v@, c) is None,
        },
{
    match find_from(v, 0, c) {
        Some(k) => {
            proof {
                assert(is_first_at(v@, c, k as int));
                let k2 = choose|k2: int| is_first_at(v@, c, k2);
                if k2 < k {
                    assert(v@[k2] != c);
                }
                if k < k2 {
                    assert(v@[k as int] != c);
                }
            }
            Some(k)
        },
        None => {
            proof {
                if exists|k: int| is_first_at(v@, c, k) {
                    let k2 = choose|k2: int| is_first_at(v@, c, k2);
                    assert(v@[k2] == c);
                }
            }
            None
        },
    }
}

/// `last_index` as a computation.
pub fn last_index_of_char(v: &[char], c: char) -> (r: Option<usize>)
    ensures
        match r {
            Some(k) => k < v.len() && last_index(v@, c) == Some(k as int),
            None => last_index(v@, c) is None,
        },
{
    match find_last(v, c) {
        Some(k) => {
            proof {
                assert(is_last_at(v@, c, k as int));
                let k2 = choose|k2: int| is_last_at(v@, c, k2);
                if k2 < k {
                    assert(v@[k as int] != c);
                }
                if k < k2 {
                    assert(v@[k2] != c);
                }
            }
            Some(k)
        },
        None => {
            proof {
                if exists|k: int| is_last_at(v@, c, k) {
                    let k2 = choose|k2: int| is_last_at(v@, c, k2);
                    assert(v@[k2] == c);
                }
            }
            None
        },
    }
}

/// A vector's characters, as an optional sequence.
pub open spec fn opt_chars(o: Option<Vec<char>>) -> Option<Seq<char>> {
    match o {
        Some(v) => Some(v@),
        None => None,
    }
}

/// A string's characters, as an optional sequence.
pub open spec fn opt_string(o: Option<String>) -> Option<Seq<char>> {
    match o {
        Some(v) => Some(v@),
        None => None,
    }
}


/// The first occurrence found at `k` is the one `first_index` reports.
pub proof fn lemma_first_index_at(s: Seq<char>, c: char, k: int)
    requires
        is_first_at(s, c, k),
    ensures
        first_index(s, c) == Some(k),
{
    let k2 = choose|k2: int| is_first_at(s, c, k2);
    assert(is_first_at(s, c, k2));
    if k2 < k {
        assert(s[k2] != c);
    }
    if k < k2 {
        assert(s[k] != c);
    }
}

/// The last occurrence found at `k` is the one `last_index` reports.
pub proof fn lemma_last_index_at(s: Seq<char>, c: char, k: int)
    requires
        is_last_at(s, c, k),
    ensures
        last_index(s, c) == Some(k),
{
    let k2 = choose|k2: int| is_last_at(s, c, k2);
    assert(is_last_at(s, c, k2));
    if k2 < k {
        assert(s[k] != c);
    }
    if k < k2 {
        assert(s[k2] != c);
    }
}

/// `first_index` reports a position that holds `c` with no `c` before it.
pub proof fn lemma_first_index_some(s: Seq<char>, c: char)
    requires
        first_index(s, c) is Some,
    ensures
        is_first_at(s, c, first_index(s, c).unwrap()),
{
}

/// `last_index` reports a position that holds `c` with no `c` after it.
pub proof fn lemma_last_index_some(s: Seq<char>, c: char)
    requires
        last_index(s, c) is Some,
    ensures
        is_last_at(s, c, last_index(s, c).unwrap()),
{
}


/// At most every character of `s` is a trailing `c`.
pub proof fn lemma_trailing_count_le(s: Seq<char>, c: char)
    ensures
        trailing_count(s, c) <= s.len(),
    decreases s.len(),
{
    if s.len() > 0 && s.last() == c {
        lemma_trailing_count_le(s.drop_last(), c);
    }
}


pub open spec fn is_first_ws_at(s: Seq<char>, k: int) -> bool {
    0 <= k < s.len() && is_ws(s[k]) && forall|j: int| 0 <= j < k ==> !#[trigger] is_ws(s[j])
}

/// Position of the first whitespace character of `s` (`str::find` with
/// `char::is_whitespace`).
pub open spec fn first_ws(s: Seq<char>) -> Option<int> {
    if exists|k: int| is_first_ws_at(s, k) {
        Some(choose|k: int| is_first_ws_at(s, k))
    } else {
        None
    }
}

/// `first_ws` as a computation.
pub fn first_ws_index(v: &[char]) -> (r: Option<usize>)
    ensures
        match r {
            Some(k) => k < v.len() && first_ws(v@) == Some(k as int),
            None => first_ws(v@) is None,
        },
{
    let mut i: usize = 0;
    while i < v.len()
        invariant
            0 <= i <= v.len(),
            forall|j: int| 0 <= j < i ==> !#[trigger] is_ws(v@[j]),
        decreases v.len() - i,
    {
        if is_ws_char(v[i]) {
            proof {
                assert(is_first_ws_at(v@, i as int));
                let k2 = choose|k2: int| is_first_ws_at(v@, k2);
                if k2 < i {
                    assert(!is_ws(v@[k2]));
                }
                if i < k2 {
                    assert(!is_ws(v@[i as int]));
                }
            }
            return Some(i);
        }
        i += 1;
    }
    proof {
        if exists|k: int| is_first_ws_at(v@, k) {
            let k2 = choose|k2: int| is_first_ws_at(v@, k2);
            assert(is_ws(v@[k2]));
        }
    }
    None
}


/// The pieces of `s` between occurrences of `c` (`str::split` on a
/// character): one more piece than there are separators.
pub open spec fn split_char(s: Seq<char>, c: char) -> Seq<Seq<char>>
    decreases s.len(),
{
    match first_index(s, c) {
        None => seq![s],
        Some(k) => if 0 <= k < s.len() {
            seq![s.take(k)] + split_char(s.skip(k + 1), c)
        } else {
            seq![s]
        },
    }
}

/// Splitting at the first separator found from `start` on.
pub proof fn lemma_split_step(s: Seq<char>, c: char, start: int, k: int)
    requires
        0 <= start <= k < s.len(),
        s[k] == c,
        forall|j: int| start <= j < k ==> s[j] != c,
    ensures
        split_char(s.skip(start), c) == seq![s.subrange(start, k)] + split_char(s.skip(k + 1), c),
{
    let r = s.skip(start);
    assert(is_first_at(r, c, k - start)) by {
        assert(r[k - start] == s[k]);
        assert forall|j: int| 0 <= j < k - start implies #[trigger] r[j] != c by {
            assert(r[j] == s[start + j]);
        }
    }
    lemma_first_index_at(r, c, k - start);
    assert(r.take(k - start) =~= s.subrange(start, k));
    assert(r.skip(k - start + 1) =~= s.skip(k + 1));
}

/// Splitting what holds no separator gives it whole.
pub proof fn lemma_split_last(s: Seq<char>, c: char, start: int)
    requires
        0 <= start <= s.len(),
        forall|j: int| start <= j < s.len() ==> s[j] != c,
    ensures
        split_char(s.skip(start), c) == seq![s.skip(start)],
{
    let r = s.skip(start);
    if first_index(r, c) is Some {
        lemma_first_index_some(r, c);
        let k = first_index(r, c).unwrap();
        assert(r[k] == s[start + k]);
    }
}

/// Once trailing `c` are removed, none is left.
pub proof fn lemma_trim_end_char_clean(s: Seq<char>, c: char)
    ensures
        trailing_count(trim_end_char(s, c), c) == 0,
    decreases s.len(),
{
    if s.len() > 0 && s.last() == c {
        lemma_trim_end_char_clean(s.drop_last(), c);
        lemma_trailing_count_le(s.drop_last(), c);
        assert(trim_end_char(s, c) =~= trim_end_char(s.drop_last(), c));
    } else {
        assert(trim_end_char(s, c) =~= s);
    }
}

} // verus!
