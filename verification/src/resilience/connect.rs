//! Normalization of CONNECT authorities (`host:port` and `[ipv6]:port`).
use vstd::prelude::*;

use crate::text::{
    chars_of, first_index, has_ws, has_ws_exec, index_of_char, last_index, last_index_of_char,
    lower_chars, lower_seq, opt_string, parse_u16, parse_u16_exec, slice, string_of, trim, trim_bounds,
    trim_end_char, trim_end_char_len,
};
use crate::text::{lemma_trim_end_char_clean, is_digit, is_first_at, is_last_at, lemma_first_index_at, lemma_first_index_some, lemma_last_index_at, lemma_last_index_some, lemma_trailing_count_le, lower};
use crate::text_num::{decimal, lemma_decimal_digits, lemma_parse_u16_decimal, push_decimal};

verus! {

/// A port from its digits when it is a number from 1 to 65535.
pub open spec fn positive_port(digits: Seq<char>) -> Option<u16> {
    match parse_u16(digits) {
        Some(p) => if p > 0 {
            Some(p)
        } else {
            None
        },
        None => None,
    }
}

/// The host as the normalized authority writes it: trailing dots removed,
/// ASCII letters lowercased.
pub open spec fn canonical_host(host: Seq<char>) -> Seq<char> {
    lower_seq(trim_end_char(host, '.'))
}

/// The normalized form of a CONNECT target, if it is one. After trimming
/// it must hold no whitespace; `[host]:port` keeps its brackets, any
/// other form is split at its last `:` and its host may hold no `:`. The
/// port must be 1-65535.
pub open spec fn spec_normalize_connect_authority(authority: Seq<char>) -> Option<Seq<char>> {
    let t = trim(authority);
    if t.len() == 0 || has_ws(t) {
        None
    } else if t[0] == '[' {
        let rest = t.skip(1);
        match first_index(rest, ']') {
            None => None,
            Some(end) => {
                let host = rest.take(end);
                let suffix = rest.skip(end + 1);
                if host.len() == 0 || !(suffix.len() > 1 && suffix[0] == ':') {
                    None
                } else {
                    match positive_port(suffix.skip(1)) {
                        Some(p) => Some("["@ + canonical_host(host) + "]:"@ + decimal(p as nat)),
                        None => None,
                    }
                }
            },
        }
    } else {
        match last_index(t, ':') {
            None => None,
            Some(k) => {
                let host = t.take(k);
                if host.len() == 0 || first_index(host, ':') is Some {
                    None
                } else {
                    match positive_port(t.skip(k + 1)) {
                        Some(p) => Some(canonical_host(host) + ":"@ + decimal(p as nat)),
                        None => None,
                    }
                }
            },
        }
    }
}

/// The port of a normalized authority: after `]:` for a bracketed host,
/// else after the last `:`.
pub open spec fn spec_connect_authority_port(s: Seq<char>) -> Option<u16> {
    if s.len() > 0 && s[0] == '[' {
        match first_index(s, ']') {
            None => None,
            Some(end) => {
                let suffix = s.skip(end + 1);
                if suffix.len() > 0 && suffix[0] == ':' {
                    parse_u16(suffix.skip(1))
                } else {
                    None
                }
            },
        }
    } else {
        match last_index(s, ':') {
            None => None,
            Some(k) => parse_u16(s.skip(k + 1)),
        }
    }
}

fn positive_port_exec(v: &[char]) -> (r: Option<u16>)
    ensures
        r == positive_port(v@),
{
    match parse_u16_exec(v) {
        Some(p) => if p > 0 {
            Some(p)
        } else {
            None
        },
        None => None,
    }
}

/// `canonical_host(v)` followed by nothing, as a string.
fn canonical_host_exec(v: &[char]) -> (s: String)
    ensures
        s@ == canonical_host(v@),
{
    let n = trim_end_char_len(v, v.len(), '.');
    let kept = slice(v, 0, n);
    proof {
        assert(kept@ =~= v@.take(n as int));
        assert(v@.take(v.len() as int) =~= v@);
    }
    let lowered = lower_chars(kept.as_slice());
    string_of(lowered.as_slice())
}

pub fn normalize_connect_authority(authority: &str) -> (r: Option<String>)
    ensures
        opt_string(r) == spec_normalize_connect_authority(authority@),
{
    let raw = chars_of(authority);
    let (a, b) = trim_bounds(raw.as_slice());
    let t = slice(raw.as_slice(), a, b);
    if t.len() == 0 || has_ws_exec(t.as_slice()) {
        return None;
    }
    if t[0] == '[' {
        let rest = slice(t.as_slice(), 1, t.len());
        proof {
            assert(rest@ =~= t@.skip(1));
        }
        let end = match index_of_char(rest.as_slice(), ']') {
            Some(e) => e,
            None => {
                return None;
            },
        };
        let host = slice(rest.as_slice(), 0, end);
        let suffix = slice(rest.as_slice(), end + 1, rest.len());
        proof {
            assert(host@ =~= rest@.take(end as int));
            assert(suffix@ =~= rest@.skip(end + 1));
        }
        if host.len() == 0 || !(suffix.len() > 1 && suffix[0] == ':') {
            return None;
        }
        let digits = slice(suffix.as_slice(), 1, suffix.len());
        proof {
            assert(digits@ =~= suffix@.skip(1));
        }
        let port = match positive_port_exec(digits.as_slice()) {
            Some(p) => p,
            None => {
                return None;
            },
        };
        let mut out = "[".to_owned();
        let h = canonical_host_exec(host.as_slice());
        out.append(h.as_str());
        out.append("]:");
        push_decimal(&mut out, port as u64);
        return Some(out);
    }
    let k = match last_index_of_char(t.as_slice(), ':') {
        Some(k) => k,
        None => {
            return None;
        },
    };
    let host = slice(t.as_slice(), 0, k);
    let port_digits = slice(t.as_slice(), k + 1, t.len());
    proof {
        assert(host@ =~= t@.take(k as int));
        assert(port_digits@ =~= t@.skip(k + 1));
    }
    if host.len() == 0 || index_of_char(host.as_slice(), ':').is_some() {
        return None;
    }
    let port = match positive_port_exec(port_digits.as_slice()) {
        Some(p) => p,
        None => {
            return None;
        },
    };
    let mut out = canonical_host_exec(host.as_slice());
    out.append(":");
    push_decimal(&mut out, port as u64);
    Some(out)
}

pub fn connect_authority_port(normalized_authority: &str) -> (r: Option<u16>)
    ensures
        r == spec_connect_authority_port(normalized_authority@),
{
    let s = chars_of(normalized_authority);
    if s.len() > 0 && s[0] == '[' {
        let end = match index_of_char(s.as_slice(), ']') {
            Some(e) => e,
            None => {
                return None;
            },
        };
        let suffix = slice(s.as_slice(), end + 1, s.len());
        proof {
            assert(suffix@ =~= s@.skip(end + 1));
        }
        if suffix.len() > 0 && suffix[0] == ':' {
            let digits = slice(suffix.as_slice(), 1, suffix.len());
            proof {
                assert(digits@ =~= suffix@.skip(1));
            }
            return parse_u16_exec(digits.as_slice());
        }
        return None;
    }
    match last_index_of_char(s.as_slice(), ':') {
        Some(k) => {
            let digits = slice(s.as_slice(), k + 1, s.len());
            proof {
                assert(digits@ =~= s@.skip(k + 1));
            }
            parse_u16_exec(digits.as_slice())
        },
        None => None,
    }
}


/// The port written in a CONNECT target, where normalization reads it:
/// after `]:` for a bracketed host, else after the last `:`; ports 1-65535.
pub open spec fn authority_port_of(authority: Seq<char>) -> Option<u16> {
    let t = trim(authority);
    if t.len() > 0 && t[0] == '[' {
        let rest = t.skip(1);
        match first_index(rest, ']') {
            None => None,
            Some(end) => positive_port(rest.skip(end + 1).skip(1)),
        }
    } else {
        match last_index(t, ':') {
            None => None,
            Some(k) => positive_port(t.skip(k + 1)),
        }
    }
}

proof fn lemma_canonical_host_char(host: Seq<char>, j: int, c: char)
    requires
        0 <= j < canonical_host(host).len(),
        c == '[' || c == ']' || c == ':',
        host[j] != c,
    ensures
        canonical_host(host)[j] != c,
{
    let kept = trim_end_char(host, '.');
    lemma_trailing_count_le(host, '.');
    assert(kept.len() == canonical_host(host).len());
    assert(kept[j] == host[j]);
    assert(canonical_host(host)[j] == lower(kept[j]));
}

/// The port that `connect_authority_port` reads from a normalized CONNECT
/// target is the port written in the target.
pub proof fn lemma_normalized_authority_port(authority: Seq<char>)
    requires
        spec_normalize_connect_authority(authority) is Some,
    ensures
        authority_port_of(authority) is Some,
        spec_connect_authority_port(spec_normalize_connect_authority(authority).unwrap())
            == authority_port_of(authority),
{
    let t = trim(authority);
    let n = spec_normalize_connect_authority(authority).unwrap();
    if t[0] == '[' {
        let rest = t.skip(1);
        lemma_first_index_some(rest, ']');
        let end = first_index(rest, ']').unwrap();
        let host = rest.take(end);
        let suffix = rest.skip(end + 1);
        let p = positive_port(suffix.skip(1)).unwrap();
        let h = canonical_host(host);
        let d = decimal(p as nat);
        reveal_strlit("[");
        reveal_strlit("]:");
        reveal_strlit(":");
        assert(n == "["@ + h + "]:"@ + d);
        lemma_decimal_digits(p as nat);
        lemma_trailing_count_le(host, '.');
        assert(h.len() <= host.len());
        let k: int = h.len() as int + 1;
        assert(n[k] == ']');
        assert forall|j: int| 0 <= j < k implies #[trigger] n[j] != ']' by {
            if j > 0 {
                assert(n[j] == h[j - 1]);
                assert(host[j - 1] == rest[j - 1]);
                assert(rest[j - 1] != ']');
                lemma_canonical_host_char(host, j - 1, ']');
            }
        }
        assert(is_first_at(n, ']', k));
        lemma_first_index_at(n, ']', k);
        assert(n.skip(k + 1) =~= ":"@ + d);
        assert(n.skip(k + 1).skip(1) =~= d);
        lemma_parse_u16_decimal(p);
    } else {
        lemma_last_index_some(t, ':');
        let k = last_index(t, ':').unwrap();
        let host = t.take(k);
        let p = positive_port(t.skip(k + 1)).unwrap();
        let h = canonical_host(host);
        let d = decimal(p as nat);
        reveal_strlit(":");
        assert(n == h + ":"@ + d);
        lemma_decimal_digits(p as nat);
        if h.len() > 0 {
            lemma_canonical_host_char(host, 0, '[');
            assert(n[0] == h[0]);
        }
        let m: int = h.len() as int;
        assert(n[m] == ':');
        assert forall|j: int| m < j < n.len() implies #[trigger] n[j] != ':' by {
            assert(n[j] == d[j - m - 1]);
            assert(is_digit(d[j - m - 1]));
        }
        assert(is_last_at(n, ':', m));
        lemma_last_index_at(n, ':', m);
        assert(n.skip(m + 1) =~= d);
        lemma_parse_u16_decimal(p);
    }
}


/// The host that normalization writes, before the port.
pub open spec fn normalized_host(authority: Seq<char>) -> Seq<char> {
    let t = trim(authority);
    if t.len() > 0 && t[0] == '[' {
        match first_index(t.skip(1), ']') {
            Some(end) => canonical_host(t.skip(1).take(end)),
            None => Seq::empty(),
        }
    } else {
        match last_index(t, ':') {
            Some(k) => canonical_host(t.take(k)),
            None => Seq::empty(),
        }
    }
}

proof fn lemma_lower_char(c: char)
    ensures
        crate::text::is_ws(lower(c)) == crate::text::is_ws(c),
        (lower(c) == '[') == (c == '['),
        (lower(c) == ']') == (c == ']'),
        (lower(c) == ':') == (c == ':'),
        (lower(c) == '.') == (c == '.'),
        lower(lower(c)) == lower(c),
        !crate::text::is_upper(lower(c)),
{
}

/// A string that neither starts nor ends with whitespace is its own trim.
proof fn lemma_trim_unchanged(s: Seq<char>)
    requires
        s.len() > 0,
        !crate::text::is_ws(s[0]),
        !crate::text::is_ws(s.last()),
    ensures
        trim(s) == s,
{
    assert(crate::text::leading_ws(s) == 0);
    assert(s.skip(0) =~= s);
    assert(crate::text::trailing_ws(s) == 0);
    assert(s.take(s.len() as int) =~= s);
}

/// A canonical host is its own canonical form.
proof fn lemma_canonical_host_idempotent(host: Seq<char>)
    ensures
        canonical_host(canonical_host(host)) == canonical_host(host),
{
    let kept = trim_end_char(host, '.');
    let h = canonical_host(host);
    lemma_trailing_count_le(host, '.');
    lemma_trim_end_char_clean(host, '.');
    if h.len() > 0 {
        assert(h.last() == lower(kept.last()));
        lemma_lower_char(kept.last());
        if kept.last() == '.' {
            assert(crate::text::trailing_count(kept, '.') > 0);
        }
        assert(crate::text::trailing_count(h, '.') == 0);
    }
    assert(trim_end_char(h, '.') =~= h);
    assert forall|j: int| 0 <= j < h.len() implies #[trigger] lower(h[j]) == h[j] by {
        lemma_lower_char(kept[j]);
    }
    assert(lower_seq(h) =~= h);
}

/// A canonical host keeps the properties of the host it came from: no
/// whitespace, `]` or `:` where the host had none, and no `[` in front.
proof fn lemma_canonical_host_chars(host: Seq<char>, j: int)
    requires
        0 <= j < canonical_host(host).len(),
    ensures
        canonical_host(host)[j] == lower(host[j]),
        j < host.len(),
{
    lemma_trailing_count_le(host, '.');
    let kept = trim_end_char(host, '.');
    assert(kept[j] == host[j]);
}

/// Normalizing a normalized CONNECT target gives it back, as long as its
/// host is not empty (a host of dots alone normalizes to nothing).
pub proof fn lemma_normalize_connect_authority_idempotent(authority: Seq<char>)
    requires
        spec_normalize_connect_authority(authority) is Some,
        normalized_host(authority).len() > 0,
    ensures
        spec_normalize_connect_authority(spec_normalize_connect_authority(authority).unwrap())
            == spec_normalize_connect_authority(authority),
{
    let t = trim(authority);
    let n = spec_normalize_connect_authority(authority).unwrap();
    reveal_strlit("[");
    reveal_strlit("]:");
    reveal_strlit(":");
    if t[0] == '[' {
        let rest = t.skip(1);
        lemma_first_index_some(rest, ']');
        let end = first_index(rest, ']').unwrap();
        let host = rest.take(end);
        let p = positive_port(rest.skip(end + 1).skip(1)).unwrap();
        let h = canonical_host(host);
        let d = decimal(p as nat);
        lemma_decimal_digits(p as nat);
        assert(n == "["@ + h + "]:"@ + d);
        let k: int = h.len() as int + 1;
        assert(n.last() == d.last());
        assert(is_digit(d[d.len() - 1]));
        lemma_trim_unchanged(n);
        assert(!has_ws(n)) by {
            assert forall|i: int| 0 <= i < n.len() implies !#[trigger] crate::text::is_ws(n[i]) by {
                if 1 <= i <= h.len() {
                    lemma_canonical_host_chars(host, i - 1);
                    lemma_lower_char(host[i - 1]);
                    assert(host[i - 1] == t[i]);
                } else if i > k + 1 {
                    assert(n[i] == d[i - k - 2]);
                    assert(is_digit(d[i - k - 2]));
                }
            }
        }
        let rest2 = n.skip(1);
        assert(rest2.take(h.len() as int) =~= h);
        assert(is_first_at(rest2, ']', h.len() as int)) by {
            assert forall|j: int| 0 <= j < h.len() implies #[trigger] rest2[j] != ']' by {
                lemma_canonical_host_chars(host, j);
                lemma_lower_char(host[j]);
                assert(host[j] == rest[j]);
            }
        }
        lemma_first_index_at(rest2, ']', h.len() as int);
        assert(rest2.skip(h.len() as int + 1) =~= ":"@ + d);
        assert(rest2.skip(h.len() as int + 1).skip(1) =~= d);
        lemma_parse_u16_decimal(p);
        lemma_canonical_host_idempotent(host);
        assert(spec_normalize_connect_authority(n) == Some("["@ + canonical_host(h) + "]:"@ + d));
    } else {
        lemma_last_index_some(t, ':');
        let k = last_index(t, ':').unwrap();
        let host = t.take(k);
        let p = positive_port(t.skip(k + 1)).unwrap();
        let h = canonical_host(host);
        let d = decimal(p as nat);
        lemma_decimal_digits(p as nat);
        assert(n == h + ":"@ + d);
        lemma_canonical_host_chars(host, 0);
        lemma_lower_char(host[0]);
        assert(host[0] == t[0]);
        assert(n[0] == h[0]);
        assert(n.last() == d.last());
        assert(is_digit(d[d.len() - 1]));
        lemma_trim_unchanged(n);
        let m: int = h.len() as int;
        assert(!has_ws(n)) by {
            assert forall|i: int| 0 <= i < n.len() implies !#[trigger] crate::text::is_ws(n[i]) by {
                if i < m {
                    lemma_canonical_host_chars(host, i);
                    lemma_lower_char(host[i]);
                    assert(host[i] == t[i]);
                } else if i > m {
                    assert(n[i] == d[i - m - 1]);
                    assert(is_digit(d[i - m - 1]));
                }
            }
        }
        assert forall|j: int| m < j < n.len() implies #[trigger] n[j] != ':' by {
            assert(n[j] == d[j - m - 1]);
            assert(is_digit(d[j - m - 1]));
        }
        assert(is_last_at(n, ':', m));
        lemma_last_index_at(n, ':', m);
        assert(n.take(m) =~= h);
        assert(n.skip(m + 1) =~= d);
        lemma_parse_u16_decimal(p);
        assert(first_index(h, ':') is None) by {
            if first_index(h, ':') is Some {
                lemma_first_index_some(h, ':');
                let j = first_index(h, ':').unwrap();
                lemma_canonical_host_chars(host, j);
                lemma_lower_char(host[j]);
                assert(is_first_at(host, ':', j)) by {
                    assert forall|i: int| 0 <= i < j implies #[trigger] host[i] != ':' by {
                        lemma_canonical_host_chars(host, i);
                        lemma_lower_char(host[i]);
                        assert(h[i] != ':');
                    }
                }
            }
        }
        lemma_canonical_host_idempotent(host);
        assert(spec_normalize_connect_authority(n) == Some(canonical_host(h) + ":"@ + d));
    }
}

/// Whether `s` holds an ASCII uppercase letter.
pub open spec fn has_upper(s: Seq<char>) -> bool {
    exists|i: int| 0 <= i < s.len() && #[trigger] crate::text::is_upper(s[i])
}

/// Every character of a normalized CONNECT target is neither whitespace
/// nor an ASCII uppercase letter.
proof fn lemma_normalized_chars(authority: Seq<char>)
    requires
        spec_normalize_connect_authority(authority) is Some,
    ensures
        !has_ws(spec_normalize_connect_authority(authority).unwrap()),
        !has_upper(spec_normalize_connect_authority(authority).unwrap()),
{
    let t = trim(authority);
    let n = spec_normalize_connect_authority(authority).unwrap();
    reveal_strlit("[");
    reveal_strlit("]:");
    reveal_strlit(":");
    if t[0] == '[' {
        let rest = t.skip(1);
        lemma_first_index_some(rest, ']');
        let end = first_index(rest, ']').unwrap();
        let host = rest.take(end);
        let p = positive_port(rest.skip(end + 1).skip(1)).unwrap();
        let h = canonical_host(host);
        let d = decimal(p as nat);
        lemma_decimal_digits(p as nat);
        assert(n == "["@ + h + "]:"@ + d);
        let k: int = h.len() as int + 1;
        assert forall|i: int| #![trigger n[i]] 0 <= i < n.len() implies !crate::text::is_ws(n[i])
            && !crate::text::is_upper(n[i]) by {
            if 1 <= i <= h.len() {
                lemma_canonical_host_chars(host, i - 1);
                lemma_lower_char(host[i - 1]);
                assert(host[i - 1] == t[i]);
            } else if i > k + 1 {
                assert(n[i] == d[i - k - 2]);
                assert(is_digit(d[i - k - 2]));
            }
        }
    } else {
        lemma_last_index_some(t, ':');
        let k = last_index(t, ':').unwrap();
        let host = t.take(k);
        let p = positive_port(t.skip(k + 1)).unwrap();
        let h = canonical_host(host);
        let d = decimal(p as nat);
        lemma_decimal_digits(p as nat);
        assert(n == h + ":"@ + d);
        let m: int = h.len() as int;
        assert forall|i: int| #![trigger n[i]] 0 <= i < n.len() implies !crate::text::is_ws(n[i])
            && !crate::text::is_upper(n[i]) by {
            if i < m {
                lemma_canonical_host_chars(host, i);
                lemma_lower_char(host[i]);
                assert(host[i] == t[i]);
            } else if i > m {
                assert(n[i] == d[i - m - 1]);
                assert(is_digit(d[i - m - 1]));
            }
        }
    }
}

/// What a normalized CONNECT target is: it holds no whitespace and no
/// ASCII uppercase letter, its port is the port 1-65535 written in the
/// target and is what `connect_authority_port` reads back, and, where its
/// host is not empty (a host of dots alone normalizes to nothing, and
/// `.:80` gives `:80`, which is refused), normalizing it again gives it back.
pub proof fn lemma_connect_authority_normal_form(authority: Seq<char>)
    requires
        spec_normalize_connect_authority(authority) is Some,
    ensures
        !has_ws(spec_normalize_connect_authority(authority).unwrap()),
        !has_upper(spec_normalize_connect_authority(authority).unwrap()),
        authority_port_of(authority) is Some,
        authority_port_of(authority).unwrap() > 0,
        spec_connect_authority_port(spec_normalize_connect_authority(authority).unwrap())
            == authority_port_of(authority),
        normalized_host(authority).len() > 0 ==> spec_normalize_connect_authority(
            spec_normalize_connect_authority(authority).unwrap(),
        ) == spec_normalize_connect_authority(authority),
{
    lemma_normalized_chars(authority);
    lemma_normalized_authority_port(authority);
    if normalized_host(authority).len() > 0 {
        lemma_normalize_connect_authority_idempotent(authority);
    }
}

} // verus!
