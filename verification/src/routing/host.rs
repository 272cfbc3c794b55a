use vstd::prelude::*;

use crate::text::{
    all_digits, all_digits_exec, chars_of, contains_char, first_index, index_of_char,
    last_index, last_index_of_char, lower_chars, lower_seq, opt_chars, opt_string, slice,
    string_of, trim, trim_end_char, trim_end_char_len, trimmed, is_upper, lower,
    lemma_trim_end_char_clean, lemma_trailing_count_le, trailing_count,
};

verus! {

/// The host of an authority whose surrounding whitespace is gone: the text
/// inside `[...]` for a bracketed host (or nothing when `]` is missing),
/// otherwise the text before the last `:` when that colon is the only one
/// and only digits follow it, otherwise the whole text.
pub open spec fn host_part(t: Seq<char>) -> Option<Seq<char>> {
    if t.len() > 0 && t[0] == '[' {
        let rest = t.drop_first();
        match first_index(rest, ']') {
            Some(e) => Some(rest.take(e)),
            None => None,
        }
    } else {
        match last_index(t, ':') {
            Some(k) => if !t.take(k).contains(':') && all_digits(t.skip(k + 1)) {
                Some(t.take(k))
            } else {
                Some(t)
            },
            None => Some(t),
        }
    }
}

/// The host that routing looks up for a raw `Host`/`:authority` value:
/// trimmed, without port or brackets, without trailing dots, and not empty.
pub open spec fn spec_parsed_host(raw: Seq<char>) -> Option<Seq<char>> {
    let t = trim(raw);
    if t.len() == 0 {
        None
    } else {
        match host_part(t) {
            None => None,
            Some(h) => {
                let h2 = trim_end_char(h, '.');
                if h2.len() == 0 {
                    None
                } else {
                    Some(h2)
                }
            },
        }
    }
}

/// The routing host in ASCII lowercase.
pub open spec fn spec_normalize_host(raw: Seq<char>) -> Option<Seq<char>> {
    match spec_parsed_host(raw) {
        Some(h) => Some(lower_seq(h)),
        None => None,
    }
}

/// A configured host: an exact name, or `*.` followed by a non-empty suffix
/// without `*`.
pub enum HostPatternView {
    Exact(Seq<char>),
    WildcardSuffix(Seq<char>),
}

pub open spec fn pattern_of(h: Seq<char>) -> HostPatternView {
    if h.len() >= 2 && h[0] == '*' && h[1] == '.' {
        let suffix = h.skip(2);
        if suffix.len() == 0 || suffix.contains('*') {
            HostPatternView::Exact(h)
        } else {
            HostPatternView::WildcardSuffix(suffix)
        }
    } else {
        HostPatternView::Exact(h)
    }
}

#[derive(Clone, Debug, PartialEq, Eq)]
pub enum ConfiguredHostPattern {
    Exact(String),
    WildcardSuffix(String),
}

impl View for ConfiguredHostPattern {
    type V = HostPatternView;

    open spec fn view(&self) -> HostPatternView {
        match self {
            ConfiguredHostPattern::Exact(s) => HostPatternView::Exact(s@),
            ConfiguredHostPattern::WildcardSuffix(s) => HostPatternView::WildcardSuffix(s@),
        }
    }
}

/// A configured host read without lowercasing.
#[derive(Clone, Debug, PartialEq, Eq)]
pub enum ConfiguredHostPatternRef {
    Exact(String),
    WildcardSuffix(String),
}

impl View for ConfiguredHostPatternRef {
    type V = HostPatternView;

    open spec fn view(&self) -> HostPatternView {
        match self {
            ConfiguredHostPatternRef::Exact(s) => HostPatternView::Exact(s@),
            ConfiguredHostPatternRef::WildcardSuffix(s) => HostPatternView::WildcardSuffix(s@),
        }
    }
}

fn host_part_exec(t: &Vec<char>) -> (r: Option<Vec<char>>)
    ensures
        opt_chars(r) == host_part(t@),
{
    if t.len() > 0 && t[0] == '[' {
        let rest = slice(t.as_slice(), 1, t.len());
        proof {
            assert(rest@ =~= t@.drop_first());
        }
        match index_of_char(rest.as_slice(), ']') {
            Some(e) => {
                let h = slice(rest.as_slice(), 0, e);
                proof {
                    assert(h@ =~= rest@.take(e as int));
                }
                Some(h)
            },
            None => None,
        }
    } else {
        match last_index_of_char(t.as_slice(), ':') {
            Some(k) => {
                let host = slice(t.as_slice(), 0, k);
                let port = slice(t.as_slice(), k + 1, t.len());
                proof {
                    assert(host@ =~= t@.take(k as int));
                    assert(port@ =~= t@.skip(k + 1));
                }
                if !contains_char(host.as_slice(), ':') && all_digits_exec(port.as_slice()) {
                    Some(host)
                } else {
                    Some(t.clone())
                }
            },
            None => Some(t.clone()),
        }
    }
}

/// The routing host of `raw`, before lowercasing.
pub fn parsed_host_for_routing(raw: &[char]) -> (r: Option<Vec<char>>)
    ensures
        opt_chars(r) == spec_parsed_host(raw@),
{
    let t = trimmed(raw);
    if t.len() == 0 {
        return None;
    }
    let h = match host_part_exec(&t) {
        Some(h) => h,
        None => {
            return None;
        },
    };
    let n = trim_end_char_len(h.as_slice(), h.len(), '.');
    proof {
        assert(h@.take(h.len() as int) =~= h@);
    }
    if n == 0 {
        return None;
    }
    let out = slice(h.as_slice(), 0, n);
    proof {
        assert(out@ =~= h@.take(n as int));
    }
    Some(out)
}

/// Whether `host` holds an ASCII uppercase letter.
pub fn host_has_uppercase_ascii(host: &str) -> (b: bool)
    ensures
        b == exists|i: int| 0 <= i < host@.len() && #[trigger] is_upper(host@[i]),
{
    let v = chars_of(host);
    let mut i: usize = 0;
    while i < v.len()
        invariant
            v@ == host@,
            0 <= i <= v.len(),
            forall|j: int| 0 <= j < i ==> !#[trigger] is_upper(v@[j]),
        decreases v.len() - i,
    {
        if 'A' <= v[i] && v[i] <= 'Z' {
            assert(is_upper(host@[i as int]));
            return true;
        }
        i += 1;
    }
    false
}

/// The host that routing looks up for `raw`, in ASCII lowercase, if any.
pub fn normalize_host_for_routing(raw: &str) -> (r: Option<String>)
    ensures
        opt_string(r) == spec_normalize_host(raw@),
{
    let v = chars_of(raw);
    match parsed_host_for_routing(v.as_slice()) {
        Some(h) => {
            let l = lower_chars(h.as_slice());
            Some(string_of(l.as_slice()))
        },
        None => None,
    }
}

fn pattern_parts(h: &Vec<char>) -> (r: (bool, Vec<char>))
    ensures
        pattern_of(h@) == (if r.0 {
            HostPatternView::WildcardSuffix(r.1@)
        } else {
            HostPatternView::Exact(r.1@)
        }),
{
    if h.len() >= 2 && h[0] == '*' && h[1] == '.' {
        let suffix = slice(h.as_slice(), 2, h.len());
        proof {
            assert(suffix@ =~= h@.skip(2));
        }
        if suffix.len() == 0 || contains_char(suffix.as_slice(), '*') {
            (false, h.clone())
        } else {
            (true, suffix)
        }
    } else {
        (false, h.clone())
    }
}

/// Parses a configured host into an exact or wildcard-suffix pattern, after
/// the same normalization as request hosts.
pub fn parse_configured_host_pattern(raw: &str) -> (r: Option<ConfiguredHostPattern>)
    ensures
        match spec_normalize_host(raw@) {
            Some(h) => r matches Some(p) && p@ == pattern_of(h),
            None => r is None,
        },
{
    let v = chars_of(raw);
    let h = match parsed_host_for_routing(v.as_slice()) {
        Some(h) => lower_chars(h.as_slice()),
        None => {
            return None;
        },
    };
    let (wild, part) = pattern_parts(&h);
    let s = string_of(part.as_slice());
    if wild {
        Some(ConfiguredHostPattern::WildcardSuffix(s))
    } else {
        Some(ConfiguredHostPattern::Exact(s))
    }
}

/// Parses a configured host into a pattern, keeping its case.
pub fn parse_configured_host_pattern_ref(raw: &str) -> (r: Option<ConfiguredHostPatternRef>)
    ensures
        match spec_parsed_host(raw@) {
            Some(h) => r matches Some(p) && p@ == pattern_of(h),
            None => r is None,
        },
{
    let v = chars_of(raw);
    let h = match parsed_host_for_routing(v.as_slice()) {
        Some(h) => h,
        None => {
            return None;
        },
    };
    let (wild, part) = pattern_parts(&h);
    let s = string_of(part.as_slice());
    if wild {
        Some(ConfiguredHostPatternRef::WildcardSuffix(s))
    } else {
        Some(ConfiguredHostPatternRef::Exact(s))
    }
}

/// A pattern with its text in ASCII lowercase.
pub open spec fn lower_pattern(p: HostPatternView) -> HostPatternView {
    match p {
        HostPatternView::Exact(h) => HostPatternView::Exact(lower_seq(h)),
        HostPatternView::WildcardSuffix(s) => HostPatternView::WildcardSuffix(lower_seq(s)),
    }
}

/// The text a pattern holds: the exact host, or the wildcard's suffix.
pub open spec fn pattern_text(p: HostPatternView) -> Seq<char> {
    match p {
        HostPatternView::Exact(h) => h,
        HostPatternView::WildcardSuffix(s) => s,
    }
}

/// The lowercasing parser of configured hosts is the case-keeping one with
/// its text lowercased: both refuse the same hosts, and where they accept,
/// they agree on the kind of pattern. Every accepted pattern's text is not
/// empty, holds no ASCII uppercase letter and does not end in `.`; a
/// wildcard's suffix holds no `*`.
pub proof fn lemma_configured_host_pattern_lowercases_ref(raw: Seq<char>)
    ensures
        spec_normalize_host(raw) is None <==> spec_parsed_host(raw) is None,
        spec_parsed_host(raw) matches Some(h) ==> pattern_of(spec_normalize_host(raw).unwrap())
            == lower_pattern(pattern_of(h)),
        spec_normalize_host(raw) matches Some(n) ==> {
            let t = pattern_text(pattern_of(n));
            &&& t.len() > 0
            &&& forall|i: int| 0 <= i < t.len() ==> !#[trigger] is_upper(t[i])
            &&& t.last() != '.'
            &&& (pattern_of(n) is WildcardSuffix ==> !t.contains('*'))
        },
{
    if let Some(h) = spec_parsed_host(raw) {
        let n = lower_seq(h);
        let t0 = trim(raw);
        let hp = host_part(t0).unwrap();
        lemma_trim_end_char_clean(hp, '.');
        lemma_trailing_count_le(hp, '.');
        assert(h.last() != '.') by {
            if h.last() == '.' {
                assert(trailing_count(h, '.') > 0);
            }
        }
        assert(n.len() == h.len());
        assert forall|i: int| 0 <= i < n.len() implies #[trigger] n[i] == lower(h[i])
            && ((n[i] == '*') == (h[i] == '*')) && ((n[i] == '.') == (h[i] == '.'))
            && !is_upper(n[i]) by {}
        let wild = n.len() >= 2 && n[0] == '*' && n[1] == '.';
        assert(wild == (h.len() >= 2 && h[0] == '*' && h[1] == '.'));
        if wild {
            let sn = n.skip(2);
            let sh = h.skip(2);
            assert(sn =~= lower_seq(sh));
            assert(sn.contains('*') == sh.contains('*')) by {
                if sn.contains('*') {
                    let i = choose|i: int| 0 <= i < sn.len() && sn[i] == '*';
                    assert(sh[i] == '*');
                }
                if sh.contains('*') {
                    let i = choose|i: int| 0 <= i < sh.len() && sh[i] == '*';
                    assert(sn[i] == n[i + 2]);
                }
            }
            if sn.len() > 0 {
                assert(sn.last() == n.last());
            }
        }
        let t = pattern_text(pattern_of(n));
        assert forall|i: int| 0 <= i < t.len() implies !#[trigger] is_upper(t[i]) by {
            if wild && !(n.skip(2).len() == 0 || n.skip(2).contains('*')) {
                assert(t[i] == n[i + 2]);
            }
        }
    }
}

} // verus!
