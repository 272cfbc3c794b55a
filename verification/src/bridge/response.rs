//! Normalization of upstream response headers and trailers: hop-by-hop
//! headers and those named by `Connection` are dropped, and headers that a
//! protocol forbids are left out.
use vstd::prelude::*;

use crate::config::validate::strings_view;
use crate::text::{
    chars_of, eq_ignore_case, eq_ignore_case_str, eq_str, find_from, lemma_split_last,
    lemma_split_step, lower_chars, lower_seq, slice, split_char, string_of, trim, trimmed,
};

verus! {

#[derive(Clone, Copy, Debug, Eq, PartialEq, Structural)]
pub enum ResponseNormalizationProtocol {
    Http1,
    Http3,
}

#[derive(Clone, Copy, Debug, Eq, PartialEq, Structural)]
pub enum ResponseBodyMode {
    Normal,
    HeadRequest,
    BodylessRequest,
    TunnelSuccess,
}

#[derive(Clone, Copy, Debug, Eq, PartialEq, Structural)]
pub enum ResponseBodyPolicy {
    Forward,
    Suppress,
}

#[derive(Clone, Copy, Debug, Eq, PartialEq, Structural)]
pub enum ContentLengthPolicy {
    Preserve,
    Strip,
}

#[derive(Clone, Copy, Debug, Eq, PartialEq, Structural)]
pub enum ContentTypePolicy {
    Preserve,
    SynthesizeTextPlain,
}

#[derive(Clone, Copy, Debug, Eq, PartialEq, Structural)]
pub struct ResponseProtocolConstraints {
    pub protocol: ResponseNormalizationProtocol,
    pub strip_connection_headers: bool,
    pub allow_trailers: bool,
    pub preserve_upgrade: bool,
}

#[derive(Clone, Copy, Debug, Eq, PartialEq, Structural)]
pub struct ResponseEmissionPolicy {
    pub body: ResponseBodyPolicy,
    pub content_length: ContentLengthPolicy,
    pub content_type: ContentTypePolicy,
    pub emit_end_stream_on_headers: bool,
}

/// A header as it is passed on: its (lowercase) name and its value bytes.
#[derive(Clone, Debug, Eq, PartialEq)]
pub struct NormalizedHeader {
    pub name: String,
    pub value: Vec<u8>,
}

/// An upstream response as normalization reads it: the status, and the
/// headers and trailers as (lowercase name, value bytes) pairs.
#[derive(Debug)]
pub struct UpstreamResponseView<'a> {
    pub status: u16,
    pub headers: &'a Vec<(String, Vec<u8>)>,
    pub trailers: Option<&'a Vec<(String, Vec<u8>)>>,
}

#[derive(Debug)]
pub struct ResponseNormalizationInput<'a> {
    pub upstream: UpstreamResponseView<'a>,
    pub body_mode: ResponseBodyMode,
    pub constraints: ResponseProtocolConstraints,
}

#[derive(Debug)]
pub struct NormalizedResponseHead {
    pub status: u16,
    pub headers: Vec<NormalizedHeader>,
}

#[derive(Debug)]
pub struct NormalizedResponse {
    pub head: NormalizedResponseHead,
    pub trailers: Vec<NormalizedHeader>,
    pub emission: ResponseEmissionPolicy,
}

/// A header value byte that `HeaderValue::to_str` accepts: visible ASCII
/// or a tab.
pub open spec fn is_visible_ascii(b: u8) -> bool {
    (32 <= b && b < 127) || b == 9
}

/// The text of a header value, when every byte is visible ASCII or a tab
/// (as `HeaderValue::to_str` yields it).
pub open spec fn header_value_text(value: Seq<u8>) -> Option<Seq<char>> {
    if forall|i: int| 0 <= i < value.len() ==> #[trigger] is_visible_ascii(value[i]) {
        Some(value.map_values(|b: u8| b as char))
    } else {
        None
    }
}

fn header_value_chars(value: &Vec<u8>) -> (r: Option<Vec<char>>)
    ensures
        match r {
            Some(c) => header_value_text(value@) == Some(c@),
            None => header_value_text(value@) is None,
        },
{
    let mut out: Vec<char> = Vec::new();
    let mut i: usize = 0;
    while i < value.len()
        invariant
            0 <= i <= value.len(),
            forall|j: int| 0 <= j < i ==> #[trigger] is_visible_ascii(value@[j]),
            out@ == value@.take(i as int).map_values(|b: u8| b as char),
        decreases value.len() - i,
    {
        let b = value[i];
        if !((32 <= b && b < 127) || b == 9) {
            assert(!is_visible_ascii(value@[i as int]));
            return None;
        }
        out.push(b as char);
        proof {
            assert(value@.take(i + 1).map_values(|b: u8| b as char) =~= value@.take(
                i as int,
            ).map_values(|b: u8| b as char).push(b as char));
        }
        i += 1;
    }
    proof {
        assert(value@.take(value.len() as int) =~= value@);
    }
    Some(out)
}

/// The tokens of a `Connection` value: its comma-separated parts, trimmed
/// and lowercased, without empty ones.
pub open spec fn value_tokens(parts: Seq<Seq<char>>) -> Seq<Seq<char>>
    decreases parts.len(),
{
    if parts.len() == 0 {
        Seq::empty()
    } else {
        let t = lower_seq(trim(parts[0]));
        if t.len() > 0 {
            seq![t] + value_tokens(parts.drop_first())
        } else {
            value_tokens(parts.drop_first())
        }
    }
}

/// Every token of every readable `Connection` header, in order.
pub open spec fn connection_tokens(headers: Seq<(String, Vec<u8>)>) -> Seq<Seq<char>>
    decreases headers.len(),
{
    if headers.len() == 0 {
        Seq::empty()
    } else {
        let here = if headers[0].0@ == "connection"@ {
            match header_value_text(headers[0].1@) {
                Some(text) => value_tokens(split_char(text, ',')),
                None => Seq::empty(),
            }
        } else {
            Seq::empty()
        };
        here + connection_tokens(headers.drop_first())
    }
}

fn contains_token(tokens: &Vec<String>, token: &[char]) -> (b: bool)
    ensures
        b == strings_view(tokens@).contains(token@),
{
    let mut i: usize = 0;
    while i < tokens.len()
        invariant
            0 <= i <= tokens.len(),
            forall|j: int| 0 <= j < i ==> #[trigger] tokens@[j]@ != token@,
        decreases tokens.len() - i,
    {
        if eq_str(token, tokens[i].as_str()) {
            proof {
                assert(strings_view(tokens@)[i as int] == token@);
            }
            return true;
        }
        i += 1;
    }
    proof {
        if strings_view(tokens@).contains(token@) {
            let j = choose|j: int| 0 <= j < strings_view(tokens@).len() && strings_view(tokens@)[j] == token@;
            assert(tokens@[j]@ == token@);
        }
    }
    false
}

/// Adds the tokens of one `Connection` value that are not there yet.
fn add_value_tokens(tokens: &mut Vec<String>, text: &Vec<char>)
    requires
        strings_view(old(tokens)@).no_duplicates(),
    ensures
        strings_view(final(tokens)@).no_duplicates(),
        strings_view(final(tokens)@).to_set() == strings_view(old(tokens)@).to_set() + value_tokens(
            split_char(text@, ','),
        ).to_set(),
{
    let ghost all = value_tokens(split_char(text@, ','));
    let mut start: usize = 0;
    proof {
        assert(text@.skip(0) =~= text@);
    }
    loop
        invariant
            0 <= start <= text.len(),
            strings_view(tokens@).no_duplicates(),
            all == value_tokens(split_char(text@, ',')),
            strings_view(tokens@).to_set() + value_tokens(split_char(text@.skip(start as int), ','))
                .to_set() == strings_view(old(tokens)@).to_set() + all.to_set(),
        decreases text.len() + 1 - start,
    {
        let found = find_from(text.as_slice(), start, ',');
        let end = match found {
            Some(k) => k,
            None => text.len(),
        };
        let ghost pieces = split_char(text@.skip(start as int), ',');
        proof {
            match found {
                Some(k) => lemma_split_step(
                    text@,
                    ',',
                    start as int,
                    k as int,
                ),
                None => lemma_split_last(
                    text@,
                    ',',
                    start as int,
                ),
            }
            assert(pieces[0] =~= text@.subrange(start as int, end as int));
        }
        let piece = slice(text.as_slice(), start, end);
        let t = trimmed(piece.as_slice());
        let token = lower_chars(t.as_slice());
        let ghost before = strings_view(tokens@);
        let ghost rest_tokens = value_tokens(pieces.drop_first());
        proof {
            if token@.len() > 0 {
                assert(value_tokens(pieces) == seq![token@] + rest_tokens);
                assert(value_tokens(pieces).to_set() =~= rest_tokens.to_set().insert(token@)) by {
                    assert forall|x: Seq<char>| value_tokens(pieces).to_set().contains(x) <==> rest_tokens.to_set().insert(token@).contains(x) by {
                        if x == token@ {
                            assert(value_tokens(pieces)[0] == x);
                        }
                        if value_tokens(pieces).contains(x) && x != token@ {
                            let i = choose|i: int| 0 <= i < value_tokens(pieces).len() && value_tokens(pieces)[i] == x;
                            assert(rest_tokens[i - 1] == x);
                        }
                        if rest_tokens.contains(x) {
                            let i = choose|i: int| 0 <= i < rest_tokens.len() && rest_tokens[i] == x;
                            assert(value_tokens(pieces)[i + 1] == x);
                        }
                    }
                }
            } else {
                assert(value_tokens(pieces) == rest_tokens);
            }
        }
        if token.len() > 0 && !contains_token(tokens, token.as_slice()) {
            tokens.push(string_of(token.as_slice()));
            proof {
                assert(strings_view(tokens@) =~= before.push(token@));
                assert(before.push(token@).to_set() =~= before.to_set().insert(token@)) by {
                    assert forall|x: Seq<char>| before.push(token@).to_set().contains(x) <==> before.to_set().insert(token@).contains(x) by {
                        if x == token@ {
                            assert(before.push(token@)[before.len() as int] == x);
                        }
                        if before.push(token@).contains(x) && x != token@ {
                            let i = choose|i: int| 0 <= i < before.push(token@).len() && before.push(token@)[i] == x;
                            assert(before[i] == x);
                        }
                        if before.contains(x) {
                            let i = choose|i: int| 0 <= i < before.len() && before[i] == x;
                            assert(before.push(token@)[i] == x);
                        }
                    }
                }
                assert forall|a: int, b: int| 0 <= a < b < strings_view(tokens@).len() implies strings_view(tokens@)[a] != strings_view(tokens@)[b] by {
                    if b == before.len() {
                        assert(before[a] == strings_view(tokens@)[a]);
                        assert(!before.contains(token@));
                    } else {
                        assert(before[a] == strings_view(tokens@)[a]);
                        assert(before[b] == strings_view(tokens@)[b]);
                    }
                }
            }
        } else {
            proof {
                if token@.len() > 0 {
                    assert(before.to_set().contains(token@));
                }
            }
        }
        match found {
            Some(k) => {
                proof {
                    assert(pieces.drop_first() =~= split_char(text@.skip(k + 1), ','));
                }
                start = k + 1;
            },
            None => {
                proof {
                    assert(pieces.drop_first().len() == 0);
                    assert(rest_tokens.len() == 0);
                    assert(rest_tokens.to_set() =~= Set::<Seq<char>>::empty());
                }
                return;
            },
        }
    }
}


/// The tokens named by the `Connection` headers, each once; values that
/// are not visible ASCII are skipped.
pub fn response_connection_tokens(headers: &Vec<(String, Vec<u8>)>) -> (tokens: Vec<String>)
    ensures
        strings_view(tokens@).no_duplicates(),
        strings_view(tokens@).to_set() == connection_tokens(headers@).to_set(),
{
    let mut tokens: Vec<String> = Vec::new();
    let mut i: usize = 0;
    proof {
        assert(headers@.skip(0) =~= headers@);
        assert(strings_view(tokens@).to_set() =~= Set::<Seq<char>>::empty());
    }
    while i < headers.len()
        invariant
            0 <= i <= headers.len(),
            strings_view(tokens@).no_duplicates(),
            strings_view(tokens@).to_set() + connection_tokens(headers@.skip(i as int)).to_set()
                == connection_tokens(headers@).to_set(),
        decreases headers.len() - i,
    {
        let ghost rest = headers@.skip(i as int);
        let ghost before = strings_view(tokens@);
        proof {
            assert(rest[0] == headers@[i as int]);
            assert(rest.drop_first() =~= headers@.skip(i + 1));
        }
        let name = chars_of(headers[i].0.as_str());
        let ghost here: Seq<Seq<char>> = Seq::empty();
        if eq_str(name.as_slice(), "connection") {
            match header_value_chars(&headers[i].1) {
                Some(text) => {
                    add_value_tokens(&mut tokens, &text);
                    proof {
                        here = value_tokens(split_char(text@, ','));
                    }
                },
                None => {},
            }
        }
        proof {
            assert(connection_tokens(rest) == here + connection_tokens(rest.drop_first()));
            assert((here + connection_tokens(rest.drop_first())).to_set() =~= here.to_set()
                + connection_tokens(rest.drop_first()).to_set()) by {
                let a = here;
                let b = connection_tokens(rest.drop_first());
                assert forall|x: Seq<char>| (a + b).contains(x) <==> a.contains(x) || b.contains(x) by {
                    if (a + b).contains(x) {
                        let k = choose|k: int| 0 <= k < (a + b).len() && (a + b)[k] == x;
                        if k < a.len() {
                            assert(a[k] == x);
                        } else {
                            assert(b[k - a.len()] == x);
                        }
                    }
                    if a.contains(x) {
                        let k = choose|k: int| 0 <= k < a.len() && a[k] == x;
                        assert((a + b)[k] == x);
                    }
                    if b.contains(x) {
                        let k = choose|k: int| 0 <= k < b.len() && b[k] == x;
                        assert((a + b)[k + a.len()] == x);
                    }
                }
            }
            assert(strings_view(tokens@).to_set() == before.to_set() + here.to_set());
        }
        i += 1;
    }
    proof {
        assert(headers@.skip(headers.len() as int).len() == 0);
        assert(connection_tokens(headers@.skip(headers.len() as int)).to_set() =~= Set::<Seq<char>>::empty());
    }
    tokens
}

/// Hop-by-hop headers, which a proxy never forwards; `upgrade` is kept
/// when upgrades are preserved.
pub open spec fn spec_is_hop_by_hop(name: Seq<char>, preserve_upgrade: bool) -> bool {
    if preserve_upgrade && name == "upgrade"@ {
        false
    } else {
        ||| name == "connection"@
        ||| name == "proxy-authenticate"@
        ||| name == "proxy-authorization"@
        ||| name == "te"@
        ||| name == "trailer"@
        ||| name == "transfer-encoding"@
        ||| name == "upgrade"@
        ||| eq_ignore_case(name, "keep-alive"@)
        ||| eq_ignore_case(name, "proxy-connection"@)
    }
}

pub fn is_hop_by_hop_response_header(name: &str, preserve_upgrade: bool) -> (b: bool)
    ensures
        b == spec_is_hop_by_hop(name@, preserve_upgrade),
{
    let n = chars_of(name);
    let ns = n.as_slice();
    if preserve_upgrade && eq_str(ns, "upgrade") {
        return false;
    }
    eq_str(ns, "connection") || eq_str(ns, "proxy-authenticate") || eq_str(ns, "proxy-authorization")
        || eq_str(ns, "te") || eq_str(ns, "trailer") || eq_str(ns, "transfer-encoding") || eq_str(
        ns,
        "upgrade",
    ) || eq_ignore_case_str(ns, "keep-alive") || eq_ignore_case_str(ns, "proxy-connection")
}

/// A header is left out when the `Connection` header names it (if such
/// headers are stripped), when it is hop-by-hop, when it is
/// `content-length` over HTTP/3, or `alt-svc` over HTTP/1.
pub open spec fn spec_should_strip(
    name: Seq<char>,
    tokens: Set<Seq<char>>,
    constraints: ResponseProtocolConstraints,
) -> bool {
    ||| constraints.strip_connection_headers && tokens.contains(name)
    ||| spec_is_hop_by_hop(name, constraints.preserve_upgrade)
    ||| constraints.protocol == ResponseNormalizationProtocol::Http3 && name == "content-length"@
    ||| constraints.protocol == ResponseNormalizationProtocol::Http1 && eq_ignore_case(
        name,
        "alt-svc"@,
    )
}

pub fn should_strip_response_header(
    name: &str,
    connection_tokens: &Vec<String>,
    constraints: ResponseProtocolConstraints,
) -> (b: bool)
    ensures
        b == spec_should_strip(name@, strings_view(connection_tokens@).to_set(), constraints),
{
    let n = chars_of(name);
    let ns = n.as_slice();
    (constraints.strip_connection_headers && contains_token(connection_tokens, ns))
        || is_hop_by_hop_response_header(name, constraints.preserve_upgrade) || (
    constraints.protocol == ResponseNormalizationProtocol::Http3 && eq_str(ns, "content-length"))
        || (constraints.protocol == ResponseNormalizationProtocol::Http1 && eq_ignore_case_str(
        ns,
        "alt-svc",
    ))
}

/// The trailers that are passed on, in order: none unless trailers are
/// allowed, and never those that are stripped.
pub open spec fn kept_trailers(
    trailers: Seq<(String, Vec<u8>)>,
    tokens: Set<Seq<char>>,
    constraints: ResponseProtocolConstraints,
) -> Seq<(Seq<char>, Seq<u8>)>
    decreases trailers.len(),
{
    if trailers.len() == 0 {
        Seq::empty()
    } else {
        let prev = kept_trailers(trailers.drop_last(), tokens, constraints);
        let last = trailers.last();
        if spec_should_strip(last.0@, tokens, constraints) {
            prev
        } else {
            prev.push((last.0@, last.1@))
        }
    }
}

pub open spec fn header_views(headers: Seq<NormalizedHeader>) -> Seq<(Seq<char>, Seq<u8>)> {
    headers.map_values(|h: NormalizedHeader| (h.name@, h.value@))
}

fn copy_bytes(v: &Vec<u8>) -> (r: Vec<u8>)
    ensures
        r@ == v@,
{
    let mut r: Vec<u8> = Vec::new();
    let mut i: usize = 0;
    while i < v.len()
        invariant
            0 <= i <= v.len(),
            r@ == v@.take(i as int),
        decreases v.len() - i,
    {
        r.push(v[i]);
        proof {
            assert(v@.take(i + 1) =~= v@.take(i as int).push(v@[i as int]));
        }
        i += 1;
    }
    proof {
        assert(v@.take(v.len() as int) =~= v@);
    }
    r
}

pub fn normalize_response_trailers(
    trailers: &Vec<(String, Vec<u8>)>,
    constraints: ResponseProtocolConstraints,
) -> (r: Vec<NormalizedHeader>)
    ensures
        !constraints.allow_trailers ==> r@.len() == 0,
        constraints.allow_trailers ==> header_views(r@) == kept_trailers(
            trailers@,
            connection_tokens(trailers@).to_set(),
            constraints,
        ),
{
    if !constraints.allow_trailers {
        return Vec::new();
    }
    let tokens = response_connection_tokens(trailers);
    let ghost set = connection_tokens(trailers@).to_set();
    let mut normalized: Vec<NormalizedHeader> = Vec::new();
    let mut i: usize = 0;
    while i < trailers.len()
        invariant
            0 <= i <= trailers.len(),
            strings_view(tokens@).to_set() == set,
            header_views(normalized@) == kept_trailers(trailers@.take(i as int), set, constraints),
        decreases trailers.len() - i,
    {
        proof {
            assert(trailers@.take(i + 1).drop_last() =~= trailers@.take(i as int));
            assert(trailers@.take(i + 1).last() == trailers@[i as int]);
        }
        if !should_strip_response_header(trailers[i].0.as_str(), &tokens, constraints) {
            let ghost before = normalized@;
            normalized.push(
                NormalizedHeader { name: trailers[i].0.clone(), value: copy_bytes(&trailers[i].1) },
            );
            proof {
                assert(header_views(normalized@) =~= header_views(before).push(
                    (trailers@[i as int].0@, trailers@[i as int].1@),
                ));
            }
        }
        i += 1;
    }
    proof {
        assert(trailers@.take(trailers.len() as int) =~= trailers@);
    }
    normalized
}


/// No header that normalization strips is passed on: in particular no
/// hop-by-hop header, no header the `Connection` header names (when those
/// are stripped), no `content-length` over HTTP/3 and no `alt-svc` over
/// HTTP/1; and no more headers are passed on than came in.
pub proof fn lemma_kept_trailers_exclude_stripped(
    trailers: Seq<(String, Vec<u8>)>,
    tokens: Set<Seq<char>>,
    constraints: ResponseProtocolConstraints,
)
    ensures
        forall|i: int|
            0 <= i < kept_trailers(trailers, tokens, constraints).len() ==> !spec_should_strip(
                #[trigger] kept_trailers(trailers, tokens, constraints)[i].0,
                tokens,
                constraints,
            ),
        kept_trailers(trailers, tokens, constraints).len() <= trailers.len(),
    decreases trailers.len(),
{
    if trailers.len() > 0 {
        lemma_kept_trailers_exclude_stripped(trailers.drop_last(), tokens, constraints);
        let prev = kept_trailers(trailers.drop_last(), tokens, constraints);
        let kept = kept_trailers(trailers, tokens, constraints);
        assert forall|i: int| 0 <= i < kept.len() implies !spec_should_strip(
            #[trigger] kept[i].0,
            tokens,
            constraints,
        ) by {
            if i < prev.len() {
                assert(kept[i] == prev[i]);
            }
        }
    }
}

/// The names that are hop-by-hop exactly as written.
pub open spec fn exact_hop_by_hop_names() -> Set<Seq<char>> {
    set![
        "connection"@,
        "proxy-authenticate"@,
        "proxy-authorization"@,
        "te"@,
        "trailer"@,
        "transfer-encoding"@,
        "upgrade"@,
    ]
}

/// The hop-by-hop headers are exactly `connection`, `proxy-authenticate`,
/// `proxy-authorization`, `te`, `trailer`, `transfer-encoding` and
/// `upgrade`, and `keep-alive` and `proxy-connection` in any ASCII case;
/// `upgrade` is not one when upgrades are preserved. A hop-by-hop header is
/// always stripped from responses and never passed on among the trailers.
pub proof fn lemma_hop_by_hop_names(
    name: Seq<char>,
    preserve_upgrade: bool,
    tokens: Set<Seq<char>>,
    constraints: ResponseProtocolConstraints,
    trailers: Seq<(String, Vec<u8>)>,
)
    ensures
        spec_is_hop_by_hop(name, preserve_upgrade) <==> !(preserve_upgrade && name == "upgrade"@) && (
        exact_hop_by_hop_names().contains(name) || eq_ignore_case(name, "keep-alive"@)
            || eq_ignore_case(name, "proxy-connection"@)),
        spec_is_hop_by_hop("connection"@, preserve_upgrade),
        spec_is_hop_by_hop("proxy-authenticate"@, preserve_upgrade),
        spec_is_hop_by_hop("proxy-authorization"@, preserve_upgrade),
        spec_is_hop_by_hop("te"@, preserve_upgrade),
        spec_is_hop_by_hop("trailer"@, preserve_upgrade),
        spec_is_hop_by_hop("transfer-encoding"@, preserve_upgrade),
        spec_is_hop_by_hop("keep-alive"@, preserve_upgrade),
        spec_is_hop_by_hop("proxy-connection"@, preserve_upgrade),
        spec_is_hop_by_hop("upgrade"@, false),
        !spec_is_hop_by_hop("upgrade"@, true),
        spec_is_hop_by_hop(name, constraints.preserve_upgrade) ==> spec_should_strip(
            name,
            tokens,
            constraints,
        ),
        forall|i: int|
            0 <= i < kept_trailers(trailers, tokens, constraints).len() ==> !spec_is_hop_by_hop(
                #[trigger] kept_trailers(trailers, tokens, constraints)[i].0,
                constraints.preserve_upgrade,
            ),
{
    reveal_strlit("connection");
    reveal_strlit("proxy-authenticate");
    reveal_strlit("proxy-authorization");
    reveal_strlit("te");
    reveal_strlit("trailer");
    reveal_strlit("transfer-encoding");
    reveal_strlit("upgrade");
    reveal_strlit("keep-alive");
    reveal_strlit("proxy-connection");
    assert(lower_seq("keep-alive"@) =~= lower_seq("keep-alive"@));
    assert(lower_seq("proxy-connection"@) =~= lower_seq("proxy-connection"@));
    assert("connection"@.len() != "upgrade"@.len());
    assert("proxy-authenticate"@.len() != "upgrade"@.len());
    assert("proxy-authorization"@.len() != "upgrade"@.len());
    assert("te"@.len() != "upgrade"@.len());
    assert("trailer"@[0] != "upgrade"@[0]);
    assert("transfer-encoding"@.len() != "upgrade"@.len());
    assert("keep-alive"@.len() != "upgrade"@.len());
    assert("proxy-connection"@.len() != "upgrade"@.len());
    lemma_kept_trailers_exclude_stripped(trailers, tokens, constraints);
}

/// Which headers are stripped from a response: hop-by-hop ones, those the
/// `Connection` header names when such headers are stripped,
/// `content-length` over HTTP/3 and `alt-svc` (any ASCII case) over
/// HTTP/1; any other header is passed on.
pub proof fn lemma_stripped_headers(
    name: Seq<char>,
    tokens: Set<Seq<char>>,
    constraints: ResponseProtocolConstraints,
)
    ensures
        spec_should_strip(name, tokens, constraints) <==> (spec_is_hop_by_hop(
            name,
            constraints.preserve_upgrade,
        ) || (constraints.strip_connection_headers && tokens.contains(name)) || (constraints.protocol
            is Http3 && name == "content-length"@) || (constraints.protocol is Http1 && lower_seq(name)
            == lower_seq("alt-svc"@))),
        constraints.protocol is Http3 ==> spec_should_strip("content-length"@, tokens, constraints),
        constraints.protocol is Http1 ==> spec_should_strip("Alt-Svc"@, tokens, constraints),
        !constraints.strip_connection_headers && constraints.protocol is Http1 ==> !spec_should_strip(
            "content-length"@,
            tokens,
            constraints,
        ),
        !constraints.strip_connection_headers && constraints.protocol is Http3 ==> !spec_should_strip(
            "alt-svc"@,
            tokens,
            constraints,
        ),
{
    reveal_strlit("content-length");
    reveal_strlit("alt-svc");
    reveal_strlit("Alt-Svc");
    reveal_strlit("connection");
    reveal_strlit("proxy-authenticate");
    reveal_strlit("proxy-authorization");
    reveal_strlit("te");
    reveal_strlit("trailer");
    reveal_strlit("transfer-encoding");
    reveal_strlit("upgrade");
    reveal_strlit("keep-alive");
    reveal_strlit("proxy-connection");
    assert(lower_seq("Alt-Svc"@) =~= lower_seq("alt-svc"@));
    let cl = "content-length"@;
    let al = "alt-svc"@;
    assert(cl.len() == 14 && al.len() == 7);
    assert(lower_seq(cl).len() == 14 && lower_seq(al).len() == 7);
    assert(lower_seq("keep-alive"@).len() == 10 && lower_seq("proxy-connection"@).len() == 16);
    assert(!exact_hop_by_hop_names().contains(cl));
    assert(al[0] != "upgrade"@[0] && al[0] != "trailer"@[0]);
    assert(al != "upgrade"@ && al != "trailer"@);
    assert(!exact_hop_by_hop_names().contains(al));
}

} // verus!
