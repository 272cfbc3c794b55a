//! The key by which a request is load balanced.
use vstd::prelude::*;

use crate::quic_listener::control_api::{bearer_token_from_authorization_header, spec_bearer_token, opt_str};
use crate::text::{
    chars_of, eq_ignore_case, eq_ignore_case_exec, eq_ignore_case_str, eq_str, find_from,
    first_index, index_of_char,
    lemma_split_last, lemma_split_step, opt_string, slice, split_char, string_of, trim, trimmed,
};

verus! {

/// The value of the first cookie pair named `name` (ASCII case ignored),
/// trimmed and not empty. Blank pairs are skipped; a pair without `=`
/// ends the search with nothing.
pub open spec fn cookie_in(pairs: Seq<Seq<char>>, name: Seq<char>) -> Option<Seq<char>>
    decreases pairs.len(),
{
    if pairs.len() == 0 {
        None
    } else {
        let part = trim(pairs[0]);
        if part.len() == 0 {
            cookie_in(pairs.drop_first(), name)
        } else {
            match first_index(part, '=') {
                None => None,
                Some(e) => if eq_ignore_case(trim(part.take(e)), name) {
                    let value = trim(part.skip(e + 1));
                    if value.len() == 0 {
                        None
                    } else {
                        Some(value)
                    }
                } else {
                    cookie_in(pairs.drop_first(), name)
                },
            }
        }
    }
}

pub open spec fn spec_extract_cookie_value(cookie_header: Seq<char>, cookie_name: Seq<char>) -> Option<Seq<char>> {
    cookie_in(split_char(cookie_header, ';'), cookie_name)
}

/// The value of the first query parameter named `param` (ASCII case
/// ignored) whose value is not empty. Blank entries are skipped; an entry
/// without `=` ends the search with nothing.
pub open spec fn query_in(entries: Seq<Seq<char>>, param: Seq<char>) -> Option<Seq<char>>
    decreases entries.len(),
{
    if entries.len() == 0 {
        None
    } else {
        let entry = trim(entries[0]);
        if entry.len() == 0 {
            query_in(entries.drop_first(), param)
        } else {
            match first_index(entry, '=') {
                None => None,
                Some(e) => if eq_ignore_case(entry.take(e), param) && entry.skip(e + 1).len() > 0 {
                    Some(entry.skip(e + 1))
                } else {
                    query_in(entries.drop_first(), param)
                },
            }
        }
    }
}

/// The query parameter `param` of `path`: the query is what follows the
/// first `?`.
pub open spec fn spec_extract_query_param(path: Seq<char>, param: Seq<char>) -> Option<Seq<char>> {
    match first_index(path, '?') {
        None => None,
        Some(q) => query_in(split_char(path.skip(q + 1), '&'), param),
    }
}

pub fn extract_cookie_value(cookie_header: &str, cookie_name: &str) -> (r: Option<String>)
    ensures
        opt_string(r) == spec_extract_cookie_value(cookie_header@, cookie_name@),
{
    let v = chars_of(cookie_header);
    let name = chars_of(cookie_name);
    let ghost target = spec_extract_cookie_value(cookie_header@, cookie_name@);
    let mut start: usize = 0;
    proof {
        assert(v@.skip(0) =~= v@);
    }
    loop
        invariant
            0 <= start <= v.len(),
            v@ == cookie_header@,
            name@ == cookie_name@,
            target == spec_extract_cookie_value(cookie_header@, cookie_name@),
            target == cookie_in(split_char(v@.skip(start as int), ';'), cookie_name@),
        decreases v.len() + 1 - start,
    {
        let found = find_from(v.as_slice(), start, ';');
        let end = match found {
            Some(k) => k,
            None => v.len(),
        };
        let ghost pieces = split_char(v@.skip(start as int), ';');
        proof {
            match found {
                Some(k) => lemma_split_step(v@, ';', start as int, k as int),
                None => lemma_split_last(v@, ';', start as int),
            }
            assert(pieces[0] =~= v@.subrange(start as int, end as int));
        }
        let pair = slice(v.as_slice(), start, end);
        let part = trimmed(pair.as_slice());
        proof {
            assert(pieces.len() > 0);
            assert(pair@ == pieces[0]);
            assert(part@ == trim(pieces[0]));
        }
        if part.len() > 0 {
            let eq = match index_of_char(part.as_slice(), '=') {
                Some(e) => e,
                None => {
                    return None;
                },
            };
            let key = slice(part.as_slice(), 0, eq);
            let value_raw = slice(part.as_slice(), eq + 1, part.len());
            proof {
                assert(key@ =~= part@.take(eq as int));
                assert(value_raw@ =~= part@.skip(eq + 1));
            }
            let key_t = trimmed(key.as_slice());
            if eq_ignore_case_exec(key_t.as_slice(), name.as_slice()) {
                let value = trimmed(value_raw.as_slice());
                if value.len() == 0 {
                    return None;
                }
                return Some(string_of(value.as_slice()));
            }
        }
        match found {
            Some(k) => {
                proof {
                    assert(pieces.drop_first() =~= split_char(v@.skip(k + 1), ';'));
                }
                start = k + 1;
            },
            None => {
                proof {
                    assert(pieces.drop_first().len() == 0);
                    assert(cookie_in(pieces.drop_first(), cookie_name@) is None);
                }
                return None;
            },
        }
    }
}

pub fn extract_query_param(path: &str, param: &str) -> (r: Option<String>)
    ensures
        opt_string(r) == spec_extract_query_param(path@, param@),
{
    let p = chars_of(path);
    let name = chars_of(param);
    let q = match index_of_char(p.as_slice(), '?') {
        Some(q) => q,
        None => {
            return None;
        },
    };
    let v = slice(p.as_slice(), q + 1, p.len());
    proof {
        assert(v@ =~= path@.skip(q + 1));
    }
    let ghost target = spec_extract_query_param(path@, param@);
    let mut start: usize = 0;
    proof {
        assert(v@.skip(0) =~= v@);
    }
    loop
        invariant
            0 <= start <= v.len(),
            name@ == param@,
            target == spec_extract_query_param(path@, param@),
            target == query_in(split_char(v@.skip(start as int), '&'), param@),
        decreases v.len() + 1 - start,
    {
        let found = find_from(v.as_slice(), start, '&');
        let end = match found {
            Some(k) => k,
            None => v.len(),
        };
        let ghost pieces = split_char(v@.skip(start as int), '&');
        proof {
            match found {
                Some(k) => lemma_split_step(v@, '&', start as int, k as int),
                None => lemma_split_last(v@, '&', start as int),
            }
            assert(pieces[0] =~= v@.subrange(start as int, end as int));
        }
        let pair = slice(v.as_slice(), start, end);
        let entry = trimmed(pair.as_slice());
        proof {
            assert(pieces.len() > 0);
            assert(pair@ == pieces[0]);
            assert(entry@ == trim(pieces[0]));
        }
        if entry.len() > 0 {
            let eq = match index_of_char(entry.as_slice(), '=') {
                Some(e) => e,
                None => {
                    return None;
                },
            };
            let key = slice(entry.as_slice(), 0, eq);
            let value = slice(entry.as_slice(), eq + 1, entry.len());
            proof {
                assert(key@ =~= entry@.take(eq as int));
                assert(value@ =~= entry@.skip(eq + 1));
            }
            if eq_ignore_case_exec(key.as_slice(), name.as_slice()) && value.len() > 0 {
                return Some(string_of(value.as_slice()));
            }
        }
        match found {
            Some(k) => {
                proof {
                    assert(pieces.drop_first() =~= split_char(v@.skip(k + 1), '&'));
                }
                start = k + 1;
            },
            None => {
                proof {
                    assert(pieces.drop_first().len() == 0);
                    assert(query_in(pieces.drop_first(), param@) is None);
                }
                return None;
            },
        }
    }
}


/// The value of the first header named `name` (ASCII case ignored).
pub open spec fn header_value(headers: Seq<(String, String)>, name: Seq<char>) -> Option<Seq<char>>
    decreases headers.len(),
{
    if headers.len() == 0 {
        None
    } else if eq_ignore_case(headers[0].0@, name) {
        Some(headers[0].1@)
    } else {
        header_value(headers.drop_first(), name)
    }
}

/// A header of the request, when its headers can be looked up.
pub open spec fn lookup(headers: Option<Seq<(String, String)>>, name: Seq<char>) -> Option<Seq<char>> {
    match headers {
        None => None,
        Some(h) => header_value(h, name),
    }
}

pub open spec fn opt_headers(headers: Option<&Vec<(String, String)>>) -> Option<Seq<(String, String)>> {
    match headers {
        None => None,
        Some(h) => Some(h@),
    }
}

fn lookup_header(headers: Option<&Vec<(String, String)>>, name: &[char]) -> (r: Option<String>)
    ensures
        opt_string(r) == lookup(opt_headers(headers), name@),
{
    let h = match headers {
        None => {
            return None;
        },
        Some(h) => h,
    };
    let mut i: usize = 0;
    proof {
        assert(h@.skip(0) =~= h@);
    }
    while i < h.len()
        invariant
            0 <= i <= h.len(),
            opt_headers(headers) == Some(h@),
            header_value(h@, name@) == header_value(h@.skip(i as int), name@),
        decreases h.len() - i,
    {
        proof {
            assert(h@.skip(i as int)[0] == h@[i as int]);
            assert(h@.skip(i as int).drop_first() =~= h@.skip(i + 1));
        }
        let entry_name = chars_of(h[i].0.as_str());
        if eq_ignore_case_exec(entry_name.as_slice(), name) {
            return Some(h[i].1.clone());
        }
        i += 1;
    }
    proof {
        assert(h@.skip(h.len() as int).len() == 0);
    }
    None
}

/// The path without its query.
pub open spec fn path_only(path: Seq<char>) -> Seq<char> {
    match first_index(path, '?') {
        None => path,
        Some(q) => path.take(q),
    }
}

/// The key that a key spec (trimmed, ASCII case ignored) picks from the
/// request: `path` (without the query), `authority`, `method`, `cid` or
/// `sticky-cid` (the connection id key), `peer_ip` or `client_ip`,
/// `bearer_token` (from the `authorization` header), or `header:<name>`,
/// `cookie:<name>` or `query:<name>` with a non-blank name.
pub open spec fn spec_resolve_lb_key_from_spec(
    lb_key_spec: Seq<char>,
    method: Seq<char>,
    path: Seq<char>,
    authority: Option<Seq<char>>,
    cid_key: Option<Seq<char>>,
    client_ip: Option<Seq<char>>,
    headers: Option<Seq<(String, String)>>,
) -> Option<Seq<char>> {
    let s = trim(lb_key_spec);
    if s.len() == 0 {
        None
    } else if eq_ignore_case(s, "path"@) {
        Some(path_only(path))
    } else if eq_ignore_case(s, "authority"@) {
        authority
    } else if eq_ignore_case(s, "method"@) {
        Some(method)
    } else if eq_ignore_case(s, "cid"@) || eq_ignore_case(s, "sticky-cid"@) {
        cid_key
    } else if eq_ignore_case(s, "peer_ip"@) || eq_ignore_case(s, "client_ip"@) {
        client_ip
    } else if eq_ignore_case(s, "bearer_token"@) {
        match lookup(headers, "authorization"@) {
            None => None,
            Some(raw) => spec_bearer_token(raw),
        }
    } else {
        match first_index(s, ':') {
            None => None,
            Some(i) => {
                let source = s.take(i);
                let key_name = trim(s.skip(i + 1));
                if key_name.len() == 0 {
                    None
                } else if eq_ignore_case(source, "header"@) {
                    lookup(headers, key_name)
                } else if eq_ignore_case(source, "cookie"@) {
                    match lookup(headers, "cookie"@) {
                        None => None,
                        Some(cookies) => spec_extract_cookie_value(cookies, key_name),
                    }
                } else if eq_ignore_case(source, "query"@) {
                    spec_extract_query_param(path, key_name)
                } else {
                    None
                }
            },
        }
    }
}

fn opt_string_of(o: Option<&str>) -> (r: Option<String>)
    ensures
        opt_string(r) == opt_str(o),
{
    match o {
        Some(s) => Some(s.to_owned()),
        None => None,
    }
}

/// `client_ip` is the peer's IP address as text, when it is known;
/// `header_lookup` the request's headers, when they can be looked up.
pub fn resolve_lb_key_from_spec(
    lb_key_spec: &str,
    method: &str,
    path: &str,
    authority: Option<&str>,
    cid_key: Option<&str>,
    client_ip: Option<&str>,
    header_lookup: Option<&Vec<(String, String)>>,
) -> (r: Option<String>)
    ensures
        opt_string(r) == spec_resolve_lb_key_from_spec(
            lb_key_spec@,
            method@,
            path@,
            opt_str(authority),
            opt_str(cid_key),
            opt_str(client_ip),
            opt_headers(header_lookup),
        ),
{
    let raw = chars_of(lb_key_spec);
    let s = trimmed(raw.as_slice());
    let ss = s.as_slice();
    if s.len() == 0 {
        return None;
    }
    if eq_ignore_case_str(ss, "path") {
        let p = chars_of(path);
        return match index_of_char(p.as_slice(), '?') {
            None => Some(path.to_owned()),
            Some(q) => {
                let head = slice(p.as_slice(), 0, q);
                proof {
                    assert(head@ =~= path@.take(q as int));
                }
                Some(string_of(head.as_slice()))
            },
        };
    }
    if eq_ignore_case_str(ss, "authority") {
        return opt_string_of(authority);
    }
    if eq_ignore_case_str(ss, "method") {
        return Some(method.to_owned());
    }
    if eq_ignore_case_str(ss, "cid") || eq_ignore_case_str(ss, "sticky-cid") {
        return opt_string_of(cid_key);
    }
    if eq_ignore_case_str(ss, "peer_ip") || eq_ignore_case_str(ss, "client_ip") {
        return opt_string_of(client_ip);
    }
    if eq_ignore_case_str(ss, "bearer_token") {
        let auth_name = chars_of("authorization");
        return match lookup_header(header_lookup, auth_name.as_slice()) {
            None => None,
            Some(raw_auth) => bearer_token_from_authorization_header(raw_auth.as_str()),
        };
    }
    let i = match index_of_char(ss, ':') {
        None => {
            return None;
        },
        Some(i) => i,
    };
    let source = slice(ss, 0, i);
    let key_raw = slice(ss, i + 1, s.len());
    proof {
        assert(source@ =~= s@.take(i as int));
        assert(key_raw@ =~= s@.skip(i + 1));
    }
    let key_name = trimmed(key_raw.as_slice());
    if key_name.len() == 0 {
        return None;
    }
    if eq_ignore_case_str(source.as_slice(), "header") {
        return lookup_header(header_lookup, key_name.as_slice());
    }
    if eq_ignore_case_str(source.as_slice(), "cookie") {
        let cookie_name = chars_of("cookie");
        return match lookup_header(header_lookup, cookie_name.as_slice()) {
            None => None,
            Some(cookies) => {
                let key = string_of(key_name.as_slice());
                extract_cookie_value(cookies.as_str(), key.as_str())
            },
        };
    }
    if eq_ignore_case_str(source.as_slice(), "query") {
        let key = string_of(key_name.as_slice());
        return extract_query_param(path, key.as_str());
    }
    None
}

/// The key used without a key spec: the authority, else the path, else
/// the method.
pub open spec fn spec_default_lb_request_key(
    method: Seq<char>,
    path: Seq<char>,
    authority: Option<Seq<char>>,
) -> Seq<char> {
    match authority {
        Some(a) => a,
        None => if path.len() > 0 {
            path
        } else {
            method
        },
    }
}

pub fn default_lb_request_key(method: &str, path: &str, authority: Option<&str>) -> (k: String)
    ensures
        k@ == spec_default_lb_request_key(method@, path@, opt_str(authority)),
{
    match authority {
        Some(a) => a.to_owned(),
        None => {
            let p = chars_of(path);
            if p.len() > 0 {
                path.to_owned()
            } else {
                method.to_owned()
            }
        },
    }
}

/// The request's load-balancing key: what the key spec picks, when that is
/// not empty; else the connection id key for `sticky-cid` balancing; else
/// the default key.
pub open spec fn spec_resolve_lb_request_key(
    lb_type: Seq<char>,
    lb_key_spec: Option<Seq<char>>,
    method: Seq<char>,
    path: Seq<char>,
    authority: Option<Seq<char>>,
    cid_key: Option<Seq<char>>,
    headers: Option<Seq<(String, String)>>,
) -> Seq<char> {
    let picked = match lb_key_spec {
        None => None,
        Some(spec) => spec_resolve_lb_key_from_spec(
            spec,
            method,
            path,
            authority,
            cid_key,
            None,
            headers,
        ),
    };
    if picked matches Some(v) && v.len() > 0 {
        picked.unwrap()
    } else if lb_type == "sticky-cid"@ && cid_key is Some {
        cid_key.unwrap()
    } else {
        spec_default_lb_request_key(method, path, authority)
    }
}

pub fn resolve_lb_request_key(
    lb_type: &str,
    lb_key_spec: Option<&str>,
    method: &str,
    path: &str,
    authority: Option<&str>,
    cid_key: Option<&str>,
    header_lookup: Option<&Vec<(String, String)>>,
) -> (k: String)
    ensures
        k@ == spec_resolve_lb_request_key(
            lb_type@,
            opt_str(lb_key_spec),
            method@,
            path@,
            opt_str(authority),
            opt_str(cid_key),
            opt_headers(header_lookup),
        ),
{
    let default_key = default_lb_request_key(method, path, authority);
    if let Some(spec) = lb_key_spec {
        if let Some(value) = resolve_lb_key_from_spec(
            spec,
            method,
            path,
            authority,
            cid_key,
            None,
            header_lookup,
        ) {
            if value.as_str().as_bytes().len() > 0 {
                proof {
                    vstd::utf8::encode_utf8_decode_utf8(value@);
                    if value@.len() == 0 {
                        assert(value@ =~= Seq::<char>::empty());
                        assert(vstd::utf8::encode_utf8(value@) =~= Seq::<u8>::empty());
                    }
                }
                return value;
            }
            proof {
                if value@.len() > 0 {
                    vstd::utf8::encode_utf8_decode_utf8(value@);
                    assert(vstd::utf8::decode_utf8(Seq::<u8>::empty()) =~= Seq::<char>::empty());
                }
            }
        }
    }
    let t = chars_of(lb_type);
    if eq_str(t.as_slice(), "sticky-cid") {
        if let Some(c) = cid_key {
            return c.to_owned();
        }
    }
    default_key
}

/// The bearer token of an `Authorization` value (see
/// `bearer_token_from_authorization_header`).
pub fn bearer_token_from_authorization_value(raw: &str) -> (r: Option<String>)
    ensures
        opt_string(r) == spec_bearer_token(raw@),
{
    bearer_token_from_authorization_header(raw)
}

} // verus!
