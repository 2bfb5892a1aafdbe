use vstd::prelude::*;

use crate::errors::ProxyError;
use crate::headers::{assoc_map, Headers};
use crate::num::{is_i32_literal, parse_i32, spec_int_value};
use crate::scan::{
    spec_lines, spec_split_colon, spec_tokens, spec_trim, split_first_colon, split_lines,
    split_spaces, trim_bytes, vecs_view,
};
use crate::text::{bytes_to_string, to_chars};

verus! {

/// The request body. The parser never frames a body: whatever body bytes the
/// reader picked up stay inside `raw_data` and are forwarded opaquely.
#[derive(Debug)]
pub enum Body {
    Empty,
}

/// The parsed form of the request target, built by the `urlparse` crate.
#[verifier::external_type_specification]
#[verifier::external_body]
pub struct ExUrl(urlparse::Url);

/// Relies on urlparse::urlparse to build the parsed form of the request
/// target. No property of the result is relied on: the proxy routes by the
/// `Host` header, never by this value.
#[verifier::external_body]
fn parse_url(target: &String) -> urlparse::Url {
    urlparse::urlparse(target.as_str())
}

/// Relies on urlparse::Url::new for a placeholder URL whose parts are empty.
#[verifier::external_body]
fn empty_url() -> urlparse::Url {
    urlparse::Url::new()
}

/// The bytes of the header name `Host`.
pub open spec fn host_key_bytes() -> Seq<u8> {
    seq![72u8, 111u8, 115u8, 116u8]
}

fn is_host_key(k: &Vec<u8>) -> (r: bool)
    ensures
        r == (k@ == host_key_bytes()),
{
    if k.len() != 4 {
        return false;
    }
    let r = k[0] == 72 && k[1] == 111 && k[2] == 115 && k[3] == 116;
    proof {
        if r {
            assert(k@ =~= host_key_bytes());
        } else {
            if k@ == host_key_bytes() {
                assert(k@[0] == 72 && k@[1] == 111 && k@[2] == 115 && k@[3] == 116);
            }
        }
    }
    r
}

/// The header pairs among `lines`, from index `i` up to the first blank
/// line: each line split at its first colon into a name and a trimmed
/// value, in order, duplicates kept. Nothing when a line before the blank
/// line holds no colon.
pub open spec fn spec_header_pairs(lines: Seq<Seq<u8>>, i: int) -> Option<
    Seq<(Seq<u8>, Seq<u8>)>,
>
    decreases lines.len() - i,
{
    if i < 0 || i >= lines.len() || lines[i].len() == 0 {
        Some(Seq::empty())
    } else {
        match spec_split_colon(lines[i]) {
            None => None,
            Some(kv) => match spec_header_pairs(lines, i + 1) {
                None => None,
                Some(rest) => Some(seq![(kv.0, spec_trim(kv.1))] + rest),
            },
        }
    }
}

/// The value of the last pair among `ps` whose name is `k`, if any.
pub open spec fn last_value_bytes(ps: Seq<(Seq<u8>, Seq<u8>)>, k: Seq<u8>) -> Option<Seq<u8>>
    decreases ps.len(),
{
    if ps.len() == 0 {
        None
    } else if ps.last().0 == k {
        Some(ps.last().1)
    } else {
        last_value_bytes(ps.drop_last(), k)
    }
}

/// Byte pairs read as character pairs, code for code.
pub open spec fn chars_pairs(ps: Seq<(Seq<u8>, Seq<u8>)>) -> Seq<(Seq<char>, Seq<char>)> {
    ps.map_values(|p: (Seq<u8>, Seq<u8>)| (to_chars(p.0), to_chars(p.1)))
}

/// What parsing recovers from a request buffer: the three tokens of the
/// request line, the header mapping, and the routing destination derived
/// from the `Host` header.
#[verifier::ext_equal]
pub ghost struct SpecRequest {
    pub method: Seq<char>,
    pub target: Seq<char>,
    pub version: Seq<char>,
    pub headers: Map<Seq<char>, Seq<char>>,
    pub host: Seq<char>,
    pub port: int,
}

/// The meaning of parsing: the buffer's first line must split into exactly
/// three space-separated tokens; the following lines up to the first blank
/// line are headers, each with a colon, a later name overwriting an earlier
/// equal one; a `Host` header must be present. Its value up to the first
/// colon is the routing host and the part after the colon is the routing
/// port; without a colon the whole value is the host and the port defaults
/// to 443 for CONNECT and 80 otherwise. Nothing is recovered from a buffer
/// that breaks any of this.
pub open spec fn spec_parse(raw: Seq<u8>) -> Option<SpecRequest> {
    let lines = spec_lines(raw);
    if lines.len() == 0 {
        None
    } else {
        let toks = spec_tokens(lines[0]);
        if toks.len() != 3 {
            None
        } else {
            match spec_header_pairs(lines, 1) {
                None => None,
                Some(ps) => match last_value_bytes(ps, host_key_bytes()) {
                    None => None,
                    Some(hv) => {
                        let method = to_chars(toks[0]);
                        let default_port: int = if method == "CONNECT"@ {
                            443
                        } else {
                            80
                        };
                        match spec_split_colon(hv) {
                            None => Some(
                                SpecRequest {
                                    method,
                                    target: to_chars(toks[1]),
                                    version: to_chars(toks[2]),
                                    headers: assoc_map(chars_pairs(ps)),
                                    host: to_chars(hv),
                                    port: default_port,
                                },
                            ),
                            Some(hp) => if is_i32_literal(hp.1) {
                                Some(
                                    SpecRequest {
                                        method,
                                        target: to_chars(toks[1]),
                                        version: to_chars(toks[2]),
                                        headers: assoc_map(chars_pairs(ps)),
                                        host: to_chars(hp.0),
                                        port: spec_int_value(hp.1),
                                    },
                                )
                            } else {
                                None
                            },
                        }
                    }
                },
            }
        }
    }
}

/// One parsed request, owned by the handling of one connection: the request
/// line's tokens, the headers, the routing destination, and the complete
/// original bytes, kept unmodified for opaque forwarding.
#[derive(Debug)]
pub struct Request {
    pub method: String,
    pub version: String,
    pub headers: Headers,
    pub url_raw: String,
    pub url: urlparse::Url,
    pub body: Body,
    pub raw_data: Vec<u8>,
    pub host: String,
    pub port: i32,
}

impl View for Request {
    type V = SpecRequest;

    open spec fn view(&self) -> SpecRequest {
        SpecRequest {
            method: self.method@,
            target: self.url_raw@,
            version: self.version@,
            headers: self.headers@,
            host: self.host@,
            port: self.port as int,
        }
    }
}

/// Collects the header lines from `lines[1]` up to the first blank line,
/// and also hands back the value of the last `Host` header, if one occurred.
fn collect_headers(lines: &Vec<Vec<u8>>) -> (r: Result<(Headers, Option<Vec<u8>>), ProxyError>)
    ensures
        match r {
            Ok(p) => {
                &&& spec_header_pairs(vecs_view(lines@), 1) matches Some(ps)
                &&& p.0@ == assoc_map(chars_pairs(spec_header_pairs(vecs_view(lines@), 1)->Some_0))
                &&& (match p.1 {
                    Some(hv) => last_value_bytes(
                        spec_header_pairs(vecs_view(lines@), 1)->Some_0,
                        host_key_bytes(),
                    ) == Some(hv@),
                    None => last_value_bytes(
                        spec_header_pairs(vecs_view(lines@), 1)->Some_0,
                        host_key_bytes(),
                    ) is None,
                })
            },
            Err(e) => {
                &&& spec_header_pairs(vecs_view(lines@), 1) is None
                &&& e == ProxyError::MalformedRequest
            },
        },
{
    let ghost lv = vecs_view(lines@);
    let mut headers = Headers::new();
    let mut host_val: Option<Vec<u8>> = None;
    let ghost mut ps: Seq<(Seq<u8>, Seq<u8>)> = Seq::empty();
    let mut i: usize = 1;
    proof {
        assert(ps + spec_header_pairs(lv, 1)->Some_0 =~= spec_header_pairs(lv, 1)->Some_0) by {
            if spec_header_pairs(lv, 1) is Some {
            }
        }
    }
    while i < lines.len() && lines[i].len() > 0
        invariant
            1 <= i,
            i <= lines.len() || i == 1,
            lv == vecs_view(lines@),
            (match spec_header_pairs(lv, i as int) {
                None => spec_header_pairs(lv, 1) is None,
                Some(rest) => spec_header_pairs(lv, 1) == Some(ps + rest),
            }),
            headers@ == assoc_map(chars_pairs(ps)),
            (match host_val {
                Some(hv) => last_value_bytes(ps, host_key_bytes()) == Some(hv@),
                None => last_value_bytes(ps, host_key_bytes()) is None,
            }),
        decreases lines.len() - i,
    {
        proof {
            assert(lv[i as int] == lines@[i as int]@);
        }
        let line = &lines[i];
        match split_first_colon(line) {
            None => {
                return Err(ProxyError::MalformedRequest);
            },
            Some(kv) => {
                let kb = kv.0;
                let vb = trim_bytes(&kv.1);
                let ghost pair = (kb@, vb@);
                let ghost ps0 = ps;
                let key_s = bytes_to_string(&kb);
                let val_s = bytes_to_string(&vb);
                let ghost h0 = headers@;
                headers.insert(key_s, val_s);
                if is_host_key(&kb) {
                    host_val = Some(vb);
                } else {
                }
                proof {
                    ps = ps.push(pair);
                    assert(chars_pairs(ps) =~= chars_pairs(ps0).push(
                        (to_chars(pair.0), to_chars(pair.1)),
                    ));
                    assert(chars_pairs(ps).drop_last() =~= chars_pairs(ps0));
                    assert(headers@ == assoc_map(chars_pairs(ps)));
                    assert(ps.drop_last() =~= ps0);
                    match spec_header_pairs(lv, i + 1) {
                        None => {},
                        Some(rest) => {
                            assert(ps0 + (seq![pair] + rest) =~= ps + rest);
                        },
                    }
                }
            },
        }
        i = i + 1;
    }
    proof {
        assert(spec_header_pairs(lv, i as int) == Some(Seq::<(Seq<u8>, Seq<u8>)>::empty()));
        assert(ps + Seq::<(Seq<u8>, Seq<u8>)>::empty() =~= ps);
    }
    Ok((headers, host_val))
}

/// The header mapping of a request buffer's lines, of which the first is
/// the request line: the lines after it up to the first blank line, each
/// split at its first colon into a name and a trimmed value, a later
/// occurrence of a name overwriting an earlier one. A line without a colon
/// before the blank line is a malformed request.
pub fn get_request_headers(lines: &Vec<Vec<u8>>) -> (r: Result<Headers, ProxyError>)
    ensures
        match r {
            Ok(h) => {
                &&& spec_header_pairs(vecs_view(lines@), 1) matches Some(ps)
                &&& h@ == assoc_map(chars_pairs(spec_header_pairs(vecs_view(lines@), 1)->Some_0))
            },
            Err(e) => {
                &&& spec_header_pairs(vecs_view(lines@), 1) is None
                &&& e == ProxyError::MalformedRequest
            },
        },
{
    match collect_headers(lines) {
        Ok(p) => Ok(p.0),
        Err(e) => Err(e),
    }
}

impl Request {
    /// An empty request, every part of it blank.
    pub fn new() -> (r: Request)
        ensures
            r.method@ == Seq::<char>::empty(),
            r.version@ == Seq::<char>::empty(),
            r.url_raw@ == Seq::<char>::empty(),
            r.headers@ == Map::<Seq<char>, Seq<char>>::empty(),
            r.raw_data@ == Seq::<u8>::empty(),
            r.host@ == Seq::<char>::empty(),
            r.port == 0,
    {
        Request {
            method: String::new(),
            version: String::new(),
            headers: Headers::new(),
            url_raw: String::new(),
            url: empty_url(),
            body: Body::Empty,
            raw_data: Vec::new(),
            host: String::new(),
            port: 0,
        }
    }

    /// Parses one request buffer, as `spec_parse` states, and keeps the
    /// buffer itself for opaque forwarding. Every ill-formed buffer is a
    /// `MalformedRequest` error, and no request is produced from it.
    pub fn parse(raw: Vec<u8>) -> (r: Result<Request, ProxyError>)
        ensures
            match r {
                Ok(req) => spec_parse(raw@) == Some(req@) && req.raw_data@ == raw@,
                Err(e) => spec_parse(raw@) is None && e == ProxyError::MalformedRequest,
            },
    {
        let ghost ls = spec_lines(raw@);
        let lines = split_lines(&raw);
        if lines.len() == 0 {
            return Err(ProxyError::MalformedRequest);
        }
        proof {
            assert(ls[0] == lines@[0]@);
        }
        let tokens = split_spaces(&lines[0]);
        if tokens.len() != 3 {
            return Err(ProxyError::MalformedRequest);
        }
        proof {
            assert(spec_tokens(ls[0])[0] == tokens@[0]@);
            assert(spec_tokens(ls[0])[1] == tokens@[1]@);
            assert(spec_tokens(ls[0])[2] == tokens@[2]@);
        }
        let (headers, host_opt) = match collect_headers(&lines) {
            Ok(p) => p,
            Err(e) => {
                return Err(e);
            },
        };
        let hv = match host_opt {
            Some(hv) => hv,
            None => {
                return Err(ProxyError::MalformedRequest);
            },
        };
        let method = bytes_to_string(&tokens[0]);
        let url_raw = bytes_to_string(&tokens[1]);
        let version = bytes_to_string(&tokens[2]);
        let connect = String::from_str("CONNECT");
        let is_conn = method == connect;
        let mut port: i32 = if is_conn {
            443
        } else {
            80
        };
        let host_string: String;
        match split_first_colon(&hv) {
            None => {
                host_string = bytes_to_string(&hv);
            },
            Some(hp) => {
                match parse_i32(&hp.1) {
                    None => {
                        return Err(ProxyError::MalformedRequest);
                    },
                    Some(p) => {
                        port = p;
                    },
                }
                host_string = bytes_to_string(&hp.0);
            },
        }
        let url = parse_url(&url_raw);
        let req = Request {
            method,
            version,
            headers,
            url_raw,
            url,
            body: Body::Empty,
            raw_data: raw,
            host: host_string,
            port,
        };
        proof {
            let sr = spec_parse(raw@)->Some_0;
            assert(spec_parse(raw@) is Some);
            assert(req@ =~= sr);
        }
        Ok(req)
    }
}

proof fn lemma_last_value_chars(ps: Seq<(Seq<u8>, Seq<u8>)>, k: Seq<u8>)
    ensures
        match last_value_bytes(ps, k) {
            Some(v) => crate::headers::last_value(chars_pairs(ps), to_chars(k)) == Some(
                to_chars(v),
            ),
            None => crate::headers::last_value(chars_pairs(ps), to_chars(k)) is None,
        },
    decreases ps.len(),
{
    if ps.len() > 0 {
        assert(chars_pairs(ps).last() == (to_chars(ps.last().0), to_chars(ps.last().1)));
        assert(chars_pairs(ps).drop_last() =~= chars_pairs(ps.drop_last()));
        if ps.last().0 == k {
        } else {
            if to_chars(ps.last().0) == to_chars(k) {
                crate::text::lemma_to_chars_injective(ps.last().0, k);
            }
            lemma_last_value_chars(ps.drop_last(), k);
        }
    }
}

/// Law: the header mapping of a parsed request keeps, for every header
/// name, the value of that name's last occurrence among the request's
/// header lines — a later line overwrites an earlier one with the same
/// name — and holds no name that never occurred.
pub proof fn lemma_parse_last_occurrence_wins(raw: Seq<u8>, k: Seq<u8>)
    requires
        spec_parse(raw) is Some,
    ensures
        ({
            let ps = spec_header_pairs(spec_lines(raw), 1)->Some_0;
            let hs = spec_parse(raw)->Some_0.headers;
            match last_value_bytes(ps, k) {
                Some(v) => hs.contains_key(to_chars(k)) && hs[to_chars(k)] == to_chars(v),
                None => !hs.contains_key(to_chars(k)),
            }
        }),
{
    let ps = spec_header_pairs(spec_lines(raw), 1)->Some_0;
    let hs = spec_parse(raw)->Some_0.headers;
    assert(hs == assoc_map(chars_pairs(ps)));
    lemma_last_value_chars(ps, k);
    crate::headers::lemma_last_occurrence_wins(chars_pairs(ps), to_chars(k));
}

impl Default for Request {
    /// The same empty request as `Request::new`.
    fn default() -> (r: Request)
        ensures
            r.method@ == Seq::<char>::empty(),
            r.version@ == Seq::<char>::empty(),
            r.url_raw@ == Seq::<char>::empty(),
            r.headers@ == Map::<Seq<char>, Seq<char>>::empty(),
            r.raw_data@ == Seq::<u8>::empty(),
            r.host@ == Seq::<char>::empty(),
            r.port == 0,
    {
        Request::new()
    }
}

} // verus!
