//! The request and response codec: an inbound HTTP request plus its remote
//! address becomes a Request Descriptor (lower-cased multi-valued headers,
//! parsed query string, forwarded-for override, content-type-directed body
//! handling), and a Response Descriptor becomes the parts of a real HTTP
//! response (status, one header line per value, the body text verbatim). A
//! reply that could not be decoded resolves to a 500 response with the
//! literal body `ERROR`.

use vstd::prelude::*;

use crate::decimal::decimal_chars;
use crate::headers;
use crate::json_text;
use crate::query;
use crate::table::{accumulated_lookup, MultiValueTable};
use crate::text;

verus! {

/// The value at `idx` under `name` in the normalized form of the given
/// header pairs; the empty string when absent.
pub open spec fn normalized_value_at(
    pairs: Seq<(Seq<char>, Seq<char>)>,
    name: Seq<char>,
    idx: int,
) -> Seq<char> {
    match accumulated_lookup(headers::lowered_pairs(pairs), name) {
        Some(vs) => if 0 <= idx < vs.len() {
            vs[idx]
        } else {
            Seq::empty()
        },
        None => Seq::empty(),
    }
}

/// The first `content-type` value of the normalized headers.
pub open spec fn content_type_of(pairs: Seq<(Seq<char>, Seq<char>)>) -> Seq<char> {
    normalized_value_at(pairs, "content-type"@, 0)
}

pub open spec fn is_json_content(ct: Seq<char>) -> bool {
    text::contains_seq(ct, "json"@)
}

pub open spec fn is_text_content(ct: Seq<char>) -> bool {
    text::contains_seq(ct, "text"@)
}

pub open spec fn is_url_encoded_form(ct: Seq<char>) -> bool {
    ct == "application/x-www-form-urlencoded"@
}

pub open spec fn is_multipart_form_data(ct: Seq<char>) -> bool {
    "multipart/form-data"@.len() <= ct.len() && ct.subrange(0, "multipart/form-data"@.len() as int)
        == "multipart/form-data"@
}

/// The body is read as text for JSON content, text content, and url-encoded
/// forms.
pub open spec fn reads_body_as_text(ct: Seq<char>) -> bool {
    is_json_content(ct) || is_text_content(ct) || is_url_encoded_form(ct)
}

/// How the connection layer must treat a request body before the descriptor
/// is built.
pub enum BodyReadPlan {
    /// Read the whole body as UTF-8 text.
    ReadAsText,
    /// Drain the body counting bytes, without parsing parts.
    DrainMultipart,
    /// Leave the body untouched.
    SkipBody,
}

/// What is done with the body for a content type: text kinds are read,
/// multipart with a boundary is drained, everything else is left untouched.
pub open spec fn body_read_plan_of(ct: Seq<char>) -> BodyReadPlan {
    if reads_body_as_text(ct) {
        BodyReadPlan::ReadAsText
    } else if is_multipart_form_data(ct) && text::contains_seq(ct, "boundary="@) {
        BodyReadPlan::DrainMultipart
    } else {
        BodyReadPlan::SkipBody
    }
}

/// Decide how the body of a request with this `content-type` value is to be
/// handled.
pub fn body_read_plan(content_type: &str) -> (r: BodyReadPlan)
    ensures
        r == body_read_plan_of(content_type@),
{
    if text::contains_str(content_type, "json") || text::contains_str(content_type, "text")
        || text::str_eq(content_type, "application/x-www-form-urlencoded") {
        BodyReadPlan::ReadAsText
    } else if text::starts_with_str(content_type, "multipart/form-data") && text::contains_str(
        content_type,
        "boundary=",
    ) {
        BodyReadPlan::DrainMultipart
    } else {
        BodyReadPlan::SkipBody
    }
}

pub struct SerializableHttpRequest {
    pub request_id: u64,
    pub remote_ip_address: String,
    pub remote_port: i32,
    pub method: String,
    pub path: String,
    pub queries: MultiValueTable,
    pub headers: MultiValueTable,
    pub body_as_text: String,
    pub body: Option<serde_json::Value>,
    pub url_encoded_form_data: MultiValueTable,
}

/// Build the Request Descriptor for one inbound request. `body_as_text` is
/// the body text the connection layer read under `BodyReadPlan::ReadAsText`
/// (empty when unread or unreadable). Fails exactly when the query string,
/// or a url-encoded form body, does not parse as url-encoded data.
pub fn serialize_http_request(
    request_id: u64,
    remote_ip_address: String,
    remote_port: u16,
    method: String,
    path: String,
    query_string: &str,
    header_pairs: &Vec<(String, String)>,
    body_as_text: String,
) -> (r: Option<SerializableHttpRequest>)
    ensures
        ({
            let pairs = headers::pairs_view(header_pairs@);
            let ct = content_type_of(pairs);
            &&& (r is Some) == (query::query_pairs(query_string@) is Some && (is_url_encoded_form(
                ct,
            ) ==> query::query_pairs(body_as_text@) is Some))
            &&& match r {
                Some(d) => {
                    let forwarded = normalized_value_at(pairs, "x-forwarded-for"@, 0);
                    &&& d.request_id == request_id
                    &&& d.remote_ip_address@ == (if forwarded.len() > 0 {
                        forwarded
                    } else {
                        remote_ip_address@
                    })
                    &&& d.remote_port == remote_port as i32
                    &&& d.method == method
                    &&& d.path == path
                    &&& d.queries.wf()
                    &&& (forall|k: Seq<char>| #[trigger] d.queries.lookup(k)
                        == query::query_lookup(query_string@, k))
                    &&& d.headers.wf()
                    &&& (forall|k: Seq<char>| #[trigger] d.headers.lookup(k)
                        == accumulated_lookup(headers::lowered_pairs(pairs), k))
                    &&& d.body_as_text@ == (if reads_body_as_text(ct) {
                        body_as_text@
                    } else {
                        Seq::<char>::empty()
                    })
                    &&& (d.body is Some) == (is_json_content(ct)
                        && json_text::json_wellformed(body_as_text@))
                    &&& d.url_encoded_form_data.wf()
                    &&& (if is_url_encoded_form(ct) {
                        forall|k: Seq<char>| #[trigger] d.url_encoded_form_data.lookup(k)
                            == query::query_lookup(body_as_text@, k)
                    } else {
                        forall|k: Seq<char>|
                            #[trigger] d.url_encoded_form_data.lookup(k) is None
                    })
                },
                None => true,
            }
        }),
{
    let header_table = headers::to_header_table(header_pairs);
    let queries_option = query::parse_url_encoded_string(query_string);
    let queries = match queries_option {
        Some(q) => q,
        None => {
            return None;
        },
    };
    let forwarded = headers::get_header_value("x-forwarded-for", 0, &header_table);
    let effective_ip = if forwarded.unicode_len() > 0 {
        forwarded
    } else {
        remote_ip_address
    };
    let content_type = headers::get_header_value("content-type", 0, &header_table);
    let is_json = text::contains_str(content_type.as_str(), "json");
    let is_text = text::contains_str(content_type.as_str(), "text");
    let is_form = text::str_eq(content_type.as_str(), "application/x-www-form-urlencoded");
    let reads_text = is_json || is_text || is_form;
    let body_text_used = if reads_text {
        body_as_text
    } else {
        String::new()
    };
    let body = if is_json {
        json_text::parse_json(body_text_used.as_str())
    } else {
        None
    };
    let form_data = if is_form {
        let parsed_form = query::parse_url_encoded_string(body_text_used.as_str());
        match parsed_form {
            Some(f) => f,
            None => {
                return None;
            },
        }
    } else {
        MultiValueTable::new()
    };
    Some(
        SerializableHttpRequest {
            request_id,
            remote_ip_address: effective_ip,
            remote_port: remote_port as i32,
            method,
            path,
            queries,
            headers: header_table,
            body_as_text: body_text_used,
            body,
            url_encoded_form_data: form_data,
        },
    )
}

pub struct SerializableHttpResponse {
    pub request_id: u64,
    pub status_code: u16,
    pub headers: MultiValueTable,
    pub body: String,
}

/// The parts of a materialized HTTP response, ready for the connection
/// layer to emit: the status, one header line per header value, and the
/// body text.
pub struct HttpResponseParts {
    pub status_code: u16,
    pub header_lines: Vec<(String, String)>,
    pub body: String,
}

/// One header line per value of each entry, keys in entry order and values
/// in stored order.
pub open spec fn flattened_headers(entries: Seq<(String, Vec<String>)>) -> Seq<
    (Seq<char>, Seq<char>),
>
    decreases entries.len(),
{
    if entries.len() == 0 {
        Seq::empty()
    } else {
        entry_lines(entries.first()) + flattened_headers(entries.drop_first())
    }
}

/// The header lines of one entry: its key paired with each of its values.
pub open spec fn entry_lines(entry: (String, Vec<String>)) -> Seq<(Seq<char>, Seq<char>)> {
    Seq::new(entry.1.deep_view().len(), |j: int| (entry.0@, entry.1.deep_view()[j]))
}

proof fn lemma_flattened_headers_add(a: Seq<(String, Vec<String>)>, b: Seq<(String, Vec<String>)>)
    ensures
        flattened_headers(a + b) == flattened_headers(a) + flattened_headers(b),
    decreases a.len(),
{
    if a.len() == 0 {
        assert(a + b =~= b);
        assert(flattened_headers(a) + flattened_headers(b) =~= flattened_headers(b));
    } else {
        assert((a + b).first() == a.first());
        assert((a + b).drop_first() =~= a.drop_first() + b);
        lemma_flattened_headers_add(a.drop_first(), b);
        assert(entry_lines(a.first()) + (flattened_headers(a.drop_first()) + flattened_headers(b))
            =~= (entry_lines(a.first()) + flattened_headers(a.drop_first())) + flattened_headers(
            b,
        ));
    }
}

/// Materialize a Response Descriptor into response parts: the status is
/// taken over, every header value becomes its own header line in order, and
/// the body text is used verbatim.
pub fn to_response_parts(descriptor: &SerializableHttpResponse) -> (p: HttpResponseParts)
    ensures
        p.status_code == descriptor.status_code,
        p.body == descriptor.body,
        headers::pairs_view(p.header_lines@) == flattened_headers(descriptor.headers.entries@),
{
    let mut header_lines: Vec<(String, String)> = Vec::new();
    let entries = &descriptor.headers.entries;
    let n = entries.len();
    let mut i: usize = 0;
    proof {
        assert(entries@.take(0) =~= Seq::<(String, Vec<String>)>::empty());
        assert(headers::pairs_view(header_lines@) =~= flattened_headers(entries@.take(0)));
    }
    while i < n
        invariant
            n == entries@.len(),
            i <= n,
            headers::pairs_view(header_lines@) == flattened_headers(entries@.take(i as int)),
        decreases n - i,
    {
        let key = &entries[i].0;
        let values = &entries[i].1;
        let m = values.len();
        let mut j: usize = 0;
        while j < m
            invariant
                n == entries@.len(),
                i < n,
                m == values@.len(),
                j <= m,
                key == entries@[i as int].0,
                values == entries@[i as int].1,
                headers::pairs_view(header_lines@) == flattened_headers(entries@.take(i as int))
                    + entry_lines(entries@[i as int]).take(j as int),
            decreases m - j,
        {
            let line = (key.clone(), values[j].clone());
            let ghost line_snap = line;
            let ghost old_lines = header_lines@;
            header_lines.push(line);
            proof {
                let a = flattened_headers(entries@.take(i as int));
                let b = entry_lines(entries@[i as int]);
                let lhs = headers::pairs_view(header_lines@);
                let rhs = a + b.take(j + 1);
                assert(values.deep_view()[j as int] == values@[j as int]@);
                assert(headers::pairs_view(old_lines) == a + b.take(j as int));
                assert(values.deep_view().len() == values@.len());
                assert(b.len() == values@.len());
                assert(headers::pairs_view(old_lines).len() == old_lines.len());
                assert((a + b.take(j as int)).len() == a.len() + j);
                assert(a.len() + j == old_lines.len());
                assert forall|l: int| 0 <= l < lhs.len() implies lhs[l] == rhs[l] by {
                    assert(lhs[l] == (header_lines@[l].0@, header_lines@[l].1@));
                    if l < old_lines.len() {
                        assert(header_lines@[l] == old_lines[l]);
                        assert(headers::pairs_view(old_lines)[l] == (
                            old_lines[l].0@,
                            old_lines[l].1@,
                        ));
                        assert(lhs[l] == (a + b.take(j as int))[l]);
                        if l >= a.len() {
                            assert((a + b.take(j as int))[l] == b.take(j as int)[l - a.len()]);
                            assert(b.take(j as int)[l - a.len()] == b[l - a.len()]);
                            assert(rhs[l] == b.take(j + 1)[l - a.len()]);
                            assert(b.take(j + 1)[l - a.len()] == b[l - a.len()]);
                        }
                    } else {
                        assert(header_lines@[l] == line_snap);
                        assert(line_snap.0@ == entries@[i as int].0@);
                        assert(line_snap.1@ == values@[j as int]@);
                        assert(rhs[l] == b.take(j + 1)[j as int]);
                        assert(b.take(j + 1)[j as int] == b[j as int]);
                        assert(b[j as int] == (
                            entries@[i as int].0@,
                            entries@[i as int].1.deep_view()[j as int],
                        ));
                    }
                }
                assert(lhs.len() == rhs.len());
                assert(lhs =~= rhs);
            }
            j = j + 1;
        }
        proof {
            assert(entry_lines(entries@[i as int]).take(m as int) =~= entry_lines(
                entries@[i as int],
            ));
            assert(entries@.take(i + 1) =~= entries@.take(i as int) + seq![entries@[i as int]]);
            lemma_flattened_headers_add(entries@.take(i as int), seq![entries@[i as int]]);
            assert(seq![entries@[i as int]].first() == entries@[i as int]);
            assert(seq![entries@[i as int]].drop_first() =~= Seq::<(String, Vec<String>)>::empty());
            assert(flattened_headers(Seq::<(String, Vec<String>)>::empty()) =~= Seq::<
                (Seq<char>, Seq<char>),
            >::empty());
            assert(flattened_headers(seq![entries@[i as int]]) =~~= entry_lines(
                entries@[i as int],
            ));
            assert(headers::pairs_view(header_lines@) =~~= flattened_headers(entries@.take(i + 1)));
        }
        i = i + 1;
    }
    proof {
        assert(entries@.take(n as int) =~= entries@);
    }
    HttpResponseParts {
        status_code: descriptor.status_code,
        header_lines,
        body: descriptor.body.clone(),
    }
}

/// Resolve the host's reply into response parts: a decoded descriptor is
/// materialized; a reply that failed to decode becomes a 500 response with
/// the literal body `ERROR` and no headers.
pub fn resolve_host_reply(reply: Option<SerializableHttpResponse>) -> (p: HttpResponseParts)
    ensures
        match reply {
            Some(d) => p.status_code == d.status_code && p.body == d.body
                && headers::pairs_view(p.header_lines@) == flattened_headers(d.headers.entries@),
            None => p.status_code == 500 && p.body@ == "ERROR"@ && p.header_lines@.len() == 0,
        },
{
    match reply {
        Some(d) => to_response_parts(&d),
        None => {
            let mut body = String::new();
            body.append("ERROR");
            proof {
                assert(body@ =~= "ERROR"@);
            }
            HttpResponseParts { status_code: 500, header_lines: Vec::new(), body }
        },
    }
}

/// The `host:port` text a listener binds to.
pub fn format_socket_address(host: &str, port: u16) -> (r: String)
    ensures
        r@ == host@ + ":"@ + decimal_chars(port as int),
{
    let mut out = String::new();
    out.append(host);
    out.append(":");
    let port_text = crate::decimal::format_u64(port as u64);
    out.append(port_text.as_str());
    proof {
        assert(out@ =~= host@ + ":"@ + decimal_chars(port as int));
    }
    out
}

} // verus!
