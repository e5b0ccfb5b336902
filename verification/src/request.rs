//! From the inbound request to the outbound one: where it goes, which headers
//! travel with it, under which method, and with or without a body.

use vstd::prelude::*;
use vstd::string::*;

use crate::error::{AppError, AppErrorView};
use crate::header::{Header, HeaderView};
use crate::text::{chars_of, has_prefix, lower_chars_of, lowered, same_chars};
use crate::wire::{
    header_name_encodes, header_value_encodes, header_value_text, is_header_name, is_header_text,
    is_header_value, text_of,
};

verus! {

/// The methods that an outbound request can have.
#[derive(Clone, Copy, Debug, PartialEq, Eq, Structural)]
pub enum Method {
    Get,
    Post,
    Put,
    Delete,
    Patch,
    Head,
    Options,
}

/// What arrives of an inbound request before its body is read.
#[derive(Debug, PartialEq, Eq)]
pub struct RequestHead {
    pub method: String,
    pub path: String,
    pub query: Option<String>,
    pub headers: Vec<Header>,
}

/// The mathematical content of a [`RequestHead`].
pub struct RequestHeadView {
    pub method: Seq<char>,
    pub path: Seq<char>,
    pub query: Option<Seq<char>>,
    pub headers: Seq<HeaderView>,
}

impl DeepView for RequestHead {
    type V = RequestHeadView;

    open spec fn deep_view(&self) -> RequestHeadView {
        RequestHeadView {
            method: self.method@,
            path: self.path@,
            query: self.query.deep_view(),
            headers: self.headers.deep_view(),
        }
    }
}

/// The request to issue against the destination.
#[derive(Debug, PartialEq, Eq)]
pub struct OutboundRequest {
    /// Scheme, authority, path and, if any, query.
    pub url: String,
    pub method: Method,
    pub headers: Vec<Header>,
    /// `None` where no body is to be attached.
    pub body: Option<Vec<u8>>,
    /// How many namespaced headers were left out because they cannot be sent.
    pub skipped_headers: usize,
}

/// The mathematical content of an [`OutboundRequest`].
pub struct OutboundRequestView {
    pub url: Seq<char>,
    pub method: Method,
    pub headers: Seq<HeaderView>,
    pub body: Option<Seq<u8>>,
    pub skipped_headers: nat,
}

impl DeepView for OutboundRequest {
    type V = OutboundRequestView;

    open spec fn deep_view(&self) -> OutboundRequestView {
        OutboundRequestView {
            url: self.url@,
            method: self.method,
            headers: self.headers.deep_view(),
            body: match self.body {
                Some(bytes) => Some(bytes@),
                None => None,
            },
            skipped_headers: self.skipped_headers as nat,
        }
    }
}

/// The outbound method for an inbound method name. The seven names are matched
/// exactly, in capitals; every other name, a known method in another case
/// included, goes out as `GET`.
pub open spec fn method_of(name: Seq<char>) -> Method {
    if name == "POST"@ {
        Method::Post
    } else if name == "PUT"@ {
        Method::Put
    } else if name == "DELETE"@ {
        Method::Delete
    } else if name == "PATCH"@ {
        Method::Patch
    } else if name == "HEAD"@ {
        Method::Head
    } else if name == "OPTIONS"@ {
        Method::Options
    } else {
        Method::Get
    }
}

impl Method {
    /// The outbound method for an inbound method name: see [`method_of`].
    pub fn from_name(name: &str) -> (method: Method)
        ensures
            method == method_of(name@),
    {
        let chars = chars_of(name);
        let name = chars.as_slice();
        if same_chars(name, chars_of("POST").as_slice()) {
            Method::Post
        } else if same_chars(name, chars_of("PUT").as_slice()) {
            Method::Put
        } else if same_chars(name, chars_of("DELETE").as_slice()) {
            Method::Delete
        } else if same_chars(name, chars_of("PATCH").as_slice()) {
            Method::Patch
        } else if same_chars(name, chars_of("HEAD").as_slice()) {
            Method::Head
        } else if same_chars(name, chars_of("OPTIONS").as_slice()) {
            Method::Options
        } else {
            Method::Get
        }
    }
}

/// The name of the header that names the destination, in lower case.
pub open spec fn target_header() -> Seq<char> {
    "salt-host"@
}

/// The prefix of the headers that travel on to the destination, in lower case.
pub open spec fn forward_prefix() -> Seq<char> {
    "salt-"@
}

/// Whether a header name is `Salt-Host`, in any case.
pub open spec fn is_target_name(name: Seq<char>) -> bool {
    lowered(name) == target_header()
}

/// Whether a header is namespaced for the destination: its name begins with
/// `Salt-`, in any case, and is not `Salt-Host`.
pub open spec fn is_forward_name(name: Seq<char>) -> bool {
    forward_prefix().is_prefix_of(lowered(name)) && !is_target_name(name)
}

/// The value of the first header named `Salt-Host`.
pub open spec fn target_value(headers: Seq<HeaderView>) -> Option<Seq<u8>>
    decreases headers.len(),
{
    if headers.len() == 0 {
        None
    } else if is_target_name(headers[0].name) {
        Some(headers[0].value)
    } else {
        target_value(headers.drop_first())
    }
}

/// The destination that the headers name: the value of the first `Salt-Host`
/// header, if that value is visible ASCII text. A first `Salt-Host` header
/// that is not text hides any later one.
pub open spec fn target_host_spec(headers: Seq<HeaderView>) -> Option<Seq<char>> {
    match target_value(headers) {
        Some(value) => if is_header_text(value) {
            Some(text_of(value))
        } else {
            None
        },
        None => None,
    }
}

/// Whether the destination is a full origin, scheme included.
pub open spec fn has_scheme(host: Seq<char>) -> bool {
    "http://"@.is_prefix_of(host) || "https://"@.is_prefix_of(host)
}

/// The outbound URL: the destination, with `https://` put before it unless it
/// brings its own scheme, then the inbound path, then `?` and the inbound
/// query where the inbound request has one, the empty query included.
pub open spec fn target_url_spec(
    host: Seq<char>,
    path: Seq<char>,
    query: Option<Seq<char>>,
) -> Seq<char> {
    let origin = if has_scheme(host) {
        host
    } else {
        "https://"@ + host
    };
    match query {
        Some(q) => origin + path + "?"@ + q,
        None => origin + path,
    }
}

/// A header name without its five-character `Salt-` prefix.
pub open spec fn stripped(name: Seq<char>) -> Seq<char> {
    name.skip(5)
}

/// What an inbound header becomes on the way out: a namespaced header loses
/// its prefix and keeps its value, provided both can be sent; every other
/// header is dropped.
pub open spec fn forwarded(header: HeaderView) -> Option<HeaderView> {
    if is_forward_name(header.name) && is_header_name(stripped(header.name)) && is_header_value(
        header.value,
    ) {
        Some(HeaderView { name: stripped(header.name), value: header.value })
    } else {
        None
    }
}

/// [`forwarded`] as a function value.
pub open spec fn forwarding() -> spec_fn(HeaderView) -> Option<HeaderView> {
    |header: HeaderView| forwarded(header)
}

/// Whether a header is namespaced for the destination and yet cannot be sent.
pub open spec fn is_unsendable(header: HeaderView) -> bool {
    is_forward_name(header.name) && forwarded(header) is None
}

/// [`is_unsendable`] as a function value.
pub open spec fn unsendable() -> spec_fn(HeaderView) -> bool {
    |header: HeaderView| is_unsendable(header)
}

/// The outbound headers: the namespaced inbound headers that can be sent,
/// renamed, in their inbound order and with repeated names kept.
pub open spec fn forward_headers_spec(headers: Seq<HeaderView>) -> Seq<HeaderView> {
    headers.filter_map(forwarding())
}

/// How many namespaced inbound headers cannot be sent.
pub open spec fn skipped_forwards(headers: Seq<HeaderView>) -> nat {
    headers.filter(unsendable()).len()
}

/// The outbound request for an inbound request, before the body is known, or
/// the error where the inbound request names no destination.
pub open spec fn build_outbound_spec(head: RequestHeadView) -> Result<
    OutboundRequestView,
    AppErrorView,
> {
    match target_host_spec(head.headers) {
        None => Err(AppErrorView::MissingHeader("Salt-Host"@)),
        Some(host) => Ok(
            OutboundRequestView {
                url: target_url_spec(host, head.path, head.query),
                method: method_of(head.method),
                headers: forward_headers_spec(head.headers),
                body: None,
                skipped_headers: skipped_forwards(head.headers),
            },
        ),
    }
}

impl OutboundRequestView {
    /// The request with the inbound body: attached if it is not empty, left
    /// out if it is.
    pub open spec fn with_body(self, body: Seq<u8>) -> OutboundRequestView {
        OutboundRequestView {
            body: if body.len() > 0 {
                Some(body)
            } else {
                None
            },
            ..self
        }
    }
}

/// The destination that the headers name: see [`target_host_spec`].
pub fn target_host(headers: &Vec<Header>) -> (host: Option<String>)
    ensures
        host.deep_view() == target_host_spec(headers.deep_view()),
{
    let target = chars_of("salt-host");
    let ghost all = headers.deep_view();
    let mut i: usize = 0;
    assert(all.skip(0) =~= all);
    while i < headers.len()
        invariant
            i <= headers.len(),
            all == headers.deep_view(),
            target@ == target_header(),
            target_value(all) == target_value(all.skip(i as int)),
        decreases headers.len() - i,
    {
        let name = lower_chars_of(headers[i].name.as_str());
        assert(all.skip(i as int)[0] == headers[i as int].deep_view());
        assert(all.skip(i as int).drop_first() =~= all.skip(i + 1));
        if same_chars(name.as_slice(), target.as_slice()) {
            return header_value_text(headers[i].value.as_slice());
        }
        i += 1;
    }
    None
}

/// The outbound URL: see [`target_url_spec`].
pub fn target_url(host: &str, path: &str, query: Option<&str>) -> (url: String)
    ensures
        url@ == target_url_spec(
            host@,
            path@,
            match query {
                Some(q) => Some(q@),
                None => None,
            },
        ),
{
    let host_chars = chars_of(host);
    let full = has_prefix(host_chars.as_slice(), chars_of("http://").as_slice()) || has_prefix(
        host_chars.as_slice(),
        chars_of("https://").as_slice(),
    );
    let mut url = if full {
        String::from_str(host)
    } else {
        let mut url = String::from_str("https://");
        url.append(host);
        url
    };
    url.append(path);
    if let Some(q) = query {
        url.append("?");
        url.append(q);
    }
    url
}

/// The outbound headers, and how many namespaced headers were left out
/// because they cannot be sent: see [`forward_headers_spec`] and
/// [`skipped_forwards`].
pub fn forward_headers(headers: &Vec<Header>) -> (out: (Vec<Header>, usize))
    ensures
        out.0.deep_view() == forward_headers_spec(headers.deep_view()),
        out.1 == skipped_forwards(headers.deep_view()),
{
    let prefix = chars_of("salt-");
    let target = chars_of("salt-host");
    proof {
        reveal_strlit("salt-");
    }
    let ghost all = headers.deep_view();
    let mut kept: Vec<Header> = Vec::new();
    let mut skipped: usize = 0;
    let mut i: usize = 0;
    assert(all.take(0) =~= Seq::<HeaderView>::empty());
    while i < headers.len()
        invariant
            i <= headers.len(),
            all == headers.deep_view(),
            prefix@ == forward_prefix(),
            prefix@.len() == 5,
            target@ == target_header(),
            kept.deep_view() == forward_headers_spec(all.take(i as int)),
            skipped == skipped_forwards(all.take(i as int)),
            skipped <= i,
        decreases headers.len() - i,
    {
        let header = &headers[i];
        let ghost before = all.take(i as int);
        let ghost view = header.deep_view();
        proof {
            assert(all.take(i + 1) =~= before.push(view));
            all.lemma_filter_map_take_succ(forwarding(), i as int);
            before.lemma_filter_push(view, unsendable());
        }
        let name = lower_chars_of(header.name.as_str());
        if has_prefix(name.as_slice(), prefix.as_slice()) && !same_chars(
            name.as_slice(),
            target.as_slice(),
        ) {
            let len = header.name.as_str().unicode_len();
            let short = header.name.as_str().substring_char(5, len);
            assert(short@ =~= stripped(header.name@));
            if header_name_encodes(short) && header_value_encodes(header.value.as_slice()) {
                let ghost old_kept = kept.deep_view();
                kept.push(Header { name: short.to_owned(), value: header.value.clone() });
                assert(kept.deep_view() =~= old_kept.push(forwarded(view)->0));
            } else {
                skipped += 1;
            }
        }
        i += 1;
    }
    assert(all.take(headers.len() as int) =~= all);
    (kept, skipped)
}

/// Translates the head of an inbound request: see [`build_outbound_spec`].
///
/// Fails with `MissingHeader("Salt-Host")` exactly when the headers name no
/// destination, whatever the method and the path. The request that comes back
/// has no body yet: [`OutboundRequest::with_body`] attaches it.
pub fn build_outbound(head: &RequestHead) -> (result: Result<OutboundRequest, AppError>)
    ensures
        match result {
            Ok(request) => build_outbound_spec(head.deep_view()) == Ok::<
                OutboundRequestView,
                AppErrorView,
            >(request.deep_view()),
            Err(error) => build_outbound_spec(head.deep_view()) == Err::<
                OutboundRequestView,
                AppErrorView,
            >(error.deep_view()),
        },
{
    let host = match target_host(&head.headers) {
        Some(host) => host,
        None => {
            return Err(AppError::MissingHeader(String::from_str("Salt-Host")));
        },
    };
    let query: Option<&str> = match &head.query {
        Some(q) => Some(q.as_str()),
        None => None,
    };
    let url = target_url(host.as_str(), head.path.as_str(), query);
    let (headers, skipped_headers) = forward_headers(&head.headers);
    let method = Method::from_name(head.method.as_str());
    Ok(OutboundRequest { url, method, headers, body: None, skipped_headers })
}

impl OutboundRequest {
    /// Adds the inbound body: attached if it is not empty, left out if it is.
    pub fn with_body(self, body: Vec<u8>) -> (request: OutboundRequest)
        ensures
            request.deep_view() == self.deep_view().with_body(body@),
    {
        let body = if body.len() > 0 {
            Some(body)
        } else {
            None
        };
        OutboundRequest {
            url: self.url,
            method: self.method,
            headers: self.headers,
            body,
            skipped_headers: self.skipped_headers,
        }
    }
}

/// Nothing of the caller's own headers travels on: every outbound header
/// stems from an inbound header that is namespaced, keeps that header's
/// value and bears its name without the prefix. `Salt-Host` is not
/// namespaced, so it never travels on.
pub proof fn lemma_only_namespaced_headers_travel(headers: Seq<HeaderView>)
    ensures
        forall|i: int|
            0 <= i < forward_headers_spec(headers).len() ==> exists|j: int|
                0 <= j < headers.len() && is_forward_name(headers[j].name) && (
                #[trigger] forward_headers_spec(headers)[i]) == (HeaderView {
                    name: stripped(headers[j].name),
                    value: headers[j].value,
                }),
        (forall|j: int| 0 <= j < headers.len() ==> !is_forward_name(#[trigger] headers[j].name))
            ==> forward_headers_spec(headers).len() == 0,
{
    let out = forward_headers_spec(headers);
    assert forall|i: int| 0 <= i < out.len() implies exists|j: int|
        0 <= j < headers.len() && is_forward_name(headers[j].name) && (#[trigger] out[i]) == (
        HeaderView { name: stripped(headers[j].name), value: headers[j].value }) by {
        assert(out.contains(out[i]));
        headers.lemma_filter_map_contains(forwarding(), out[i]);
        let source = choose|t: HeaderView| #[trigger]
            headers.contains(t) && forwarding()(t) == Some(out[i]);
        let j = choose|j: int| 0 <= j < headers.len() && headers[j] == source;
        assert(is_forward_name(headers[j].name));
    }
    if forall|j: int| 0 <= j < headers.len() ==> !is_forward_name(#[trigger] headers[j].name) {
        if out.len() > 0 {
            let j = choose|j: int|
                0 <= j < headers.len() && is_forward_name(headers[j].name) && out[0] == (
                HeaderView { name: stripped(headers[j].name), value: headers[j].value });
            assert(!is_forward_name(headers[j].name));
        }
    }
}

} // verus!
