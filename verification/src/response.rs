//! From the destination's response to the response for the caller: the same
//! status, the same body, and the headers without those that frame the body.

use vstd::prelude::*;
use vstd::string::*;

use crate::error::{AppError, AppErrorView};
use crate::header::{Header, HeaderView};
use crate::text::{chars_of, lower_chars_of, lowered, same_chars};
use crate::wire::{
    header_name_encodes, header_value_encodes, is_header_name, is_header_value, is_status_code,
    status_code_encodes,
};

verus! {

/// What arrives of the destination's response before its body is read.
#[derive(Debug, PartialEq, Eq)]
pub struct ResponseHead {
    pub status: u16,
    pub headers: Vec<Header>,
}

/// The mathematical content of a [`ResponseHead`].
pub struct ResponseHeadView {
    pub status: u16,
    pub headers: Seq<HeaderView>,
}

impl DeepView for ResponseHead {
    type V = ResponseHeadView;

    open spec fn deep_view(&self) -> ResponseHeadView {
        ResponseHeadView { status: self.status, headers: self.headers.deep_view() }
    }
}

/// The response that goes back to the caller.
#[derive(Debug, PartialEq, Eq)]
pub struct InboundResponse {
    pub status: u16,
    pub headers: Vec<Header>,
    pub body: Vec<u8>,
    /// How many headers were left out because they cannot be sent.
    pub skipped_headers: usize,
}

/// The mathematical content of an [`InboundResponse`].
pub struct InboundResponseView {
    pub status: u16,
    pub headers: Seq<HeaderView>,
    pub body: Seq<u8>,
    pub skipped_headers: nat,
}

impl DeepView for InboundResponse {
    type V = InboundResponseView;

    open spec fn deep_view(&self) -> InboundResponseView {
        InboundResponseView {
            status: self.status,
            headers: self.headers.deep_view(),
            body: self.body@,
            skipped_headers: self.skipped_headers as nat,
        }
    }
}

/// Whether a header frames the body: `Transfer-Encoding`, `Content-Length` or
/// `Connection`, in any case. The serving side writes its own.
pub open spec fn is_framing_name(name: Seq<char>) -> bool {
    ||| lowered(name) == "transfer-encoding"@
    ||| lowered(name) == "content-length"@
    ||| lowered(name) == "connection"@
}

/// Whether a header of the destination's response goes back to the caller: it
/// does not frame the body, and its name and value can be sent.
pub open spec fn is_relayed(header: HeaderView) -> bool {
    !is_framing_name(header.name) && is_header_name(header.name) && is_header_value(header.value)
}

/// [`is_relayed`] as a function value.
pub open spec fn relayed() -> spec_fn(HeaderView) -> bool {
    |header: HeaderView| is_relayed(header)
}

/// Whether a header is left out although it does not frame the body.
pub open spec fn is_unrelayable(header: HeaderView) -> bool {
    !is_framing_name(header.name) && !is_relayed(header)
}

/// [`is_unrelayable`] as a function value.
pub open spec fn unrelayable() -> spec_fn(HeaderView) -> bool {
    |header: HeaderView| is_unrelayable(header)
}

/// The headers for the caller: those of the destination's response that are
/// relayed, as they are, in their order and with repeated names kept.
pub open spec fn relay_headers_spec(headers: Seq<HeaderView>) -> Seq<HeaderView> {
    headers.filter(relayed())
}

/// How many headers are left out although they do not frame the body.
pub open spec fn skipped_relays(headers: Seq<HeaderView>) -> nat {
    headers.filter(unrelayable()).len()
}

/// The response for the caller, or the error where the status cannot be sent.
pub open spec fn build_inbound_response_spec(head: ResponseHeadView, body: Seq<u8>) -> Result<
    InboundResponseView,
    AppErrorView,
> {
    if is_status_code(head.status) {
        Ok(
            InboundResponseView {
                status: head.status,
                headers: relay_headers_spec(head.headers),
                body,
                skipped_headers: skipped_relays(head.headers),
            },
        )
    } else {
        Err(AppErrorView::ResponseBuildError)
    }
}

/// The headers for the caller, and how many were left out because they cannot
/// be sent: see [`relay_headers_spec`] and [`skipped_relays`].
pub fn relay_headers(headers: &Vec<Header>) -> (out: (Vec<Header>, usize))
    ensures
        out.0.deep_view() == relay_headers_spec(headers.deep_view()),
        out.1 == skipped_relays(headers.deep_view()),
{
    let transfer_encoding = chars_of("transfer-encoding");
    let content_length = chars_of("content-length");
    let connection = chars_of("connection");
    let ghost all = headers.deep_view();
    let mut kept: Vec<Header> = Vec::new();
    let mut skipped: usize = 0;
    let mut i: usize = 0;
    assert(all.take(0) =~= Seq::<HeaderView>::empty());
    while i < headers.len()
        invariant
            i <= headers.len(),
            all == headers.deep_view(),
            transfer_encoding@ == "transfer-encoding"@,
            content_length@ == "content-length"@,
            connection@ == "connection"@,
            kept.deep_view() == relay_headers_spec(all.take(i as int)),
            skipped == skipped_relays(all.take(i as int)),
            skipped <= i,
        decreases headers.len() - i,
    {
        let header = &headers[i];
        let ghost before = all.take(i as int);
        let ghost view = header.deep_view();
        proof {
            assert(all.take(i + 1) =~= before.push(view));
            before.lemma_filter_push(view, relayed());
            before.lemma_filter_push(view, unrelayable());
        }
        let name = lower_chars_of(header.name.as_str());
        let framing = same_chars(name.as_slice(), transfer_encoding.as_slice()) || same_chars(
            name.as_slice(),
            content_length.as_slice(),
        ) || same_chars(name.as_slice(), connection.as_slice());
        if !framing {
            if header_name_encodes(header.name.as_str()) && header_value_encodes(
                header.value.as_slice(),
            ) {
                let ghost old_kept = kept.deep_view();
                kept.push(header.clone());
                assert(kept.deep_view() =~= old_kept.push(view));
            } else {
                skipped += 1;
            }
        }
        i += 1;
    }
    assert(all.take(headers.len() as int) =~= all);
    (kept, skipped)
}

/// Puts the response for the caller together: see
/// [`build_inbound_response_spec`].
///
/// Fails with `ResponseBuildError` exactly when the status is no status code.
/// Otherwise the status and the body are those of the destination's response,
/// byte for byte.
pub fn build_inbound_response(head: &ResponseHead, body: Vec<u8>) -> (result: Result<
    InboundResponse,
    AppError,
>)
    ensures
        match result {
            Ok(response) => build_inbound_response_spec(head.deep_view(), body@) == Ok::<
                InboundResponseView,
                AppErrorView,
            >(response.deep_view()),
            Err(error) => build_inbound_response_spec(head.deep_view(), body@) == Err::<
                InboundResponseView,
                AppErrorView,
            >(error.deep_view()),
        },
        result matches Ok(response) ==> response.status == head.status && response.body@ == body@,
{
    if !status_code_encodes(head.status) {
        return Err(AppError::ResponseBuildError);
    }
    let (headers, skipped_headers) = relay_headers(&head.headers);
    Ok(InboundResponse { status: head.status, headers, body, skipped_headers })
}

/// None of the three framing headers comes back to the caller, under any
/// spelling of its name, and every header that is relayed comes back as it
/// was: where all headers are relayed, the caller gets the very same list.
pub proof fn lemma_relay_drops_only_framing_headers(headers: Seq<HeaderView>)
    ensures
        forall|i: int|
            0 <= i < relay_headers_spec(headers).len() ==> !is_framing_name(
                (#[trigger] relay_headers_spec(headers)[i]).name,
            ),
        forall|i: int|
            0 <= i < headers.len() && is_relayed(headers[i]) ==> relay_headers_spec(
                headers,
            ).contains(#[trigger] headers[i]),
        forall|i: int|
            0 <= i < relay_headers_spec(headers).len() ==> headers.contains(
                #[trigger] relay_headers_spec(headers)[i],
            ),
        (forall|i: int| 0 <= i < headers.len() ==> is_relayed(#[trigger] headers[i]))
            ==> relay_headers_spec(headers) == headers,
    decreases headers.len(),
{
    broadcast use vstd::seq_lib::group_filter_ensures;

    assert forall|i: int| 0 <= i < relay_headers_spec(headers).len() implies headers.contains(
        #[trigger] relay_headers_spec(headers)[i],
    ) by {
        let h = relay_headers_spec(headers)[i];
        assert(headers.filter(relayed()).contains(h));
        headers.lemma_filter_contains_rev(relayed(), h);
    }
    if forall|i: int| 0 <= i < headers.len() ==> is_relayed(#[trigger] headers[i]) {
        lemma_filter_all(headers);
    }
}

/// A list whose headers are all relayed is relayed whole.
proof fn lemma_filter_all(headers: Seq<HeaderView>)
    requires
        forall|i: int| 0 <= i < headers.len() ==> is_relayed(#[trigger] headers[i]),
    ensures
        relay_headers_spec(headers) == headers,
    decreases headers.len(),
{
    if headers.len() == 0 {
        assert(headers.filter(relayed()) =~= headers) by {
            reveal(Seq::filter);
        }
    } else {
        let rest = headers.drop_last();
        lemma_filter_all(rest);
        assert(rest.push(headers.last()) =~= headers);
        rest.lemma_filter_push(headers.last(), relayed());
    }
}

} // verus!
