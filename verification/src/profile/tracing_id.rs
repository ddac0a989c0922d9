//! Adopting the request id the gateway assigned.
//!
//! This service never mints one. If a request arrives without an id it did not
//! come through the gateway, and the internal-token check will refuse it a
//! moment later — so an absent id is a signal, not something to paper over with
//! a fresh value that correlates with nothing.

use crate::common::headers::REQUEST_ID;
use crate::common::http::{
    copy_bytes, find_header, header_value, headers_view, set_header, with_header, Header,
    HeaderView,
};
use vstd::prelude::*;

verus! {

/// The correlation id the gateway attached, if any.
pub open spec fn correlation(headers: Seq<HeaderView>) -> Option<Seq<u8>> {
    header_value(headers, REQUEST_ID@)
}

/// The correlation id the gateway attached, if any.
pub fn inbound(headers: &Vec<Header>) -> (r: Option<Vec<u8>>)
    ensures
        match r {
            Some(id) => correlation(headers_view(headers@)) == Some(id@),
            None => correlation(headers_view(headers@)) is None,
        },
{
    match find_header(headers, REQUEST_ID) {
        Some(value) => Some(copy_bytes(value.as_slice())),
        None => None,
    }
}

/// Echoes the correlation id back to the caller.
pub fn echo(headers: Vec<Header>, id: Option<Vec<u8>>) -> (r: Vec<Header>)
    ensures
        headers_view(r@) == match id {
            Some(id) => with_header(headers_view(headers@), REQUEST_ID@, id@),
            None => headers_view(headers@),
        },
{
    match id {
        Some(id) => set_header(&headers, REQUEST_ID, id.as_slice()),
        None => headers,
    }
}

/// The correlation id is the first `X-Request-Id` header, byte for byte.
pub proof fn law_correlation_is_what_the_gateway_sent(headers: Seq<HeaderView>)
    ensures
        correlation(headers) == header_value(headers, "x-request-id"@),
{
}

} // verus!
