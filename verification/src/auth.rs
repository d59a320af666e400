//! The guard in front of the disclosure: a request passes where it carries
//! the shared credential in the header `X-API-Key`.

use crate::text::{bytes_equal, eq_ignoring_case, same_but_for_case};
use vstd::prelude::*;
use vstd::string::*;
use vstd::utf8::encode_utf8;

verus! {

/// One header of a request: its name and the bytes of its value, as they
/// came.
#[derive(Clone, PartialEq, Eq)]
pub struct Header {
    pub name: String,
    pub value: Vec<u8>,
}

/// The mathematical content of a [`Header`].
pub struct HeaderView {
    pub name: Seq<char>,
    pub value: Seq<u8>,
}

impl View for Header {
    type V = HeaderView;

    open spec fn view(&self) -> HeaderView {
        HeaderView { name: self.name@, value: self.value@ }
    }
}

/// Why a request is turned away.
#[derive(Clone, Copy, Debug, PartialEq, Eq, Structural)]
pub enum DenyReason {
    /// The request carries no credential.
    Missing,
    /// The request carries a credential that is not the expected one.
    Invalid,
}

/// What the guard decides of a request.
#[derive(Clone, Copy, Debug, PartialEq, Eq, Structural)]
pub enum Decision {
    Allowed,
    Denied(DenyReason),
}

/// The headers that a sequence holds, by view.
pub open spec fn header_views(headers: Seq<Header>) -> Seq<HeaderView> {
    headers.map_values(|h: Header| h@)
}

/// Whether a header of this name carries the credential: the name is
/// `x-api-key`, in any case.
pub open spec fn is_credential_header(name: Seq<char>) -> bool {
    same_but_for_case(name, "x-api-key"@)
}

/// The credential that the headers present: the value of the first header
/// that carries one.
pub open spec fn presented(headers: Seq<HeaderView>) -> Option<Seq<u8>>
    decreases headers.len(),
{
    if headers.len() == 0 {
        None
    } else if is_credential_header(headers.first().name) {
        Some(headers.first().value)
    } else {
        presented(headers.drop_first())
    }
}

/// What the guard decides of headers where `expected` is the credential: a
/// request passes where the credential that it presents is `expected`, byte
/// for byte. Nothing is trimmed from either.
pub open spec fn decision(headers: Seq<HeaderView>, expected: Seq<char>) -> Decision {
    match presented(headers) {
        None => Decision::Denied(DenyReason::Missing),
        Some(value) => if value == encode_utf8(expected) {
            Decision::Allowed
        } else {
            Decision::Denied(DenyReason::Invalid)
        },
    }
}

/// The name of the header that carries the credential.
pub fn credential_header() -> (r: &'static str)
    ensures
        r@ == "x-api-key"@,
{
    "x-api-key"
}

/// Finds the credential that the headers present.
pub fn find_credential(headers: &Vec<Header>) -> (r: Option<usize>)
    ensures
        match r {
            Some(i) => i < headers.len() && presented(header_views(headers@)) == Some(
                headers@[i as int].value@,
            ),
            None => presented(header_views(headers@)) is None,
        },
{
    let ghost all = header_views(headers@);
    let mut i: usize = 0;
    assert(all.subrange(0, all.len() as int) =~= all);
    while i < headers.len()
        invariant
            i <= headers.len(),
            all == header_views(headers@),
            presented(all) == presented(all.subrange(i as int, all.len() as int)),
        decreases headers.len() - i,
    {
        let ghost rest = all.subrange(i as int, all.len() as int);
        assert(rest.first() == headers@[i as int]@);
        assert(rest.drop_first() =~= all.subrange(i + 1, all.len() as int));
        if eq_ignoring_case(headers[i].name.as_str(), credential_header()) {
            return Some(i);
        }
        i = i + 1;
    }
    None
}

/// Decides whether a request with these headers may pass, where `expected`
/// is the shared credential.
///
/// The request is denied as `Missing` where no header is named `X-API-Key`
/// (in any case), and as `Invalid` where the value of the first such header
/// is not `expected`, byte for byte.
pub fn authorize(headers: &Vec<Header>, expected: &str) -> (r: Decision)
    ensures
        r == decision(header_views(headers@), expected@),
{
    match find_credential(headers) {
        None => Decision::Denied(DenyReason::Missing),
        Some(i) => {
            if bytes_equal(headers[i].value.as_slice(), expected.as_bytes()) {
                Decision::Allowed
            } else {
                Decision::Denied(DenyReason::Invalid)
            }
        },
    }
}

/// The credential is matched exactly: a request that presents a text is
/// allowed where the text is the expected credential, character for
/// character, and denied as invalid where it is any other.
pub proof fn lemma_credential_is_matched_exactly(
    headers: Seq<HeaderView>,
    text: Seq<char>,
    expected: Seq<char>,
)
    requires
        presented(headers) == Some(encode_utf8(text)),
    ensures
        decision(headers, expected) == Decision::Allowed <==> text == expected,
        decision(headers, expected) == Decision::Denied(DenyReason::Invalid) <==> text
            != expected,
{
    vstd::utf8::encode_utf8_decode_utf8(text);
    vstd::utf8::encode_utf8_decode_utf8(expected);
}

/// A credential with anything after it is not the credential: white space
/// at the end of the value that a request presents is not trimmed away.
pub proof fn lemma_padded_credential_is_invalid(
    headers: Seq<HeaderView>,
    expected: Seq<char>,
    padding: Seq<char>,
)
    requires
        padding.len() > 0,
        presented(headers) == Some(encode_utf8(expected + padding)),
    ensures
        decision(headers, expected) == Decision::Denied(DenyReason::Invalid),
{
    assert((expected + padding).len() != expected.len());
    lemma_credential_is_matched_exactly(headers, expected + padding, expected);
}

/// An empty value is not the credential, unless the credential is empty.
pub proof fn lemma_empty_credential_is_invalid(headers: Seq<HeaderView>, expected: Seq<char>)
    requires
        expected.len() > 0,
        presented(headers) == Some(Seq::<u8>::empty()),
    ensures
        decision(headers, expected) == Decision::Denied(DenyReason::Invalid),
{
    assert(encode_utf8(Seq::<char>::empty()) =~= Seq::<u8>::empty());
    lemma_credential_is_matched_exactly(headers, Seq::<char>::empty(), expected);
}

} // verus!
