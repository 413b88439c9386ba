//! What a request comes to before anything is sent: whom to connect to,
//! what to ask for, and the encoded headers.

use crate::error::Error;
use crate::error::ErrorView;
use crate::error::Limit;
use crate::header::encodable;
use crate::header::first_offender;
use crate::header::header_block;
use crate::request::Request;
use crate::request::RequestView;
use crate::target::Endpoint;
use crate::target::EndpointView;
use crate::target::Target;
use crate::target::TargetView;
use vstd::prelude::*;

verus! {

/// Calls `conv::ValueInto::<u32>::value_into` on a `usize`. Trusted: it
/// gives the same number where that fits 32 bits, and an error, here
/// `None`, where it does not.
#[verifier::external_body]
pub(crate) fn to_u32(n: usize) -> (r: Option<u32>)
    ensures
        r == (if n <= u32::MAX {
            Some(n as u32)
        } else {
            None
        }),
{
    conv::ValueInto::<u32>::value_into(n).ok()
}

/// Everything that the calls of one GET are made from.
#[derive(Debug, PartialEq, Eq)]
pub struct Plan {
    /// The `User-Agent` that the session is opened under.
    pub agent: String,
    /// Where to connect.
    pub endpoint: Endpoint,
    /// Whether the transport is to be encrypted.
    pub secure: bool,
    /// The path and query to ask for.
    pub object_name: String,
    /// The header block, encoded.
    pub headers: Vec<u8>,
    /// The length of the header block.
    pub headers_length: u32,
}

/// A [`Plan`] with its strings as sequences.
pub ghost struct PlanView {
    pub agent: Seq<char>,
    pub endpoint: EndpointView,
    pub secure: bool,
    pub object_name: Seq<char>,
    pub headers: Seq<u8>,
    pub headers_length: u32,
}

impl View for Plan {
    type V = PlanView;

    open spec fn view(&self) -> PlanView {
        PlanView {
            agent: self.agent@,
            endpoint: self.endpoint@,
            secure: self.secure,
            object_name: self.object_name@,
            headers: self.headers@,
            headers_length: self.headers_length,
        }
    }
}

impl PlanView {
    /// The stated length is the header block's.
    pub open spec fn wf(self) -> bool {
        self.headers_length == self.headers.len()
    }
}

/// The plan for `request` once its URL has come apart as `target`, or why
/// there is none: the scheme is looked at first, then the headers, then the
/// length of their block.
pub open spec fn plan_for(target: TargetView, request: RequestView) -> Result<
    PlanView,
    ErrorView,
> {
    let headers = request.wire_headers();
    if target.endpoint() is None {
        Err(ErrorView::Scheme(target.scheme))
    } else if !encodable(headers) {
        Err(ErrorView::Encoding(first_offender(headers)))
    } else if header_block(headers).len() > u32::MAX {
        Err(ErrorView::Overflow(Limit::Headers))
    } else {
        Ok(
            PlanView {
                agent: request.user_agent(),
                endpoint: target.endpoint()->0,
                secure: target.is_secure(),
                object_name: target.object_name(),
                headers: header_block(headers),
                headers_length: header_block(headers).len() as u32,
            },
        )
    }
}

impl Plan {
    /// Plans the GET of `request`, whose URL has come apart as `target`.
    ///
    /// Nothing is sent. Fails with [`Error::Scheme`] unless the URL is an
    /// `http` or `https` URL with a host, else with [`Error::Encoding`] when
    /// a header does not fit ISO 8859-1, else with [`Error::Overflow`] when
    /// the header block is longer than a 32-bit count.
    pub fn new(target: &Target, request: &Request) -> (r: Result<Plan, Error>)
        ensures
            match r {
                Ok(plan) => plan_for(target@, request@) == Ok::<PlanView, ErrorView>(plan@)
                    && plan@.wf(),
                Err(e) => plan_for(target@, request@) == Err::<PlanView, ErrorView>(e@),
            },
    {
        let endpoint: Endpoint = target.endpoint()?;
        let headers: Vec<u8> = request.header_block()?;
        let headers_length: u32 = match to_u32(headers.len()) {
            Some(length) => length,
            None => {
                return Err(Error::Overflow(Limit::Headers));
            },
        };
        Ok(
            Plan {
                agent: request.user_agent().to_owned(),
                endpoint,
                secure: target.is_secure(),
                object_name: target.object_name(),
                headers,
                headers_length,
            },
        )
    }
}

} // verus!
