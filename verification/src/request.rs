//! One network request, and what is derived from its two addresses.

use vstd::prelude::*;
use crate::bridge::{psl_domain, registrable_part};
use crate::resource::{resource_type_of, ResourceType};
use crate::text::{chars_of, copy_range, is_digit, lower, lowered, same_text, string_of};
use crate::url::{host_end, host_of, host_start, lemma_host_range, locate_host, url_shape_ok};

verus! {

/// A host name written in digits and dots only: an address, not a name.
pub open spec fn is_numeric_host(host: Seq<char>) -> bool {
    forall|k: int| 0 <= k < host.len() ==> is_digit(#[trigger] host[k]) || host[k] == '.'
}

/// The site that a host belongs to: its registrable domain under the public
/// suffix list. A numeric host, and one without a registrable domain, is
/// a site of its own.
pub open spec fn site_of(host: Seq<char>) -> Seq<char> {
    if is_numeric_host(host) {
        host
    } else {
        match registrable_part(host) {
            Some(d) => d,
            None => host,
        }
    }
}

/// What a request is made of. All that is derived from it is a function of
/// these three.
pub struct RequestView {
    pub url: Seq<char>,
    pub source_url: Seq<char>,
    pub resource_type: ResourceType,
}

impl RequestView {
    /// The address that patterns are matched against: the requested
    /// address in lower case.
    pub open spec fn address(self) -> Seq<char> {
        lower(self.url)
    }

    /// Where the host name begins in `address()`.
    pub open spec fn host_start(self) -> int {
        host_start(self.address())
    }

    /// Where the host name ends in `address()`.
    pub open spec fn host_end(self) -> int {
        host_end(self.address())
    }

    /// The host name of the requested address, in lower case.
    pub open spec fn url_domain(self) -> Seq<char> {
        host_of(lower(self.url))
    }

    /// The host name of the page that makes the request, in lower case.
    pub open spec fn source_domain(self) -> Seq<char> {
        host_of(lower(self.source_url))
    }

    /// The request leaves the site of the page that makes it.
    pub open spec fn is_third_party(self) -> bool {
        site_of(self.url_domain()) != site_of(self.source_domain())
    }

    /// Both addresses are well shaped.
    pub open spec fn well_formed(self) -> bool {
        url_shape_ok(lower(self.url)) && url_shape_ok(lower(self.source_url))
    }
}

/// Why no request could be made of the input.
#[derive(Clone, Copy, PartialEq, Eq, Debug, Structural)]
pub enum QueryInputError {
    /// The requested address is malformed.
    MalformedUrl,
    /// The address of the requesting page is malformed.
    MalformedSourceUrl,
}

/// A request: the requested address, the address of the page that asks for
/// it, and the kind of resource asked for.
pub struct Request {
    url: String,
    source_url: String,
    resource_type: ResourceType,
    address: Vec<char>,
    host_start: usize,
    host_end: usize,
    source_domain: Vec<char>,
    third_party: bool,
}

fn numeric_host(host: &[char]) -> (r: bool)
    ensures
        r == is_numeric_host(host@),
{
    let mut i: usize = 0;
    while i < host.len()
        invariant
            i <= host.len(),
            forall|k: int| 0 <= k < i ==> is_digit(#[trigger] host@[k]) || host@[k] == '.',
        decreases host.len() - i,
    {
        let c = host[i];
        if !((c >= '0' && c <= '9') || c == '.') {
            return false;
        }
        i += 1;
    }
    true
}

/// The site that a host belongs to.
pub fn site(host: &[char]) -> (r: Vec<char>)
    ensures
        r@ == site_of(host@),
{
    if numeric_host(host) {
        return copy_range(host, 0, host.len());
    }
    let name = string_of(host);
    match psl_domain(name.as_str()) {
        Some(d) => chars_of(d.as_str()),
        None => copy_range(host, 0, host.len()),
    }
}

impl View for Request {
    type V = RequestView;

    closed spec fn view(&self) -> RequestView {
        RequestView { url: self.url@, source_url: self.source_url@, resource_type: self.resource_type }
    }
}

impl Request {
    #[verifier::type_invariant]
    spec fn inv(self) -> bool {
        &&& self@.well_formed()
        &&& self.address@ == self@.address()
        &&& self.host_start == self@.host_start()
        &&& self.host_end == self@.host_end()
        &&& self.source_domain@ == self@.source_domain()
        &&& self.third_party == self@.is_third_party()
    }

    /// Makes a request of two addresses and the name of a resource kind.
    /// Both addresses must be well shaped; a name that is not known stands
    /// for `Other`.
    pub fn new(url: &str, source_url: &str, resource_type: &str) -> (r: Result<Request, QueryInputError>)
        ensures
            match r {
                Ok(req) => req@ == (RequestView {
                    url: url@,
                    source_url: source_url@,
                    resource_type: resource_type_of(resource_type@),
                }) && req@.well_formed(),
                Err(QueryInputError::MalformedUrl) => !url_shape_ok(lower(url@)),
                Err(QueryInputError::MalformedSourceUrl) => url_shape_ok(lower(url@)) && !url_shape_ok(
                    lower(source_url@),
                ),
            },
    {
        let raw = chars_of(url);
        let address = lowered(raw.as_slice());
        let (hs, he) = match locate_host(address.as_slice()) {
            Some(range) => range,
            None => {
                return Err(QueryInputError::MalformedUrl);
            },
        };
        let raw_source = chars_of(source_url);
        let source = lowered(raw_source.as_slice());
        let (ss, se) = match locate_host(source.as_slice()) {
            Some(range) => range,
            None => {
                return Err(QueryInputError::MalformedSourceUrl);
            },
        };
        let source_domain = copy_range(source.as_slice(), ss, se);
        let url_domain = copy_range(address.as_slice(), hs, he);
        let url_site = site(url_domain.as_slice());
        let source_site = site(source_domain.as_slice());
        let third_party = !same_text(url_site.as_slice(), source_site.as_slice());
        let kind_name = chars_of(resource_type);
        let kind = ResourceType::from_name(kind_name.as_slice());
        Ok(
            Request {
                url: url.to_owned(),
                source_url: source_url.to_owned(),
                resource_type: kind,
                address,
                host_start: hs,
                host_end: he,
                source_domain,
                third_party,
            },
        )
    }

    /// The requested address, as it was given.
    pub fn url(&self) -> (r: &str)
        ensures
            r@ == self@.url,
    {
        self.url.as_str()
    }

    /// The address of the requesting page, as it was given.
    pub fn source_url(&self) -> (r: &str)
        ensures
            r@ == self@.source_url,
    {
        self.source_url.as_str()
    }

    /// The kind of resource asked for.
    pub fn resource_type(&self) -> (r: ResourceType)
        ensures
            r == self@.resource_type,
    {
        self.resource_type
    }

    /// The requested address in lower case.
    pub fn address(&self) -> (r: &[char])
        ensures
            r@ == self@.address(),
    {
        proof {
            use_type_invariant(self);
        }
        self.address.as_slice()
    }

    /// Where the host name lies in `address()`.
    pub fn host_range(&self) -> (r: (usize, usize))
        ensures
            r.0 == self@.host_start(),
            r.1 == self@.host_end(),
            r.0 < r.1 <= self@.address().len(),
            self@.well_formed(),
    {
        proof {
            use_type_invariant(self);
            lemma_host_range(self@.address());
        }
        (self.host_start, self.host_end)
    }

    /// The host name of the requested address.
    pub fn url_domain(&self) -> (r: Vec<char>)
        ensures
            r@ == self@.url_domain(),
    {
        proof {
            use_type_invariant(self);
            lemma_host_range(self@.address());
        }
        copy_range(self.address.as_slice(), self.host_start, self.host_end)
    }

    /// The host name of the requesting page.
    pub fn source_domain(&self) -> (r: &[char])
        ensures
            r@ == self@.source_domain(),
    {
        proof {
            use_type_invariant(self);
        }
        self.source_domain.as_slice()
    }

    /// Whether the request leaves the site of the requesting page.
    pub fn is_third_party(&self) -> (r: bool)
        ensures
            r == self@.is_third_party(),
    {
        proof {
            use_type_invariant(self);
        }
        self.third_party
    }
}

} // verus!
