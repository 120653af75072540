//! Size limits on what is retrieved, and the failures of a retrieval.
//!
//! A response is measured twice: by the length it announces, before anything
//! is read, and by the bytes that actually arrived. Either measurement alone
//! can reject it, so a response that announces no length, or a wrong one, is
//! still held to the limit.

use vstd::prelude::*;
use vstd::string::StringExecFns;

verus! {

/// Largest page body that is accepted, in bytes (10 MiB).
pub const MAX_PAGE_SIZE: u64 = 10 * 1024 * 1024;

/// Largest image that is accepted, in bytes (10 MiB).
pub const MAX_IMAGE_SIZE: u64 = 10 * 1024 * 1024;

/// Largest stylesheet that is accepted, in bytes (5 MiB).
pub const MAX_CSS_SIZE: u64 = 5 * 1024 * 1024;

/// Greatest number of stylesheet links of one page that are followed.
pub const MAX_STYLESHEETS: usize = 50;

/// Greatest depth of an import chain that is followed.
pub const MAX_IMPORT_DEPTH: usize = 3;

/// Seconds after which a request is given up.
pub const REQUEST_TIMEOUT_SECS: u64 = 30;

/// The kind of resource a size limit applies to.
#[derive(Clone, Copy, Debug, PartialEq, Eq, Structural)]
pub enum Resource {
    Page,
    Image,
    Stylesheet,
}

/// Why a retrieval failed.
#[derive(Debug)]
pub enum FetchError {
    /// The resource is larger than its limit. `size` is the length that was
    /// announced or that arrived, whichever gave it away.
    TooLarge { what: Resource, size: u64, limit: u64 },
    /// The transfer failed; the text is the transport's description.
    Network(String),
    /// The address could not be parsed; the text is the parser's description.
    MalformedUrl(String),
}

/// A failure as mathematical values.
pub enum Failure {
    TooLarge { what: Resource, size: u64, limit: u64 },
    Network(Seq<char>),
    MalformedUrl(Seq<char>),
}

impl View for FetchError {
    type V = Failure;

    open spec fn view(&self) -> Failure {
        match self {
            FetchError::TooLarge { what, size, limit } => Failure::TooLarge {
                what: *what,
                size: *size,
                limit: *limit,
            },
            FetchError::Network(cause) => Failure::Network(cause@),
            FetchError::MalformedUrl(cause) => Failure::MalformedUrl(cause@),
        }
    }
}

/// The limit that applies to a kind of resource.
pub open spec fn limit_of(what: Resource) -> u64 {
    match what {
        Resource::Page => MAX_PAGE_SIZE,
        Resource::Image => MAX_IMAGE_SIZE,
        Resource::Stylesheet => MAX_CSS_SIZE,
    }
}

/// A length was announced and it is over the limit.
pub open spec fn announced_too_large(announced: Option<u64>, limit: u64) -> bool {
    announced matches Some(n) && n > limit
}

/// A resource is accepted exactly if neither the announced length, when
/// there is one, nor the length that arrived is over the limit.
pub open spec fn accepted(what: Resource, announced: Option<u64>, arrived: nat) -> bool {
    !announced_too_large(announced, limit_of(what)) && arrived <= limit_of(what)
}

/// The decimal digit for a value below ten.
pub open spec fn digit(d: int) -> char {
    ((48 + d) as u8) as char
}

/// A number written in decimal, without leading zeros.
pub open spec fn decimal(n: nat) -> Seq<char>
    decreases n,
{
    if n < 10 {
        seq![digit(n as int)]
    } else {
        decimal(n / 10).push(digit((n % 10) as int))
    }
}

/// The word for a kind of resource in a failure's description.
pub open spec fn noun(what: Resource) -> Seq<char> {
    match what {
        Resource::Page => "page"@,
        Resource::Image => "image"@,
        Resource::Stylesheet => "stylesheet"@,
    }
}

/// The human-readable cause of a failure.
pub open spec fn description(f: Failure) -> Seq<char> {
    match f {
        Failure::TooLarge { what, size, limit } => noun(what) + " too large: "@ + decimal(
            size as nat,
        ) + " bytes exceeds "@ + decimal(limit as nat) + " byte limit"@,
        Failure::Network(cause) => cause,
        Failure::MalformedUrl(cause) => cause,
    }
}

/// Whatever is announced, a resource of more bytes than the limit is never
/// accepted: if the announcement gives it away it is refused before the body
/// is read, and otherwise once the body has arrived.
pub proof fn lemma_oversize_is_rejected(what: Resource, announced: Option<u64>, arrived: nat)
    requires
        arrived > limit_of(what),
    ensures
        !accepted(what, announced, arrived),
        announced == Some(arrived as u64) && arrived <= u64::MAX ==> announced_too_large(
            announced,
            limit_of(what),
        ),
{
}

/// A resource within the limit whose announcement is absent or truthful is
/// accepted.
pub proof fn lemma_within_limit_is_accepted(what: Resource, announced: Option<u64>, arrived: nat)
    requires
        arrived <= limit_of(what),
        announced is None || announced == Some(arrived as u64),
    ensures
        accepted(what, announced, arrived),
{
}

/// Gives the limit that applies to a kind of resource.
pub fn size_limit(what: Resource) -> (limit: u64)
    ensures
        limit == limit_of(what),
{
    match what {
        Resource::Page => MAX_PAGE_SIZE,
        Resource::Image => MAX_IMAGE_SIZE,
        Resource::Stylesheet => MAX_CSS_SIZE,
    }
}

/// Judges a response by the length it announces, before its body is read.
pub fn admit_head(what: Resource, announced: Option<u64>) -> (r: Result<(), FetchError>)
    ensures
        r is Err <==> announced_too_large(announced, limit_of(what)),
        r matches Err(e) ==> e@ == (Failure::TooLarge {
            what,
            size: announced->0,
            limit: limit_of(what),
        }),
{
    let limit = size_limit(what);
    match announced {
        Some(n) => {
            if n > limit {
                Err(FetchError::TooLarge { what, size: n, limit })
            } else {
                Ok(())
            }
        },
        None => Ok(()),
    }
}

/// Judges a response by the number of bytes that arrived.
pub fn admit_body(what: Resource, arrived: usize) -> (r: Result<(), FetchError>)
    ensures
        r is Err <==> arrived > limit_of(what),
        r matches Err(e) ==> e@ == (Failure::TooLarge {
            what,
            size: arrived as u64,
            limit: limit_of(what),
        }),
{
    let limit = size_limit(what);
    let size: u64 = arrived as u64;
    if size > limit {
        Err(FetchError::TooLarge { what, size, limit })
    } else {
        Ok(())
    }
}

fn push_decimal(n: u64, out: &mut String)
    ensures
        final(out)@ == old(out)@ + decimal(n as nat),
    decreases n,
{
    if n >= 10 {
        push_decimal(n / 10, out);
    }
    let d: u8 = (n % 10) as u8;
    out.push((48 + d) as char);
    proof {
        if n >= 10 {
            assert((old(out)@ + decimal((n / 10) as nat)).push(digit((n % 10) as int)) =~= old(
                out,
            )@ + decimal(n as nat));
        } else {
            assert(old(out)@.push(digit(n as int)) =~= old(out)@ + decimal(n as nat));
        }
    }
}

fn noun_of(what: Resource) -> (s: &'static str)
    ensures
        s@ == noun(what),
{
    match what {
        Resource::Page => "page",
        Resource::Image => "image",
        Resource::Stylesheet => "stylesheet",
    }
}

impl FetchError {
    /// The human-readable cause of the failure.
    pub fn message(&self) -> (out: String)
        ensures
            out@ == description(self@),
    {
        match self {
            FetchError::TooLarge { what, size, limit } => {
                let mut out = String::from_str(noun_of(*what));
                out.append(" too large: ");
                push_decimal(*size, &mut out);
                out.append(" bytes exceeds ");
                push_decimal(*limit, &mut out);
                out.append(" byte limit");
                out
            },
            FetchError::Network(cause) => cause.clone(),
            FetchError::MalformedUrl(cause) => cause.clone(),
        }
    }
}

} // verus!
