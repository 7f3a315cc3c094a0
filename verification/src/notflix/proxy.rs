//! Headers that a proxy does not pass on.

use vstd::prelude::*;
use crate::text::{chars_of, lowercase, same_chars};

verus! {

/// Whether a lower-case header name is that of a hop-by-hop header.
pub open spec fn is_hop_name(lowered: Seq<char>) -> bool {
    lowered == "connection"@ || lowered == "keep-alive"@ || lowered == "proxy-authenticate"@
        || lowered == "proxy-authorization"@ || lowered == "te"@ || lowered == "trailers"@
        || lowered == "transfer-encoding"@ || lowered == "upgrade"@
}

/// Whether a lower-case header name is that of a hop-by-hop header:
/// `connection`, `keep-alive`, `proxy-authenticate`, `proxy-authorization`,
/// `te`, `trailers`, `transfer-encoding` or `upgrade`.
pub fn is_hop_header_lowered(lowered: &str) -> (b: bool)
    ensures
        b == is_hop_name(lowered@),
{
    let n = chars_of(lowered);
    same_chars(&n, &chars_of("connection")) || same_chars(&n, &chars_of("keep-alive"))
        || same_chars(&n, &chars_of("proxy-authenticate")) || same_chars(
        &n,
        &chars_of("proxy-authorization"),
    ) || same_chars(&n, &chars_of("te")) || same_chars(&n, &chars_of("trailers")) || same_chars(
        &n,
        &chars_of("transfer-encoding"),
    ) || same_chars(&n, &chars_of("upgrade"))
}

/// Whether a header holds for one hop only, so that a proxy does not pass
/// it on. The case of the letters does not count.
pub fn is_hop_header(name: &str) -> (b: bool)
    ensures
        b == is_hop_name(lowercase(name@)),
{
    let lowered = name.to_lowercase();
    is_hop_header_lowered(lowered.as_str())
}

} // verus!
