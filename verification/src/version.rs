//! Release naming.
use vstd::prelude::*;
use crate::text::push_str_chars;

verus! {

/// The release tag of a build whose version is `version`: the version
/// behind a `v`, as in `v0.2.0` or `v0.2.0-dev.20240203.abc12345`.
pub fn release_tag(version: &str) -> (r: String)
    ensures
        r@ == seq!['v'] + version@,
{
    let mut out = String::new();
    push_str_chars(&mut out, "v");
    push_str_chars(&mut out, version);
    proof {
        reveal_strlit("v");
    }
    assert(out@ =~= seq!['v'] + version@);
    out
}

} // verus!
