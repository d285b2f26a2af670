//! Which requests need a session token, and where the token is found.
use vstd::prelude::*;

verus! {

/// Whether `s` begins with `prefix`.
pub open spec fn has_prefix(s: Seq<char>, prefix: Seq<char>) -> bool {
    prefix.len() <= s.len() && s.take(prefix.len() as int) == prefix
}

/// Whether a request path is served without a session token: the
/// authentication routes, the API documentation, and the health check.
pub open spec fn public_path(path: Seq<char>) -> bool {
    has_prefix(path, "/api/auth/"@) || has_prefix(path, "/swagger-ui/"@) || has_prefix(
        path,
        "/api-docs/"@,
    ) || path == "/health"@
}

fn starts_with(s: &str, prefix: &str) -> (r: bool)
    ensures
        r == has_prefix(s@, prefix@),
{
    let n = s.unicode_len();
    let m = prefix.unicode_len();
    if m > n {
        return false;
    }
    let mut i: usize = 0;
    while i < m
        invariant
            n == s@.len(),
            m == prefix@.len(),
            m <= n,
            i <= m,
            forall|j: int| 0 <= j < i ==> s@[j] == prefix@[j],
        decreases m - i,
    {
        if s.get_char(i) != prefix.get_char(i) {
            assert(s@.take(m as int)[i as int] != prefix@[i as int]);
            return false;
        }
        i = i + 1;
    }
    assert(s@.take(m as int) =~= prefix@);
    true
}

/// Whether a request to `path` is served without a session token.
pub fn is_public_path(path: &str) -> (r: bool)
    ensures
        r == public_path(path@),
{
    starts_with(path, "/api/auth/") || starts_with(path, "/swagger-ui/") || starts_with(
        path,
        "/api-docs/",
    ) || String::from_str(path) == String::from_str("/health")
}

/// The token of an `Authorization` header of the form `Bearer <token>`.
pub fn bearer_token(header: &str) -> (r: Option<&str>)
    ensures
        has_prefix(header@, "Bearer "@) ==> (r matches Some(t) && t@ == header@.skip(
            "Bearer "@.len() as int,
        )),
        !has_prefix(header@, "Bearer "@) ==> r is None,
{
    let scheme = "Bearer ";
    if starts_with(header, scheme) {
        let n = header.unicode_len();
        let m = scheme.unicode_len();
        let t = header.substring_char(m, n);
        assert(t@ =~= header@.skip(m as int));
        Some(t)
    } else {
        None
    }
}

} // verus!
