use std::path::Path;
use vstd::prelude::*;

verus! {

#[verifier::external_type_specification]
#[verifier::external_body]
pub struct ExPath(Path);

/// The textual form of a path: its characters when it is valid Unicode,
/// `None` otherwise.
pub uninterp spec fn text_of(p: &Path) -> Option<Seq<char>>;

/// The components of a path under the platform's splitting rules, each as
/// its encoded bytes.
pub uninterp spec fn components_of(p: &Path) -> Seq<Seq<u8>>;

/// The components of the path whose textual form is `s`, each as its encoded
/// bytes.
pub uninterp spec fn text_components(s: Seq<char>) -> Seq<Seq<u8>>;

/// The components `prefix` begin `components`, whole component by whole
/// component.
pub open spec fn begins_with_components(components: Seq<Seq<u8>>, prefix: Seq<Seq<u8>>) -> bool {
    prefix.len() <= components.len() && components.take(prefix.len() as int) == prefix
}

/// Relies on `Path::new`: it wraps the string as a path, so the path's
/// textual form is the string itself.
#[verifier::external_body]
pub(crate) fn path_new(s: &str) -> (r: &Path)
    ensures
        text_of(r) == Some(s@),
        components_of(r) == text_components(s@),
{
    Path::new(s)
}

/// Relies on `Path::to_str`: `Some` exactly when the path is valid Unicode.
#[verifier::external_body]
pub(crate) fn path_to_str(p: &Path) -> (r: Option<&str>)
    ensures
        match text_of(p) {
            Some(t) => r is Some && r->Some_0@ == t,
            None => r is None,
        },
{
    p.to_str()
}

/// Relies on `Path::components`, each component taken as its encoded bytes
/// (`OsStr::as_encoded_bytes`).
#[verifier::external_body]
pub(crate) fn path_components(p: &Path) -> (r: Vec<Vec<u8>>)
    ensures
        r@.map_values(|c: Vec<u8>| c@) == components_of(p),
{
    p.components().map(|c| c.as_os_str().as_encoded_bytes().to_vec()).collect()
}

/// Relies on `Path::strip_prefix`: it succeeds exactly when `prefix` is a
/// prefix of the path by whole components (`Path::starts_with`), and what it
/// returns, joined onto `prefix`, gives the path back, so its components are
/// the path's components after those of `prefix`.
#[verifier::external_body]
pub(crate) fn path_strip_prefix<'a>(p: &'a Path, prefix: &str) -> (r: Option<&'a Path>)
    ensures
        r is Some <==> begins_with_components(components_of(p), text_components(prefix@)),
        r matches Some(q) ==> components_of(q) == components_of(p).skip(
            text_components(prefix@).len() as int,
        ),
{
    p.strip_prefix(prefix).ok()
}

} // verus!
