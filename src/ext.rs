use crate::path::{
    begins_with_components, components_of, path_components, path_new, path_strip_prefix,
    path_to_str, text_components, text_of,
};
use crate::text::{
    is_infix, lemma_stem_at, occurs_at, is_prefix, is_suffix, stem, text_contains, text_ends_with, text_starts_with,
    text_stem,
};
use std::path::Path;
use vstd::prelude::*;
use vstd::string::StringSliceAdditionalSpecFns;

verus! {

/// The characters of an optional textual form.
pub open spec fn text_view(text: Option<&str>) -> Option<Seq<char>> {
    match text {
        Some(t) => Some(t@),
        None => None,
    }
}

/// A textual form exists and holds `pattern` as a contiguous run.
pub open spec fn contains_spec(text: Option<Seq<char>>, pattern: Seq<char>) -> bool {
    match text {
        Some(t) => is_infix(pattern, t),
        None => false,
    }
}

/// A textual form exists and begins or ends with `pattern`.
pub open spec fn starts_or_ends_spec(text: Option<Seq<char>>, pattern: Seq<char>) -> bool {
    match text {
        Some(t) => is_prefix(pattern, t) || is_suffix(pattern, t),
        None => false,
    }
}

/// A textual form exists and ends with `pattern`.
pub open spec fn ends_spec(text: Option<Seq<char>>, pattern: Seq<char>) -> bool {
    match text {
        Some(t) => is_suffix(pattern, t),
        None => false,
    }
}

/// The stem of the textual form, when there is one.
pub open spec fn stem_spec(text: Option<Seq<char>>) -> Option<Seq<char>> {
    match text {
        Some(t) => Some(stem(t)),
        None => None,
    }
}

/// `r` is what is left of a path with textual form `text` and components
/// `components` once `prefix` is removed if it begins the path: the
/// components after those of `prefix`, or else the path unchanged.
pub open spec fn stripped_as_needed(
    text: Option<Seq<char>>,
    components: Seq<Seq<u8>>,
    prefix: Seq<char>,
    r: &Path,
) -> bool {
    if begins_with_components(components, text_components(prefix)) {
        components_of(r) == components.skip(text_components(prefix).len() as int)
    } else {
        text_of(r) == text && components_of(r) == components
    }
}

/// Queries on a path and its textual form.
pub trait PathExt {
    /// The textual form of the path, when it has one.
    spec fn text_form(&self) -> Option<Seq<char>>;

    /// The components of the path, each as its encoded bytes.
    spec fn component_seq(&self) -> Seq<Seq<u8>>;

    /// Whether the textual form holds `pattern` as a contiguous run of
    /// characters; `false` when there is no textual form.
    fn contains(&self, pattern: &str) -> (r: bool)
        ensures
            r == contains_spec(self.text_form(), pattern@),
    ;

    /// Whether the textual form ends with `pattern`, character by character,
    /// so that `.tar.gz`, `gz` or `z` all end `archive.tar.gz`; `false` when
    /// there is no textual form.
    fn ends_with_extensions(&self, pattern: &str) -> (r: bool)
        ensures
            r == ends_spec(self.text_form(), pattern@),
    ;

    /// Whether `component` is, byte for byte, one whole component of the path.
    fn has_component(&self, component: &str) -> (r: bool)
        ensures
            r == self.component_seq().contains(component.spec_bytes()),
    ;

    /// Whether the textual form begins or ends with `pattern`; `false` when
    /// there is no textual form.
    fn starts_or_ends_with(&self, pattern: &str) -> (r: bool)
        ensures
            r == starts_or_ends_spec(self.text_form(), pattern@),
    ;

    /// The textual form up to its first `.`, borrowed from it; `None` when
    /// there is no textual form.
    fn strip_extensions(&self) -> (r: Option<&str>)
        ensures
            text_view(r) == stem_spec(self.text_form()),
    ;

    /// The path without `prefix` where `prefix` begins it by whole
    /// components; the path unchanged otherwise.
    fn strip_prefix_if_needed<'a>(&'a self, prefix: &str) -> (r: &'a Path)
        ensures
            stripped_as_needed(self.text_form(), self.component_seq(), prefix@, r),
    ;
}

fn contains_in(text: Option<&str>, pattern: &str) -> (r: bool)
    ensures
        r == contains_spec(text_view(text), pattern@),
{
    match text {
        Some(t) => text_contains(t, pattern),
        None => false,
    }
}

fn ends_with_in(text: Option<&str>, pattern: &str) -> (r: bool)
    ensures
        r == ends_spec(text_view(text), pattern@),
{
    match text {
        Some(t) => text_ends_with(t, pattern),
        None => false,
    }
}

fn starts_or_ends_with_in(text: Option<&str>, pattern: &str) -> (r: bool)
    ensures
        r == starts_or_ends_spec(text_view(text), pattern@),
{
    match text {
        Some(t) => text_starts_with(t, pattern) || text_ends_with(t, pattern),
        None => false,
    }
}

fn stem_in(text: Option<&str>) -> (r: Option<&str>)
    ensures
        text_view(r) == stem_spec(text_view(text)),
{
    match text {
        Some(t) => Some(text_stem(t)),
        None => None,
    }
}

/// Whether `a` and `b` hold the same bytes.
fn same_bytes(a: &Vec<u8>, b: &[u8]) -> (r: bool)
    ensures
        r == (a@ == b@),
{
    if a.len() != b.len() {
        return false;
    }
    let mut i: usize = 0;
    while i < a.len()
        invariant
            a.len() == b@.len(),
            i <= a.len(),
            forall|k: int| 0 <= k < i ==> a@[k] == b@[k],
        decreases a.len() - i,
    {
        if a[i] != b[i] {
            return false;
        }
        i = i + 1;
    }
    assert(a@ =~= b@);
    true
}

/// Whether some entry of `components` holds the bytes of `component`.
fn any_component_is(components: &Vec<Vec<u8>>, component: &str) -> (r: bool)
    ensures
        r == components@.map_values(|c: Vec<u8>| c@).contains(component.spec_bytes()),
{
    let wanted = component.as_bytes();
    let ghost seen = components@.map_values(|c: Vec<u8>| c@);
    let mut i: usize = 0;
    while i < components.len()
        invariant
            seen == components@.map_values(|c: Vec<u8>| c@),
            wanted@ == component.spec_bytes(),
            i <= components.len(),
            forall|k: int| 0 <= k < i ==> seen[k] != wanted@,
        decreases components.len() - i,
    {
        if same_bytes(&components[i], wanted) {
            assert(seen[i as int] == wanted@);
            return true;
        }
        i = i + 1;
    }
    false
}

impl PathExt for Path {
    open spec fn text_form(&self) -> Option<Seq<char>> {
        text_of(self)
    }

    open spec fn component_seq(&self) -> Seq<Seq<u8>> {
        components_of(self)
    }

    fn contains(&self, pattern: &str) -> (r: bool) {
        contains_in(path_to_str(self), pattern)
    }

    fn ends_with_extensions(&self, pattern: &str) -> (r: bool) {
        ends_with_in(path_to_str(self), pattern)
    }

    fn has_component(&self, component: &str) -> (r: bool) {
        any_component_is(&path_components(self), component)
    }

    fn starts_or_ends_with(&self, pattern: &str) -> (r: bool) {
        starts_or_ends_with_in(path_to_str(self), pattern)
    }

    fn strip_extensions(&self) -> (r: Option<&str>) {
        stem_in(path_to_str(self))
    }

    fn strip_prefix_if_needed<'a>(&'a self, prefix: &str) -> (r: &'a Path) {
        match path_strip_prefix(self, prefix) {
            Some(rest) => rest,
            None => self,
        }
    }
}

impl PathExt for str {
    open spec fn text_form(&self) -> Option<Seq<char>> {
        Some(self@)
    }

    open spec fn component_seq(&self) -> Seq<Seq<u8>> {
        text_components(self@)
    }

    fn contains(&self, pattern: &str) -> (r: bool) {
        contains_in(Some(self), pattern)
    }

    fn ends_with_extensions(&self, pattern: &str) -> (r: bool) {
        ends_with_in(Some(self), pattern)
    }

    fn has_component(&self, component: &str) -> (r: bool) {
        path_new(self).has_component(component)
    }

    fn starts_or_ends_with(&self, pattern: &str) -> (r: bool) {
        starts_or_ends_with_in(Some(self), pattern)
    }

    fn strip_extensions(&self) -> (r: Option<&str>) {
        stem_in(Some(self))
    }

    fn strip_prefix_if_needed<'a>(&'a self, prefix: &str) -> (r: &'a Path) {
        path_new(self).strip_prefix_if_needed(prefix)
    }
}

/// The empty pattern is contained in every path that has a textual form.
pub proof fn lemma_empty_pattern_contained<T: PathExt + ?Sized>(p: &T)
    requires
        p.text_form() is Some,
    ensures
        contains_spec(p.text_form(), Seq::empty()),
{
    let t = p.text_form()->Some_0;
    assert(occurs_at(t, Seq::empty(), 0)) by {
        assert(t.subrange(0, 0) =~= Seq::<char>::empty());
    }
}

/// Where the textual form holds no `.`, stripping the extensions gives the
/// whole textual form back.
pub proof fn lemma_strip_extensions_without_dot<T: PathExt + ?Sized>(p: &T)
    requires
        p.text_form() is Some,
        forall|k: int|
            0 <= k < p.text_form()->Some_0.len() ==> p.text_form()->Some_0[k] != '.',
    ensures
        stem_spec(p.text_form()) == p.text_form(),
{
    let t = p.text_form()->Some_0;
    lemma_stem_at(t, t.len() as int);
    assert(t.take(t.len() as int) =~= t);
}

/// Removing a prefix that does not begin the path by whole components leaves
/// the path as it was, and removing it again from that result still does.
pub proof fn lemma_strip_unmatched_prefix_twice<T: PathExt + ?Sized>(
    p: &T,
    prefix: Seq<char>,
    once: &Path,
    twice: &Path,
)
    requires
        !begins_with_components(p.component_seq(), text_components(prefix)),
        stripped_as_needed(p.text_form(), p.component_seq(), prefix, once),
        stripped_as_needed(once.text_form(), once.component_seq(), prefix, twice),
    ensures
        once.text_form() == p.text_form(),
        once.component_seq() == p.component_seq(),
        twice.text_form() == p.text_form(),
        twice.component_seq() == p.component_seq(),
{
}

} // verus!
