//! The resolved capability record of one foreign type, and what it must hold
//! before a wrapper can be generated from it.
use vstd::prelude::*;
use indexmap::IndexMap;
use crate::error::GenError;
use crate::syntax::{is_lifetime, is_lifetime_text, is_name, is_name_text, is_plain, plain_text};

verus! {

#[verifier::external_type_specification]
#[verifier::external_body]
#[verifier::reject_recursive_types(K)]
#[verifier::reject_recursive_types(V)]
#[verifier::reject_recursive_types(S)]
pub struct ExIndexMap<K, V, S>(IndexMap<K, V, S>);

/// The entries of a lifetime map in insertion order: each lifetime parameter's
/// name and the names of the lifetimes that bound it.
pub uninterp spec fn lifetime_entries(m: IndexMap<String, Vec<String>>) -> Seq<(Seq<char>, Seq<Seq<char>>)>;

/// Relies on `IndexMap::len`: the number of entries.
#[verifier::external_body]
pub(crate) fn lifetime_count(m: &IndexMap<String, Vec<String>>) -> (r: usize)
    ensures
        r == lifetime_entries(*m).len(),
{
    m.len()
}

/// Relies on `IndexMap::get_index`: the entry at a position of the insertion
/// order, or `None` past the end.
#[verifier::external_body]
pub(crate) fn lifetime_at(m: &IndexMap<String, Vec<String>>, i: usize) -> (r: Option<(&String, &Vec<String>)>)
    ensures
        i < lifetime_entries(*m).len() ==> r is Some,
        i < lifetime_entries(*m).len() ==> r.unwrap().0@ == lifetime_entries(*m)[i as int].0,
        i < lifetime_entries(*m).len() ==> r.unwrap().1.deep_view() == lifetime_entries(*m)[i as int].1,
        i >= lifetime_entries(*m).len() ==> r is None,
{
    m.get_index(i)
}

/// The resolved record of a foreign type from which its wrapper is generated.
pub struct CxxAutoArtifactInfo {
    pub path_components: Vec<String>,
    pub path_descendants: Vec<String>,
    pub cxx_include: String,
    pub cxx_namespace: String,
    pub cxx_name: String,
    pub rust_name: String,
    pub lifetimes: IndexMap<String, Vec<String>>,
    pub align: usize,
    pub size: usize,
    pub cxx_has_operator_equal: bool,
    pub cxx_has_operator_not_equal: bool,
    pub cxx_has_operator_less_than: bool,
    pub cxx_has_operator_less_than_or_equal: bool,
    pub cxx_has_operator_greater_than: bool,
    pub cxx_has_operator_greater_than_or_equal: bool,
    pub is_rust_cxx_extern_type_trivial: bool,
    pub is_rust_unpin: bool,
    pub is_rust_send: bool,
    pub is_rust_sync: bool,
    pub is_rust_copy: bool,
    pub is_rust_debug: bool,
    pub is_rust_default: bool,
    pub is_rust_display: bool,
    pub is_rust_drop: bool,
    pub is_rust_copy_new: bool,
    pub is_rust_move_new: bool,
    pub is_rust_eq: bool,
    pub is_rust_partial_eq: bool,
    pub is_rust_partial_ord: bool,
    pub is_rust_ord: bool,
    pub is_rust_hash: bool,
}

/// The lifetime of a name: the name behind an apostrophe.
pub open spec fn lifetime_of(name: Seq<char>) -> Seq<char> {
    "'"@ + name
}

/// A lifetime entry whose name and bounds are all lifetimes.
pub open spec fn lifetime_entry_valid(e: (Seq<char>, Seq<Seq<char>>)) -> bool {
    &&& lifetime_name_valid(e.0)
    &&& forall|j: int| 0 <= j < e.1.len() ==> #[trigger] lifetime_name_valid(e.1[j])
}

/// A name that, behind an apostrophe, is by itself one lifetime.
pub open spec fn lifetime_name_valid(name: Seq<char>) -> bool {
    plain_text(name) && is_lifetime_text(lifetime_of(name))
}

impl CxxAutoArtifactInfo {
    /// The lifetime parameters, in order.
    pub open spec fn spec_lifetimes(&self) -> Seq<(Seq<char>, Seq<Seq<char>>)> {
        lifetime_entries(self.lifetimes)
    }

    /// The names that become identifiers are identifiers.
    pub open spec fn idents_valid(&self) -> bool {
        &&& is_name_text(self.rust_name@)
        &&& forall|i: int|
            0 <= i < self.path_descendants@.len() ==> #[trigger] is_name_text(self.path_descendants@[i]@)
    }

    /// The lifetime parameters and their bounds are lifetimes.
    pub open spec fn lifetimes_valid(&self) -> bool {
        forall|i: int|
            0 <= i < self.spec_lifetimes().len() ==> #[trigger] lifetime_entry_valid(self.spec_lifetimes()[i])
    }

    /// The asserted capabilities can all be realized: `Eq` and `PartialOrd`
    /// build on `PartialEq`, `Ord` on `PartialOrd` and `Eq`, and a `Copy` type
    /// has no destructor.
    pub open spec fn capabilities_realizable(&self) -> bool {
        &&& self.is_rust_eq ==> self.is_rust_partial_eq
        &&& self.is_rust_partial_ord ==> self.is_rust_partial_eq
        &&& self.is_rust_ord ==> self.is_rust_partial_ord && self.is_rust_eq
        &&& self.is_rust_copy ==> !self.is_rust_drop
    }

    /// Why no wrapper can be generated from this record, if there is a reason.
    pub open spec fn spec_error(&self) -> Option<GenError> {
        if !self.idents_valid() {
            Some(GenError::InvalidIdentifier)
        } else if !self.lifetimes_valid() {
            Some(GenError::InvalidLifetime)
        } else if !self.capabilities_realizable() {
            Some(GenError::UnrealizableCapabilities)
        } else {
            None
        }
    }

    pub open spec fn is_valid(&self) -> bool {
        self.spec_error() is None
    }

    fn check_idents(&self) -> (r: bool)
        ensures
            r == self.idents_valid(),
    {
        if !is_name(self.rust_name.as_str()) {
            return false;
        }
        let n = self.path_descendants.len();
        for i in 0..n
            invariant
                n == self.path_descendants@.len(),
                forall|k: int| 0 <= k < i ==> #[trigger] is_name_text(self.path_descendants@[k]@),
        {
            if !is_name(self.path_descendants[i].as_str()) {
                return false;
            }
        }
        true
    }

    fn check_lifetimes(&self) -> (r: bool)
        ensures
            r == self.lifetimes_valid(),
    {
        let n = lifetime_count(&self.lifetimes);
        for i in 0..n
            invariant
                n == self.spec_lifetimes().len(),
                forall|k: int| 0 <= k < i ==> #[trigger] lifetime_entry_valid(self.spec_lifetimes()[k]),
        {
            match lifetime_at(&self.lifetimes, i) {
                Some((name, bounds)) => {
                    if !check_lifetime_name(name.as_str()) {
                        assert(!lifetime_entry_valid(self.spec_lifetimes()[i as int]));
                        return false;
                    }
                    let m = bounds.len();
                    for j in 0..m
                        invariant
                            i < n,
                            n == self.spec_lifetimes().len(),
                            m == bounds@.len(),
                            bounds.deep_view() == self.spec_lifetimes()[i as int].1,
                            forall|k: int| 0 <= k < j ==> #[trigger] lifetime_name_valid(
                                self.spec_lifetimes()[i as int].1[k],
                            ),
                    {
                        assert(bounds.deep_view()[j as int] == bounds@[j as int]@);
                        if !check_lifetime_name(bounds[j].as_str()) {
                            assert(!lifetime_entry_valid(self.spec_lifetimes()[i as int]));
                            return false;
                        }
                    }
                    assert(lifetime_entry_valid(self.spec_lifetimes()[i as int]));
                },
                None => {
                    return false;
                },
            }
        }
        true
    }

    /// Checks that a wrapper can be generated from this record, and says why not.
    pub fn check(&self) -> (r: Result<(), GenError>)
        ensures
            r is Ok <==> self.is_valid(),
            r matches Err(e) ==> self.spec_error() == Some(e),
    {
        if !self.check_idents() {
            return Err(GenError::InvalidIdentifier);
        }
        if !self.check_lifetimes() {
            return Err(GenError::InvalidLifetime);
        }
        if self.is_rust_eq && !self.is_rust_partial_eq {
            return Err(GenError::UnrealizableCapabilities);
        }
        if self.is_rust_partial_ord && !self.is_rust_partial_eq {
            return Err(GenError::UnrealizableCapabilities);
        }
        if self.is_rust_ord && !(self.is_rust_partial_ord && self.is_rust_eq) {
            return Err(GenError::UnrealizableCapabilities);
        }
        if self.is_rust_copy && self.is_rust_drop {
            return Err(GenError::UnrealizableCapabilities);
        }
        Ok(())
    }
}

/// Whether the name, behind an apostrophe, is by itself a lifetime.
fn check_lifetime_name(name: &str) -> (r: bool)
    ensures
        r == lifetime_name_valid(name@),
{
    if !is_plain(name) {
        return false;
    }
    let mut s = String::new();
    s.append("'");
    s.append(name);
    assert(s@ =~= lifetime_of(name@));
    is_lifetime(s.as_str())
}

} // verus!
