//! Names of resources.

use vstd::prelude::*;
use vstd::std_specs::cmp::PartialEqSpecImpl;
use vstd::std_specs::convert::{FromSpecImpl, IntoSpec};

verus! {

/// A resource which can be "used" or "consumed".
#[derive(Debug, Hash)]
pub enum ResourceIdImpl {
    /// Normal resource.
    Id(String),
    /// An empty resource which is ignored when a request is built.
    Absent,
    /// Basic resource which every test uses unless told otherwise.
    Basic,
}

/// The name under which resource ids are used.
pub type ResourceId = ResourceIdImpl;

/// What a resource id stands for: its variant, and for a named resource
/// the characters of the name.
pub enum ResourceIdView {
    Id(Seq<char>),
    Absent,
    Basic,
}

impl View for ResourceIdImpl {
    type V = ResourceIdView;

    open spec fn view(&self) -> ResourceIdView {
        match self {
            ResourceIdImpl::Id(s) => ResourceIdView::Id(s@),
            ResourceIdImpl::Absent => ResourceIdView::Absent,
            ResourceIdImpl::Basic => ResourceIdView::Basic,
        }
    }
}

impl ResourceIdImpl {
    /// The named resource `id`.
    pub fn new(id: &str) -> (r: Self)
        ensures
            r@ == ResourceIdView::Id(id@),
    {
        ResourceIdImpl::Id(String::from_str(id))
    }

    /// The named resource `s`.
    pub fn from_string(s: String) -> (r: Self)
        ensures
            r == ResourceIdImpl::Id(s),
    {
        ResourceIdImpl::Id(s)
    }

    /// False exactly for the empty resource.
    pub fn is_some(&self) -> (r: bool)
        ensures
            r == (self@ != ResourceIdView::Absent),
    {
        match self {
            ResourceIdImpl::Absent => false,
            _ => true,
        }
    }
}

impl Clone for ResourceIdImpl {
    fn clone(&self) -> (r: Self)
        ensures
            r == *self,
    {
        match self {
            ResourceIdImpl::Id(s) => ResourceIdImpl::Id(s.clone()),
            ResourceIdImpl::Absent => ResourceIdImpl::Absent,
            ResourceIdImpl::Basic => ResourceIdImpl::Basic,
        }
    }
}

impl PartialEq for ResourceIdImpl {
    fn eq(&self, other: &Self) -> (r: bool) {
        match self {
            ResourceIdImpl::Id(a) => match other {
                ResourceIdImpl::Id(b) => {
                    let same = same_text(a, b);
                    assert(same == (self@ == other@));
                    same
                },
                _ => false,
            },
            ResourceIdImpl::Absent => match other {
                ResourceIdImpl::Absent => true,
                _ => false,
            },
            ResourceIdImpl::Basic => match other {
                ResourceIdImpl::Basic => true,
                _ => false,
            },
        }
    }
}

/// Compares two strings by their characters.
pub fn same_text(a: &String, b: &String) -> (r: bool)
    ensures
        r == (a@ == b@),
{
    *a == *b
}

impl PartialEqSpecImpl for ResourceIdImpl {
    open spec fn obeys_eq_spec() -> bool {
        true
    }

    open spec fn eq_spec(&self, other: &Self) -> bool {
        self@ == other@
    }
}

impl Eq for ResourceIdImpl {}

impl<'a> From<&'a str> for ResourceIdImpl {
    fn from(val: &'a str) -> (r: Self)
        ensures
            r@ == ResourceIdView::Id(val@),
    {
        ResourceIdImpl::new(val)
    }
}

/// The conversion is specified by the view of its result: a string
/// is not determined by its characters, so no one value is promised.
impl<'a> FromSpecImpl<&'a str> for ResourceIdImpl {
    open spec fn obeys_from_spec() -> bool {
        false
    }

    open spec fn from_spec(v: &'a str) -> Self {
        ResourceIdImpl::Id(choose|s: String| s@ == v@)
    }
}

impl From<String> for ResourceIdImpl {
    fn from(val: String) -> (r: Self)
        ensures
            r == ResourceIdImpl::Id(val),
    {
        ResourceIdImpl::from_string(val)
    }
}

impl FromSpecImpl<String> for ResourceIdImpl {
    open spec fn obeys_from_spec() -> bool {
        true
    }

    open spec fn from_spec(v: String) -> Self {
        ResourceIdImpl::Id(v)
    }
}

/// Maps an option to a resource: nothing maps to the empty resource,
/// which is ignored when a request is built.
impl<T: Into<ResourceIdImpl>> From<Option<T>> for ResourceIdImpl {
    fn from(val: Option<T>) -> (r: Self)
        ensures
            val is None ==> r == ResourceIdImpl::Absent,
            val matches Some(v) ==> call_ensures(<T as Into<ResourceIdImpl>>::into, (v,), r),
    {
        match val {
            None => ResourceIdImpl::Absent,
            Some(v) => v.into(),
        }
    }
}

impl<T: Into<ResourceIdImpl>> FromSpecImpl<Option<T>> for ResourceIdImpl {
    open spec fn obeys_from_spec() -> bool {
        T::obeys_into_spec()
    }

    open spec fn from_spec(v: Option<T>) -> Self {
        match v {
            None => ResourceIdImpl::Absent,
            Some(inner) => inner.into_spec(),
        }
    }
}

} // verus!
