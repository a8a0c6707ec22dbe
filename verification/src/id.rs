use std::sync::Arc;
use vstd::prelude::*;

use crate::text::same_text;

verus! {

broadcast use vstd::string::group_string_axioms;

/// An opaque handle for an entity: a text that is compared and hashed by
/// value. Copies share the text, so a copy is cheap. Its view is the text.
#[derive(Debug, Hash)]
pub struct Id(Arc<String>);

impl View for Id {
    type V = Seq<char>;

    closed spec fn view(&self) -> Seq<char> {
        self.0@
    }
}

/// Whether `text` is what `value` writes when it is displayed.
pub open spec fn displays<T: std::fmt::Display>(value: &T, text: Seq<char>) -> bool {
    exists|s: String| #[trigger]
        vstd::string::to_string_from_display_ensures::<T>(value, s) && s@ == text
}

impl Id {
    /// The identifier whose text is `id` as displayed.
    pub fn new<T: std::fmt::Display>(id: T) -> (r: Self)
        ensures
            displays(&id, r@),
    {
        Id(Arc::new(id.to_string()))
    }

    pub fn as_str(&self) -> (s: &str)
        ensures
            s@ == self@,
    {
        self.0.as_str()
    }

    /// The text of the identifier, as `Display` would write it.
    pub fn to_string(&self) -> (s: String)
        ensures
            s@ == self@,
    {
        self.0.as_str().to_string()
    }
}

impl Clone for Id {
    fn clone(&self) -> (r: Self)
        ensures
            r == *self,
    {
        Id(self.0.clone())
    }
}

impl PartialEq for Id {
    fn eq(&self, other: &Id) -> (r: bool) {
        same_text(self.as_str(), other.as_str())
    }
}

impl vstd::std_specs::cmp::PartialEqSpecImpl for Id {
    open spec fn obeys_eq_spec() -> bool {
        true
    }

    open spec fn eq_spec(&self, other: &Id) -> bool {
        self@ == other@
    }
}

impl Eq for Id {

}

impl PartialEq<Id> for &str {
    fn eq(&self, other: &Id) -> (r: bool) {
        same_text(self, other.as_str())
    }
}

impl vstd::std_specs::cmp::PartialEqSpecImpl<Id> for &str {
    open spec fn obeys_eq_spec() -> bool {
        true
    }

    open spec fn eq_spec(&self, other: &Id) -> bool {
        self@ == other@
    }
}

impl PartialEq<Id> for String {
    fn eq(&self, other: &Id) -> (r: bool) {
        same_text(self.as_str(), other.as_str())
    }
}

impl vstd::std_specs::cmp::PartialEqSpecImpl<Id> for String {
    open spec fn obeys_eq_spec() -> bool {
        true
    }

    open spec fn eq_spec(&self, other: &Id) -> bool {
        self@ == other@
    }
}

impl From<&str> for Id {
    fn from(value: &str) -> (r: Id)
        ensures
            r@ == value@,
    {
        Id(Arc::new(value.to_string()))
    }
}

impl vstd::std_specs::convert::FromSpecImpl<&str> for Id {
    /// Two identifiers with one text need not be one value, so the
    /// conversion is described by its view and not by a spec function.
    open spec fn obeys_from_spec() -> bool {
        false
    }

    open spec fn from_spec(value: &str) -> Id {
        arbitrary()
    }
}

impl From<String> for Id {
    fn from(value: String) -> (r: Id)
        ensures
            r@ == value@,
    {
        Id(Arc::new(value))
    }
}

impl vstd::std_specs::convert::FromSpecImpl<String> for Id {
    /// As for a string slice: the conversion is described by its view.
    open spec fn obeys_from_spec() -> bool {
        false
    }

    open spec fn from_spec(value: String) -> Id {
        arbitrary()
    }
}

impl AsRef<str> for Id {
    fn as_ref(&self) -> (s: &str)
        ensures
            s@ == self@,
    {
        self.0.as_str()
    }
}

/// `ulid::Ulid::new` and the `to_string` of what it returns: a fresh ULID
/// from the clock and a random source, written in its 26 characters of
/// Crockford base 32. Only the length is the same on every call.
#[verifier::external_body]
pub(crate) fn new_ulid_as_str() -> (s: String)
    ensures
        s@.len() == 26,
{
    ulid::Ulid::new().to_string()
}

/// `uuid::Uuid::new_v4` and the `to_string` of what it returns: a random
/// UUID written in its hyphenated form of 36 characters. Only the length is
/// the same on every call.
#[verifier::external_body]
pub(crate) fn new_uuid_as_str() -> (s: String)
    ensures
        s@.len() == 36,
{
    uuid::Uuid::new_v4().to_string()
}

} // verus!
