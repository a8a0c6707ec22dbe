use vstd::prelude::*;
use vstd::string::StringExecFns;

use crate::document::Document;
use crate::document::DocumentView;
use crate::document::Save;
use crate::document::SaveView;
use crate::error::Failure;
use crate::text::same_text;

verus! {

broadcast use vstd::string::group_string_axioms;

/// A place to store documents.
pub trait Storage {
    /// Whether every call on this storage succeeds.
    spec fn never_fails(&self) -> bool;

    /// Whether this storage holds the document already.
    spec fn stores(&self, document: DocumentView) -> bool;

    fn is_stored(&self, document: &Document) -> (r: Result<bool, Failure>)
        ensures
            self.never_fails() ==> r is Ok,
            r matches Ok(yes) ==> yes == self.stores(document@),
    ;

    /// Stores the document and returns the save that records it.
    fn upload(&self, document: &Document) -> (r: Result<Save, Failure>)
        ensures
            self.never_fails() ==> r is Ok,
            r matches Ok(save) ==> save@.document_id == document@.id,
    ;
}

/// A storage that stores nothing: it holds the documents whose file is
/// named `existing`, and gives every save an address in its directory.
pub struct FakeStorage {
    directory: String,
}

impl View for FakeStorage {
    type V = Seq<char>;

    /// The directory.
    closed spec fn view(&self) -> Seq<char> {
        self.directory@
    }
}

impl FakeStorage {
    pub fn new(directory: &str) -> (r: Self)
        ensures
            r@ == directory@,
    {
        FakeStorage { directory: directory.to_string() }
    }
}

impl Storage for FakeStorage {
    open spec fn never_fails(&self) -> bool {
        true
    }

    open spec fn stores(&self, document: DocumentView) -> bool {
        document.filename == Some("existing"@)
    }

    fn is_stored(&self, document: &Document) -> (r: Result<bool, Failure>) {
        match document.filename() {
            Some(filename) => Ok(same_text(filename.as_str(), "existing")),
            None => Ok(false),
        }
    }

    fn upload(&self, document: &Document) -> (r: Result<Save, Failure>)
        ensures
            r matches Ok(save) && save@ == (SaveView {
                url: Some(self@ + "/"@ + save@.id),
                ..save@
            }) && save@.id.len() == 26,
    {
        let mut save = Save::new(document.id().as_str());
        save.set_url(self.directory.clone().concat("/").concat(save.id().as_str()));
        Ok(save)
    }
}

} // verus!
