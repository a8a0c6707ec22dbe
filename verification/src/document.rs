use vstd::prelude::*;

use crate::id::new_ulid_as_str;
use crate::keyed::Keyed;
use crate::text::clone_text;
use crate::text::text_of;

verus! {

broadcast use vstd::string::group_string_axioms;

/// What a document is: where it comes from, and what is known of the file
/// once it has been fetched.
pub struct DocumentView {
    pub id: Seq<char>,
    pub url: Seq<char>,
    pub filename: Option<Seq<char>>,
    pub local_path: Option<Seq<char>>,
}

/// A document to fetch and to store.
#[derive(Debug)]
pub struct Document {
    id: String,
    url: String,
    filename: Option<String>,
    local_path: Option<String>,
}

impl View for Document {
    type V = DocumentView;

    closed spec fn view(&self) -> DocumentView {
        DocumentView {
            id: self.id@,
            url: self.url@,
            filename: text_of(self.filename),
            local_path: text_of(self.local_path),
        }
    }
}

impl Clone for Document {
    fn clone(&self) -> (r: Self)
        ensures
            r == *self,
    {
        Document {
            id: self.id.clone(),
            url: self.url.clone(),
            filename: clone_text(&self.filename),
            local_path: clone_text(&self.local_path),
        }
    }
}

impl Keyed for Document {
    open spec fn key(&self) -> Seq<char> {
        self@.id
    }

    fn key_text(&self) -> (r: &str) {
        self.id.as_str()
    }
}

/// Whether `document` is a document as `Document::new` makes it for `url`:
/// under an identifier of 26 characters, with no file name and no path.
pub open spec fn is_new_document(document: DocumentView, url: Seq<char>) -> bool {
    &&& document.id.len() == 26
    &&& document.url == url
    &&& document.filename is None
    &&& document.local_path is None
}

impl Document {
    /// A document for `url`, under a fresh identifier, not fetched yet.
    pub fn new(url: &str) -> (r: Self)
        ensures
            is_new_document(r@, url@),
    {
        Document { id: new_ulid_as_str(), url: url.to_string(), filename: None, local_path: None }
    }

    pub fn id(&self) -> (r: String)
        ensures
            r@ == self@.id,
    {
        self.id.clone()
    }

    pub fn url(&self) -> (r: String)
        ensures
            r@ == self@.url,
    {
        self.url.clone()
    }

    pub fn filename(&self) -> (r: Option<String>)
        ensures
            text_of(r) == self@.filename,
    {
        clone_text(&self.filename)
    }

    pub fn set_filename(&mut self, filename: String)
        ensures
            final(self)@ == (DocumentView { filename: Some(filename@), ..old(self)@ }),
    {
        self.filename = Some(filename);
    }

    pub fn local_path(&self) -> (r: Option<String>)
        ensures
            text_of(r) == self@.local_path,
    {
        clone_text(&self.local_path)
    }

    pub fn set_local_path(&mut self, local_path: String)
        ensures
            final(self)@ == (DocumentView { local_path: Some(local_path@), ..old(self)@ }),
    {
        self.local_path = Some(local_path);
    }

    /// The local path, under its shorter name.
    pub fn path(&self) -> (r: Option<String>)
        ensures
            text_of(r) == self@.local_path,
    {
        clone_text(&self.local_path)
    }

    /// Sets the local path, under its shorter name.
    pub fn set_path(&mut self, path: String)
        ensures
            final(self)@ == (DocumentView { local_path: Some(path@), ..old(self)@ }),
    {
        self.local_path = Some(path);
    }
}

/// What a save is: the record that a document has been stored, and where.
pub struct SaveView {
    pub id: Seq<char>,
    pub document_id: Seq<char>,
    pub url: Option<Seq<char>>,
}

/// The record that a document has been stored.
#[derive(Debug)]
pub struct Save {
    id: String,
    document_id: String,
    url: Option<String>,
}

impl View for Save {
    type V = SaveView;

    closed spec fn view(&self) -> SaveView {
        SaveView { id: self.id@, document_id: self.document_id@, url: text_of(self.url) }
    }
}

impl Clone for Save {
    fn clone(&self) -> (r: Self)
        ensures
            r == *self,
    {
        Save {
            id: self.id.clone(),
            document_id: self.document_id.clone(),
            url: clone_text(&self.url),
        }
    }
}

impl Keyed for Save {
    open spec fn key(&self) -> Seq<char> {
        self@.id
    }

    fn key_text(&self) -> (r: &str) {
        self.id.as_str()
    }
}

/// Whether `save` is a save as `Save::new` makes it for `document_id`:
/// under an identifier of 26 characters, with no address yet.
pub open spec fn is_new_save(save: SaveView, document_id: Seq<char>) -> bool {
    &&& save.id.len() == 26
    &&& save.document_id == document_id
    &&& save.url is None
}

impl Save {
    /// A save of the document `document_id`, under a fresh identifier, with
    /// no address yet.
    pub fn new(document_id: &str) -> (r: Self)
        ensures
            is_new_save(r@, document_id@),
    {
        Save { id: new_ulid_as_str(), document_id: document_id.to_string(), url: None }
    }

    pub fn id(&self) -> (r: String)
        ensures
            r@ == self@.id,
    {
        self.id.clone()
    }

    pub fn url(&self) -> (r: Option<String>)
        ensures
            text_of(r) == self@.url,
    {
        clone_text(&self.url)
    }

    pub fn set_url(&mut self, url: String)
        ensures
            final(self)@ == (SaveView { url: Some(url@), ..old(self)@ }),
    {
        self.url = Some(url);
    }

    pub fn document_id(&self) -> (r: String)
        ensures
            r@ == self@.document_id,
    {
        self.document_id.clone()
    }
}

} // verus!
