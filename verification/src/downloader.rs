use vstd::prelude::*;
use vstd::string::StringExecFns;

use crate::document::Document;
use crate::document::DocumentView;
use crate::error::Failure;
use crate::text::starts_with;

verus! {

broadcast use vstd::string::group_string_axioms;

/// A way to fetch documents.
pub trait Downloader {
    /// Whether every call on this downloader succeeds.
    spec fn never_fails(&self) -> bool;

    /// Whether this downloader can fetch the document.
    spec fn accepts(&self, document: DocumentView) -> bool;

    /// The document once this downloader has named its file.
    spec fn named(&self, document: DocumentView) -> DocumentView;

    /// The document once this downloader has fetched it.
    spec fn downloaded(&self, document: DocumentView) -> DocumentView;

    fn is_available(&self, document: &Document) -> (r: Result<bool, Failure>)
        ensures
            self.never_fails() ==> r is Ok,
            r matches Ok(yes) ==> yes == self.accepts(document@),
    ;

    fn get_filename(&self, document: &Document) -> (r: Result<Document, Failure>)
        ensures
            self.never_fails() ==> r is Ok,
            r matches Ok(named) ==> named@ == self.named(document@),
    ;

    fn download(&self, document: &Document) -> (r: Result<Document, Failure>)
        ensures
            self.never_fails() ==> r is Ok,
            r matches Ok(fetched) ==> fetched@ == self.downloaded(document@),
    ;
}

/// A downloader that fetches nothing: it takes the documents of one site,
/// names each file after the document, and places it in its directory.
pub struct FakeDownloader {
    directory: String,
}

impl View for FakeDownloader {
    type V = Seq<char>;

    /// The directory.
    closed spec fn view(&self) -> Seq<char> {
        self.directory@
    }
}

impl FakeDownloader {
    pub fn new(directory: &str) -> (r: Self)
        ensures
            r@ == directory@,
    {
        FakeDownloader { directory: directory.to_string() }
    }
}

impl Downloader for FakeDownloader {
    open spec fn never_fails(&self) -> bool {
        true
    }

    open spec fn accepts(&self, document: DocumentView) -> bool {
        "https://example.com"@.is_prefix_of(document.url)
    }

    open spec fn named(&self, document: DocumentView) -> DocumentView {
        DocumentView { filename: Some(document.id + ".mp4"@), ..document }
    }

    open spec fn downloaded(&self, document: DocumentView) -> DocumentView {
        DocumentView {
            local_path: Some(self@ + "/"@ + (document.id + ".mp4"@)),
            ..self.named(document)
        }
    }

    fn is_available(&self, document: &Document) -> (r: Result<bool, Failure>) {
        Ok(starts_with(document.url().as_str(), "https://example.com"))
    }

    fn get_filename(&self, document: &Document) -> (r: Result<Document, Failure>) {
        let mut document = document.clone();
        document.set_filename(document.id().concat(".mp4"));
        Ok(document)
    }

    fn download(&self, document: &Document) -> (r: Result<Document, Failure>) {
        let mut document = match self.get_filename(document) {
            Ok(document) => document,
            Err(e) => {
                return Err(e);
            },
        };
        let filename = document.filename().unwrap();
        document.set_local_path(self.directory.clone().concat("/").concat(filename.as_str()));
        Ok(document)
    }
}

} // verus!
