use vstd::prelude::*;

use crate::document::is_new_document;
use crate::document::Document;
use crate::document::DocumentView;
use crate::document::Save;
use crate::document::SaveView;
use crate::downloader::Downloader;
use crate::error::ServiceError;
use crate::repository::document::has_url;
use crate::repository::document::DocumentRepository;
use crate::repository::save::SaveRepository;
use crate::storage::Storage;

verus! {

/// What a document service offers.
pub trait DocumentService {
    fn get_document_by_id(&self, document_id: &str) -> Result<Option<Document>, ServiceError>;

    fn get_document_by_url(&self, url: &str) -> Result<Option<Document>, ServiceError>;

    fn download(&mut self, url: &str) -> Result<Document, ServiceError>;

    fn store(&mut self, document_id: &str) -> Result<Save, ServiceError>;
}

/// Whether the downloader `i` is the first that accepts the document.
pub open spec fn takes<D: Downloader + ?Sized>(
    downloaders: Seq<Box<D>>,
    document: DocumentView,
    i: int,
) -> bool {
    &&& 0 <= i < downloaders.len()
    &&& downloaders[i].accepts(document)
    &&& forall|j: int| 0 <= j < i ==> !(#[trigger] downloaders[j]).accepts(document)
}

/// Whether no downloader accepts the document.
pub open spec fn none_takes<D: Downloader + ?Sized>(
    downloaders: Seq<Box<D>>,
    document: DocumentView,
) -> bool {
    forall|j: int| 0 <= j < downloaders.len() ==> !(#[trigger] downloaders[j]).accepts(document)
}

/// A document service over two repositories, a list of downloaders and a
/// list of storages. Each part is of any type that does the work of its
/// trait; left open, it is a trait object.
pub struct DocumentServiceFactory<
    R: DocumentRepository + ?Sized = dyn DocumentRepository,
    S: SaveRepository + ?Sized = dyn SaveRepository,
    D: Downloader + ?Sized = dyn Downloader,
    T: Storage + ?Sized = dyn Storage,
> {
    document_repository: Box<R>,
    save_repository: Box<S>,
    downloaders: Vec<Box<D>>,
    storages: Vec<Box<T>>,
}

impl<
    R: DocumentRepository + ?Sized,
    S: SaveRepository + ?Sized,
    D: Downloader + ?Sized,
    T: Storage + ?Sized,
> DocumentServiceFactory<R, S, D, T> {
    /// The documents in the document repository, by identifier.
    pub closed spec fn documents(&self) -> Map<Seq<char>, DocumentView> {
        self.document_repository.documents()
    }

    /// The saves in the save repository, by identifier.
    pub closed spec fn saves(&self) -> Map<Seq<char>, SaveView> {
        self.save_repository.saves()
    }

    pub closed spec fn downloaders(&self) -> Seq<Box<D>> {
        self.downloaders@
    }

    pub closed spec fn storages(&self) -> Seq<Box<T>> {
        self.storages@
    }

    /// Whether every call on the two repositories succeeds.
    pub closed spec fn repositories_never_fail(&self) -> bool {
        self.document_repository.never_fails() && self.save_repository.never_fails()
    }

    /// Whether every call on every part succeeds.
    pub open spec fn never_fails(&self) -> bool {
        &&& self.repositories_never_fail()
        &&& forall|i: int|
            0 <= i < self.downloaders().len() ==> (#[trigger] self.downloaders()[i]).never_fails()
        &&& forall|i: int|
            0 <= i < self.storages().len() ==> (#[trigger] self.storages()[i]).never_fails()
    }

    /// Whether the parts of two services are the same, whatever the
    /// repositories hold.
    pub open spec fn same_parts(&self, other: &Self) -> bool {
        &&& self.downloaders() == other.downloaders()
        &&& self.storages() == other.storages()
        &&& self.repositories_never_fail() == other.repositories_never_fail()
    }

    pub fn new(
        document_repository: Box<R>,
        save_repository: Box<S>,
        downloaders: Vec<Box<D>>,
        storages: Vec<Box<T>>,
    ) -> (r: Self)
        ensures
            r.documents() == document_repository.documents(),
            r.saves() == save_repository.saves(),
            r.downloaders() == downloaders@,
            r.storages() == storages@,
            r.repositories_never_fail() == (document_repository.never_fails()
                && save_repository.never_fails()),
    {
        DocumentServiceFactory { document_repository, save_repository, downloaders, storages }
    }
}

impl<
    R: DocumentRepository + ?Sized,
    S: SaveRepository + ?Sized,
    D: Downloader + ?Sized,
    T: Storage + ?Sized,
> DocumentService for DocumentServiceFactory<R, S, D, T> {
    /// The document filed under `document_id`, if there is one.
    fn get_document_by_id(&self, document_id: &str) -> (r: Result<Option<Document>, ServiceError>)
        ensures
            self.never_fails() ==> r is Ok,
            r matches Err(e) ==> e is Failure,
            r matches Ok(found) ==> match found {
                Some(document) => self.documents().contains_key(document_id@)
                    && self.documents()[document_id@] == document@,
                None => !self.documents().contains_key(document_id@),
            },
    {
        match self.document_repository.find(document_id) {
            Ok(found) => Ok(found),
            Err(failure) => Err(ServiceError::Failure(failure)),
        }
    }

    /// A document that comes from `url`, if there is one.
    fn get_document_by_url(&self, url: &str) -> (r: Result<Option<Document>, ServiceError>)
        ensures
            self.never_fails() ==> r is Ok,
            r matches Err(e) ==> e is Failure,
            r matches Ok(found) ==> match found {
                Some(document) => self.documents().contains_key(document@.id)
                    && self.documents()[document@.id] == document@ && document@.url == url@,
                None => !has_url(self.documents(), url@),
            },
    {
        match self.document_repository.find_by_url(url) {
            Ok(found) => Ok(found),
            Err(failure) => Err(ServiceError::Failure(failure)),
        }
    }

    /// Fetches the document at `url`. Where a document from `url` is on
    /// file already, nothing is done. Else a new document is filed, the
    /// first downloader that accepts it fetches it, and the fetched
    /// document is filed and returned. Where no downloader accepts it, the
    /// new document stays on file.
    fn download(&mut self, url: &str) -> (r: Result<Document, ServiceError>)
        ensures
            final(self).same_parts(old(self)),
            final(self).saves() == old(self).saves(),
            match r {
                Ok(document) => !has_url(old(self).documents(), url@) && exists|
                    fresh: DocumentView,
                    i: int,
                |
                    {
                        &&& is_new_document(fresh, url@)
                        &&& #[trigger] takes(old(self).downloaders(), fresh, i)
                        &&& document@ == old(self).downloaders()[i].downloaded(fresh)
                        &&& final(self).documents() == old(self).documents().insert(
                            fresh.id,
                            fresh,
                        ).insert(document@.id, document@)
                    },
                Err(ServiceError::DocumentAlreadyExists) => has_url(old(self).documents(), url@)
                    && final(self).documents() == old(self).documents(),
                Err(ServiceError::NoDownloaderAvailable) => !has_url(old(self).documents(), url@)
                    && exists|fresh: DocumentView|
                    {
                        &&& is_new_document(fresh, url@)
                        &&& #[trigger] none_takes(old(self).downloaders(), fresh)
                        &&& final(self).documents() == old(self).documents().insert(
                            fresh.id,
                            fresh,
                        )
                    },
                Err(ServiceError::Failure(_)) => !old(self).never_fails() && (final(self).documents()
                    == old(self).documents() || exists|fresh: DocumentView|
                    is_new_document(fresh, url@) && final(self).documents()
                        == #[trigger] old(self).documents().insert(fresh.id, fresh)),
                Err(_) => false,
            },
    {
        let found = match self.document_repository.find_by_url(url) {
            Ok(found) => found,
            Err(failure) => {
                return Err(ServiceError::Failure(failure));
            },
        };
        if found.is_some() {
            proof {
                let document = found->0;
                assert(old(self).documents().contains_key(document@.id));
            }
            return Err(ServiceError::DocumentAlreadyExists);
        }
        let document = Document::new(url);
        let ghost fresh = document@;
        match self.document_repository.save(&document) {
            Ok(()) => {},
            Err(failure) => {
                return Err(ServiceError::Failure(failure));
            },
        }
        let mut i: usize = 0;
        while i < self.downloaders.len()
            invariant
                i <= self.downloaders.len(),
                document@ == fresh,
                is_new_document(fresh, url@),
                !has_url(old(self).documents(), url@),
                self.same_parts(old(self)),
                self.saves() == old(self).saves(),
                self.documents() == old(self).documents().insert(fresh.id, fresh),
                forall|j: int|
                    0 <= j < i ==> !(#[trigger] self.downloaders@[j]).accepts(fresh),
            decreases self.downloaders.len() - i,
        {
            let available = match self.downloaders[i].is_available(&document) {
                Ok(available) => available,
                Err(failure) => {
                    assert(!self.downloaders()[i as int].never_fails());
                    return Err(ServiceError::Failure(failure));
                },
            };
            if available {
                let fetched = match self.downloaders[i].download(&document) {
                    Ok(fetched) => fetched,
                    Err(failure) => {
                        assert(!self.downloaders()[i as int].never_fails());
                    return Err(ServiceError::Failure(failure));
                    },
                };
                match self.document_repository.save(&fetched) {
                    Ok(()) => {},
                    Err(failure) => {
                        return Err(ServiceError::Failure(failure));
                    },
                }
                assert(takes(old(self).downloaders(), fresh, i as int));
                return Ok(fetched);
            }
            i += 1;
        }
        assert(none_takes(old(self).downloaders(), fresh));
        Err(ServiceError::NoDownloaderAvailable)
    }

    /// Stores the document `document_id`. The document must be on file.
    /// Only the first storage is asked: where it holds the document
    /// already, nothing is done; else it stores the document, and the save
    /// is filed and returned.
    fn store(&mut self, document_id: &str) -> (r: Result<Save, ServiceError>)
        ensures
            final(self).same_parts(old(self)),
            final(self).documents() == old(self).documents(),
            match r {
                Ok(save) => {
                    &&& old(self).documents().contains_key(document_id@)
                    &&& old(self).storages().len() > 0
                    &&& !old(self).storages()[0].stores(old(self).documents()[document_id@])
                    &&& save@.document_id == old(self).documents()[document_id@].id
                    &&& final(self).saves() == old(self).saves().insert(save@.id, save@)
                },
                Err(e) => final(self).saves() == old(self).saves() && match e {
                    ServiceError::DocumentNotFound => !old(self).documents().contains_key(
                        document_id@,
                    ),
                    ServiceError::NoStorageAvailable => old(self).documents().contains_key(
                        document_id@,
                    ) && old(self).storages().len() == 0,
                    ServiceError::DocumentAlreadyStored => old(self).documents().contains_key(
                        document_id@,
                    ) && old(self).storages().len() > 0 && old(self).storages()[0].stores(
                        old(self).documents()[document_id@],
                    ),
                    ServiceError::Failure(_) => !old(self).never_fails(),
                    _ => false,
                },
            },
    {
        let found = match self.document_repository.find(document_id) {
            Ok(found) => found,
            Err(failure) => {
                return Err(ServiceError::Failure(failure));
            },
        };
        let document = match found {
            Some(document) => document,
            None => {
                return Err(ServiceError::DocumentNotFound);
            },
        };
        if self.storages.len() == 0 {
            return Err(ServiceError::NoStorageAvailable);
        }
        let stored = match self.storages[0].is_stored(&document) {
            Ok(stored) => stored,
            Err(failure) => {
                assert(!self.storages()[0].never_fails());
                return Err(ServiceError::Failure(failure));
            },
        };
        if stored {
            return Err(ServiceError::DocumentAlreadyStored);
        }
        let save = match self.storages[0].upload(&document) {
            Ok(save) => save,
            Err(failure) => {
                assert(!self.storages()[0].never_fails());
                return Err(ServiceError::Failure(failure));
            },
        };
        match self.save_repository.save(&save) {
            Ok(()) => {},
            Err(failure) => {
                return Err(ServiceError::Failure(failure));
            },
        }
        Ok(save)
    }
}

} // verus!
