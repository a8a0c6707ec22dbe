use item_system::downloader::{Downloader, FakeDownloader};
use item_system::repository::document::DocumentMemoryRepository;
use item_system::repository::save::SaveMemoryRepository;
use item_system::service::{DocumentService, DocumentServiceFactory};
use item_system::storage::{FakeStorage, Storage};
use item_system::{Failure, ServiceError};

fn create_fake_document_service() -> DocumentServiceFactory {
    let document_repository = Box::new(DocumentMemoryRepository::new());
    let save_repository = Box::new(SaveMemoryRepository::new());
    let downloaders: Vec<Box<dyn Downloader>> = vec![Box::new(FakeDownloader::new("/tmp"))];
    let storages: Vec<Box<dyn Storage>> = vec![Box::new(FakeStorage::new("/tmp"))];
    DocumentServiceFactory::new(document_repository, save_repository, downloaders, storages)
}

#[test]
fn test_document_service_download_with_valid_url() {
    let mut document_service = create_fake_document_service();
    let document_downloaded = document_service.download("https://example.com").unwrap();
    let document = document_service
        .get_document_by_id(&document_downloaded.id())
        .unwrap()
        .unwrap();
    assert_eq!(document.url(), "https://example.com");
    assert_eq!(
        document.filename(),
        Some(format!("{}.mp4", document.id().to_string()))
    );
}

#[test]
fn test_document_service_download_with_invalid_url() {
    let mut document_service = create_fake_document_service();
    let document_downloaded = document_service.download("https://example.org");
    assert!(document_downloaded.is_err());
}

#[test]
fn test_document_service_download_with_already_existing_document() {
    let mut document_service = create_fake_document_service();
    document_service.download("https://example.com").unwrap();
    let document_downloaded = document_service.download("https://example.com");
    assert_eq!(
        document_downloaded.unwrap_err().to_string(),
        "Document already exists"
    );
}

#[test]
fn test_document_service_get_document_by_url_with_valid_document() {
    let mut document_service = create_fake_document_service();
    let document_downloaded = document_service.download("https://example.com").unwrap();
    let document = document_service
        .get_document_by_url("https://example.com")
        .unwrap()
        .unwrap();
    assert_eq!(document_downloaded.id(), document.id());
    assert_eq!(document_downloaded.url(), document.url());
}

#[test]
fn test_document_service_store_with_valid_document() {
    let mut document_service = create_fake_document_service();
    let document_downloaded = document_service.download("https://example.com").unwrap();
    let save = document_service.store(&document_downloaded.id()).unwrap();
    assert_eq!(save.document_id(), document_downloaded.id());
}

#[test]
fn test_document_service_store_with_invalid_document() {
    let mut document_service = create_fake_document_service();
    let save = document_service.store("invalid_document_id");
    assert_eq!(save.unwrap_err().to_string(), "Document not found");
}

#[test]
fn download_without_a_downloader_files_the_document_and_fails() {
    let mut document_service = create_fake_document_service();
    let refused = document_service.download("https://example.org");
    assert!(matches!(
        refused,
        Err(ServiceError::NoDownloaderAvailable)
    ));
    let filed = document_service
        .get_document_by_url("https://example.org")
        .unwrap()
        .unwrap();
    assert_eq!(filed.filename(), None);
    assert_eq!(filed.local_path(), None);
    let again = document_service.download("https://example.org");
    assert!(matches!(again, Err(ServiceError::DocumentAlreadyExists)));
}

#[test]
fn download_asks_the_downloaders_in_order() {
    let downloaders: Vec<Box<dyn Downloader>> = vec![
        Box::new(FakeDownloader::new("/first")),
        Box::new(FakeDownloader::new("/second")),
    ];
    let storages: Vec<Box<dyn Storage>> = vec![];
    let mut document_service = DocumentServiceFactory::new(
        Box::new(DocumentMemoryRepository::new()),
        Box::new(SaveMemoryRepository::new()),
        downloaders,
        storages,
    );
    let document = document_service
        .download("https://example.com/a")
        .unwrap();
    assert_eq!(
        document.local_path(),
        Some(format!("/first/{}.mp4", document.id()))
    );
    let stored = document_service.store(&document.id());
    assert!(matches!(stored, Err(ServiceError::NoStorageAvailable)));
}

#[test]
fn store_files_the_save_and_refuses_what_is_stored() {
    let mut document_service = create_fake_document_service();
    let document = document_service.download("https://example.com").unwrap();
    let save = document_service.store(&document.id()).unwrap();
    assert_eq!(save.url(), Some(format!("/tmp/{}", save.id())));
    let downloaders: Vec<Box<dyn Downloader>> = vec![];
    let storages: Vec<Box<dyn Storage>> = vec![Box::new(FakeStorage::new("/tmp"))];
    let mut repository = DocumentMemoryRepository::new();
    let mut existing = item_system::Document::new("https://example.com/existing");
    existing.set_filename("existing".to_string());
    item_system::repository::document::DocumentRepository::save(&mut repository, &existing)
        .unwrap();
    let mut document_service = DocumentServiceFactory::new(
        Box::new(repository),
        Box::new(SaveMemoryRepository::new()),
        downloaders,
        storages,
    );
    let refused = document_service.store(&existing.id());
    assert_eq!(refused.unwrap_err().to_string(), "Document already stored");
}

struct BrokenDownloader;

impl Downloader for BrokenDownloader {
    fn never_fails(&self) -> bool {
        false
    }

    fn accepts(&self, _document: item_system::document::DocumentView) -> bool {
        true
    }

    fn named(
        &self,
        document: item_system::document::DocumentView,
    ) -> item_system::document::DocumentView {
        document
    }

    fn downloaded(
        &self,
        document: item_system::document::DocumentView,
    ) -> item_system::document::DocumentView {
        document
    }

    fn is_available(&self, _document: &item_system::Document) -> Result<bool, Failure> {
        Ok(true)
    }

    fn get_filename(
        &self,
        _document: &item_system::Document,
    ) -> Result<item_system::Document, Failure> {
        Err("no name".into())
    }

    fn download(
        &self,
        _document: &item_system::Document,
    ) -> Result<item_system::Document, Failure> {
        Err("out of order".into())
    }
}

#[test]
fn download_passes_on_the_failure_of_a_downloader() {
    let downloaders: Vec<Box<dyn Downloader>> = vec![
        Box::new(BrokenDownloader),
        Box::new(FakeDownloader::new("/tmp")),
    ];
    let storages: Vec<Box<dyn Storage>> = vec![];
    let mut document_service = DocumentServiceFactory::new(
        Box::new(DocumentMemoryRepository::new()),
        Box::new(SaveMemoryRepository::new()),
        downloaders,
        storages,
    );
    let failed = document_service.download("https://example.com/a");
    match failed {
        Err(ServiceError::Failure(failure)) => assert_eq!(failure.message, "out of order"),
        _ => panic!("expected the downloader's failure"),
    }
    assert!(document_service
        .get_document_by_url("https://example.com/a")
        .unwrap()
        .is_some());
}

struct BrokenStorage;

impl Storage for BrokenStorage {
    fn never_fails(&self) -> bool {
        false
    }

    fn stores(&self, _document: item_system::document::DocumentView) -> bool {
        false
    }

    fn is_stored(&self, _document: &item_system::Document) -> Result<bool, Failure> {
        Ok(false)
    }

    fn upload(&self, _document: &item_system::Document) -> Result<item_system::Save, Failure> {
        Err("disk full".into())
    }
}

#[test]
fn store_passes_on_the_failure_of_a_storage() {
    let downloaders: Vec<Box<dyn Downloader>> = vec![Box::new(FakeDownloader::new("/tmp"))];
    let storages: Vec<Box<dyn Storage>> = vec![
        Box::new(BrokenStorage),
        Box::new(FakeStorage::new("/tmp")),
    ];
    let mut document_service = DocumentServiceFactory::new(
        Box::new(DocumentMemoryRepository::new()),
        Box::new(SaveMemoryRepository::new()),
        downloaders,
        storages,
    );
    let document = document_service.download("https://example.com/a").unwrap();
    match document_service.store(&document.id()) {
        Err(ServiceError::Failure(failure)) => assert_eq!(failure.message, "disk full"),
        _ => panic!("expected the storage's failure"),
    }
}
