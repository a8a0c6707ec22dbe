use item_system::repository::document::{DocumentMemoryRepository, DocumentRepository};
use item_system::{Document, Save};

const YOUTUBE_URL: &str = "https://www.youtube.com/watch?v=6v2L2UGZJAM";

#[test]
fn document_create_new_video() {
    let video = Document::new(YOUTUBE_URL);
    assert_eq!(video.url(), YOUTUBE_URL.to_string());
    assert_eq!(video.filename(), None);
}

#[test]
fn document_test_repository_find_with_not_existing_document() {
    let repository = DocumentMemoryRepository::new();
    let document = Document::new("http://example.com");
    assert_eq!(repository.find(&document.id()).unwrap().is_none(), true);
}

#[test]
fn document_test_repository_find_with_existing_document() {
    let mut repository = DocumentMemoryRepository::new();
    let document = Document::new("http://example.com");
    repository.save(&document).unwrap();
    assert_eq!(repository.find(&document.id()).unwrap().is_some(), true);
}

#[test]
fn test_repository_find_by_url_with_existing_document() {
    let mut repository = DocumentMemoryRepository::new();
    let document = Document::new("http://example.com");
    repository.save(&document).unwrap();
    assert_eq!(
        repository.find_by_url(&document.url()).unwrap().is_some(),
        true
    );
}

#[test]
fn document_test_repository_save_with_new_document() {
    let mut repository = DocumentMemoryRepository::new();
    let document = Document::new("http://example.com");
    repository.save(&document).unwrap();
    assert_eq!(repository.find(&document.id()).unwrap().is_some(), true);
}

#[test]
fn document_test_repository_delete_with_existing_document() {
    let mut repository = DocumentMemoryRepository::new();
    let document = Document::new("http://example.com");
    repository.save(&document).unwrap();
    repository.delete(&document.id()).unwrap();
    assert_eq!(repository.find(&document.id()).unwrap().is_none(), true);
}

#[test]
fn new_document_has_a_fresh_id_of_26_characters() {
    let first = Document::new("http://example.com");
    let second = Document::new("http://example.com");
    assert_eq!(first.id().chars().count(), 26);
    assert_eq!(second.id().chars().count(), 26);
    assert_ne!(first.id(), second.id());
    assert_eq!(first.local_path(), None);
    assert_eq!(first.path(), None);
}

#[test]
fn document_setters_change_one_field() {
    let mut document = Document::new("http://example.com/a");
    let id = document.id();
    document.set_filename("a.mp4".to_string());
    assert_eq!(document.filename(), Some("a.mp4".to_string()));
    assert_eq!(document.local_path(), None);
    document.set_local_path("/tmp/a.mp4".to_string());
    assert_eq!(document.local_path(), Some("/tmp/a.mp4".to_string()));
    assert_eq!(document.path(), Some("/tmp/a.mp4".to_string()));
    document.set_path("/var/a.mp4".to_string());
    assert_eq!(document.local_path(), Some("/var/a.mp4".to_string()));
    assert_eq!(document.filename(), Some("a.mp4".to_string()));
    assert_eq!(document.url(), "http://example.com/a".to_string());
    assert_eq!(document.id(), id);
    let copy = document.clone();
    assert_eq!(copy.id(), id);
    assert_eq!(copy.filename(), Some("a.mp4".to_string()));
}

#[test]
fn new_save_refers_to_its_document() {
    let mut save = Save::new("document-1");
    assert_eq!(save.document_id(), "document-1".to_string());
    assert_eq!(save.url(), None);
    assert_eq!(save.id().chars().count(), 26);
    let id = save.id();
    save.set_url("/tmp/x".to_string());
    assert_eq!(save.url(), Some("/tmp/x".to_string()));
    assert_eq!(save.id(), id);
    assert_eq!(save.document_id(), "document-1".to_string());
    assert_ne!(Save::new("document-1").id(), id);
}

#[test]
fn document_repository_replaces_and_keeps_the_others() {
    let mut repository = DocumentMemoryRepository::new();
    let first = Document::new("http://example.com/1");
    let mut second = Document::new("http://example.com/2");
    repository.save(&first).unwrap();
    repository.save(&second).unwrap();
    second.set_filename("two.mp4".to_string());
    repository.save(&second).unwrap();
    let found = repository.find(&second.id()).unwrap().unwrap();
    assert_eq!(found.filename(), Some("two.mp4".to_string()));
    let by_url = repository
        .find_by_url("http://example.com/1")
        .unwrap()
        .unwrap();
    assert_eq!(by_url.id(), first.id());
    assert!(repository
        .find_by_url("http://example.com/3")
        .unwrap()
        .is_none());
    repository.delete(&first.id()).unwrap();
    assert!(repository.find(&first.id()).unwrap().is_none());
    assert!(repository.find(&second.id()).unwrap().is_some());
    repository.delete("absent").unwrap();
    assert!(repository.find(&second.id()).unwrap().is_some());
}
