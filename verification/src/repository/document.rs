use vstd::prelude::*;

use crate::document::Document;
use crate::document::DocumentView;
use crate::error::Failure;
use crate::keyed::by_key;
use crate::keyed::distinct_ids;
use crate::keyed::lemma_place_of;
use crate::keyed::lemma_with;
use crate::keyed::lemma_without;
use crate::keyed::place_of;
use crate::keyed::position;
use crate::keyed::with;
use crate::keyed::without;
use crate::text::same_text;

verus! {

/// Whether one of the documents comes from `url`.
pub open spec fn has_url(documents: Map<Seq<char>, DocumentView>, url: Seq<char>) -> bool {
    exists|id: Seq<char>| #[trigger] documents.contains_key(id) && documents[id].url == url
}

/// A store of documents, each under its identifier.
pub trait DocumentRepository {
    /// Whether every call on this repository succeeds.
    spec fn never_fails(&self) -> bool;

    /// The documents held, by identifier.
    spec fn documents(&self) -> Map<Seq<char>, DocumentView>;

    /// The document filed under `id`, if there is one.
    fn find(&self, id: &str) -> (r: Result<Option<Document>, Failure>)
        ensures
            self.never_fails() ==> r is Ok,
            r matches Ok(found) ==> match found {
                Some(document) => self.documents().contains_key(id@) && self.documents()[id@]
                    == document@,
                None => !self.documents().contains_key(id@),
            },
    ;

    /// A document that comes from `url`, if there is one.
    fn find_by_url(&self, url: &str) -> (r: Result<Option<Document>, Failure>)
        ensures
            self.never_fails() ==> r is Ok,
            r matches Ok(found) ==> match found {
                Some(document) => self.documents().contains_key(document@.id)
                    && self.documents()[document@.id] == document@ && document@.url == url@,
                None => !has_url(self.documents(), url@),
            },
    ;

    /// Files `item` under its identifier, in the place of the document
    /// that was there. A failure changes nothing.
    fn save(&mut self, item: &Document) -> (r: Result<(), Failure>)
        ensures
            final(self).never_fails() == old(self).never_fails(),
            old(self).never_fails() ==> r is Ok,
            r is Ok ==> final(self).documents() == old(self).documents().insert(item@.id, item@),
            r is Err ==> final(self).documents() == old(self).documents(),
    ;

    /// Drops the document filed under `id`, if there is one. A failure
    /// changes nothing.
    fn delete(&mut self, id: &str) -> (r: Result<(), Failure>)
        ensures
            final(self).never_fails() == old(self).never_fails(),
            old(self).never_fails() ==> r is Ok,
            r is Ok ==> final(self).documents() == old(self).documents().remove(id@),
            r is Err ==> final(self).documents() == old(self).documents(),
    ;
}

/// The documents of a sequence, by identifier.
pub open spec fn documents_of(items: Seq<Document>) -> Map<Seq<char>, DocumentView> {
    by_key(items).map_values(|document: Document| document@)
}

/// A repository of documents that lives in memory.
pub struct DocumentMemoryRepository {
    items: Vec<Document>,
}

impl DocumentMemoryRepository {
    #[verifier::type_invariant]
    spec fn distinct(self) -> bool {
        distinct_ids(self.items@)
    }

    /// An empty repository.
    pub fn new() -> (r: Self)
        ensures
            r.documents() == Map::<Seq<char>, DocumentView>::empty(),
    {
        let r = DocumentMemoryRepository { items: Vec::new() };
        assert(r.documents() =~= Map::<Seq<char>, DocumentView>::empty());
        r
    }
}

impl DocumentRepository for DocumentMemoryRepository {
    open spec fn never_fails(&self) -> bool {
        true
    }

    closed spec fn documents(&self) -> Map<Seq<char>, DocumentView> {
        documents_of(self.items@)
    }

    fn find(&self, id: &str) -> (r: Result<Option<Document>, Failure>) {
        proof {
            use_type_invariant(self);
        }
        match position(&self.items, id) {
            Some(i) => Ok(Some(self.items[i].clone())),
            None => Ok(None),
        }
    }

    fn find_by_url(&self, url: &str) -> (r: Result<Option<Document>, Failure>) {
        proof {
            use_type_invariant(self);
        }
        let mut i: usize = 0;
        while i < self.items.len()
            invariant
                i <= self.items.len(),
                distinct_ids(self.items@),
                forall|j: int| 0 <= j < i ==> (#[trigger] self.items@[j])@.url != url@,
            decreases self.items.len() - i,
        {
            let document = &self.items[i];
            if same_text(document.url().as_str(), url) {
                proof {
                    lemma_place_of(self.items@, i as int);
                }
                return Ok(Some(document.clone()));
            }
            i += 1;
        }
        proof {
            if has_url(self.documents(), url@) {
                let id = choose|id: Seq<char>| #[trigger]
                    self.documents().contains_key(id) && self.documents()[id].url == url@;
                let j = place_of(self.items@, id);
                assert(self.items@[j]@.url != url@);
            }
        }
        Ok(None)
    }

    fn save(&mut self, item: &Document) -> (r: Result<(), Failure>) {
        proof {
            use_type_invariant(&*self);
            lemma_with(self.items@, *item);
            assert(documents_of(with(self.items@, *item)) =~= documents_of(
                self.items@,
            ).insert(item@.id, item@));
        }
        // Taken out while it changes, and put back when it is done.
        let mut items: Vec<Document> = Vec::new();
        std::mem::swap(&mut self.items, &mut items);
        match position(&items, item.id().as_str()) {
            Some(i) => {
                items.set(i, item.clone());
            },
            None => {
                items.push(item.clone());
            },
        }
        std::mem::swap(&mut self.items, &mut items);
        Ok(())
    }

    fn delete(&mut self, id: &str) -> (r: Result<(), Failure>) {
        proof {
            use_type_invariant(&*self);
            lemma_without(self.items@, id@);
            assert(documents_of(without(self.items@, id@)) =~= documents_of(
                self.items@,
            ).remove(id@));
        }
        // Taken out while it changes, and put back when it is done.
        let mut items: Vec<Document> = Vec::new();
        std::mem::swap(&mut self.items, &mut items);
        match position(&items, id) {
            Some(i) => {
                items.remove(i);
            },
            None => {},
        }
        std::mem::swap(&mut self.items, &mut items);
        Ok(())
    }
}

} // verus!
