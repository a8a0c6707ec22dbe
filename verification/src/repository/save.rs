use vstd::prelude::*;

use crate::document::Save;
use crate::document::SaveView;
use crate::error::Failure;
use crate::keyed::by_key;
use crate::keyed::distinct_ids;
use crate::keyed::lemma_place_of;
use crate::keyed::lemma_with;
use crate::keyed::lemma_without;
use crate::keyed::place_of;
use crate::keyed::position;
use crate::keyed::with;
use crate::keyed::without;
use crate::text::same_text;

verus! {

/// A store of saves, each under its identifier.
pub trait SaveRepository {
    /// Whether every call on this repository succeeds.
    spec fn never_fails(&self) -> bool;

    /// The saves held, by identifier.
    spec fn saves(&self) -> Map<Seq<char>, SaveView>;

    /// The save filed under `id`, if there is one.
    fn find(&self, id: &str) -> (r: Result<Option<Save>, Failure>)
        ensures
            self.never_fails() ==> r is Ok,
            r matches Ok(found) ==> match found {
                Some(save) => self.saves().contains_key(id@) && self.saves()[id@] == save@,
                None => !self.saves().contains_key(id@),
            },
    ;

    /// The saves of the document `document_id`: each of them, and nothing
    /// else.
    fn find_document_id(&self, document_id: &str) -> (r: Result<Vec<Save>, Failure>)
        ensures
            self.never_fails() ==> r is Ok,
            r matches Ok(found) ==> {
                &&& forall|i: int|
                    0 <= i < found@.len() ==> {
                        &&& self.saves().contains_key((#[trigger] found@[i])@.id)
                        &&& self.saves()[found@[i]@.id] == found@[i]@
                        &&& found@[i]@.document_id == document_id@
                    }
                &&& forall|id: Seq<char>| #[trigger]
                    self.saves().contains_key(id) && self.saves()[id].document_id == document_id@
                        ==> exists|i: int|
                        0 <= i < found@.len() && (#[trigger] found@[i])@ == self.saves()[id]
            },
    ;

    /// Files `item` under its identifier, in the place of the save that
    /// was there. A failure changes nothing.
    fn save(&mut self, item: &Save) -> (r: Result<(), Failure>)
        ensures
            final(self).never_fails() == old(self).never_fails(),
            old(self).never_fails() ==> r is Ok,
            r is Ok ==> final(self).saves() == old(self).saves().insert(item@.id, item@),
            r is Err ==> final(self).saves() == old(self).saves(),
    ;

    /// Drops the save filed under `id`, if there is one. A failure changes
    /// nothing.
    fn delete(&mut self, id: &str) -> (r: Result<(), Failure>)
        ensures
            final(self).never_fails() == old(self).never_fails(),
            old(self).never_fails() ==> r is Ok,
            r is Ok ==> final(self).saves() == old(self).saves().remove(id@),
            r is Err ==> final(self).saves() == old(self).saves(),
    ;
}

/// The saves of a sequence, by identifier.
pub open spec fn saves_of(items: Seq<Save>) -> Map<Seq<char>, SaveView> {
    by_key(items).map_values(|save: Save| save@)
}

/// A repository of saves that lives in memory.
pub struct SaveMemoryRepository {
    items: Vec<Save>,
}

impl SaveMemoryRepository {
    #[verifier::type_invariant]
    spec fn distinct(self) -> bool {
        distinct_ids(self.items@)
    }

    /// An empty repository.
    pub fn new() -> (r: Self)
        ensures
            r.saves() == Map::<Seq<char>, SaveView>::empty(),
    {
        let r = SaveMemoryRepository { items: Vec::new() };
        assert(r.saves() =~= Map::<Seq<char>, SaveView>::empty());
        r
    }
}

impl SaveRepository for SaveMemoryRepository {
    open spec fn never_fails(&self) -> bool {
        true
    }

    closed spec fn saves(&self) -> Map<Seq<char>, SaveView> {
        saves_of(self.items@)
    }

    fn find(&self, id: &str) -> (r: Result<Option<Save>, Failure>) {
        proof {
            use_type_invariant(self);
        }
        match position(&self.items, id) {
            Some(i) => Ok(Some(self.items[i].clone())),
            None => Ok(None),
        }
    }

    fn find_document_id(&self, document_id: &str) -> (r: Result<Vec<Save>, Failure>) {
        proof {
            use_type_invariant(self);
        }
        let mut found: Vec<Save> = Vec::new();
        let mut i: usize = 0;
        while i < self.items.len()
            invariant
                i <= self.items.len(),
                forall|j: int|
                    0 <= j < found@.len() ==> exists|k: int|
                        0 <= k < i && #[trigger] found@[j] == #[trigger] self.items@[k]
                            && self.items@[k]@.document_id == document_id@,
                forall|k: int|
                    0 <= k < i && (#[trigger] self.items@[k])@.document_id == document_id@
                        ==> exists|j: int|
                        0 <= j < found@.len() && #[trigger] found@[j] == self.items@[k],
            decreases self.items.len() - i,
        {
            let save = &self.items[i];
            let ghost before = found@;
            if same_text(save.document_id().as_str(), document_id) {
                found.push(save.clone());
                proof {
                    assert(found@[before.len() as int] == self.items@[i as int]);
                    assert forall|j: int| 0 <= j < found@.len() implies exists|k: int|
                        0 <= k < i + 1 && #[trigger] found@[j] == #[trigger] self.items@[k]
                            && self.items@[k]@.document_id == document_id@ by {
                        if j < before.len() {
                            assert(found@[j] == before[j]);
                        }
                    }
                    assert forall|k: int|
                        0 <= k < i + 1 && (#[trigger] self.items@[k])@.document_id
                            == document_id@ implies exists|j: int|
                        0 <= j < found@.len() && #[trigger] found@[j] == self.items@[k] by {
                        if k < i {
                            let j = choose|j: int|
                                0 <= j < before.len() && #[trigger] before[j] == self.items@[k];
                            assert(found@[j] == before[j]);
                        }
                    }
                }
            }
            i += 1;
        }
        proof {
            assert forall|j: int| 0 <= j < found@.len() implies {
                &&& self.saves().contains_key((#[trigger] found@[j])@.id)
                &&& self.saves()[found@[j]@.id] == found@[j]@
                &&& found@[j]@.document_id == document_id@
            } by {
                let k = choose|k: int|
                    0 <= k < i && #[trigger] found@[j] == #[trigger] self.items@[k]
                        && self.items@[k]@.document_id == document_id@;
                lemma_place_of(self.items@, k);
            }
            assert forall|id: Seq<char>| #[trigger]
                self.saves().contains_key(id) && self.saves()[id].document_id
                    == document_id@ implies exists|j: int|
                0 <= j < found@.len() && (#[trigger] found@[j])@ == self.saves()[id] by {
                let k = place_of(self.items@, id);
                assert(self.items@[k]@.document_id == document_id@);
                let j = choose|j: int|
                    0 <= j < found@.len() && #[trigger] found@[j] == self.items@[k];
                assert(found@[j]@ == self.saves()[id]);
            }
        }
        Ok(found)
    }

    fn save(&mut self, item: &Save) -> (r: Result<(), Failure>) {
        proof {
            use_type_invariant(&*self);
            lemma_with(self.items@, *item);
            assert(saves_of(with(self.items@, *item)) =~= saves_of(self.items@).insert(
                item@.id,
                item@,
            ));
        }
        // Taken out while it changes, and put back when it is done.
        let mut items: Vec<Save> = Vec::new();
        std::mem::swap(&mut self.items, &mut items);
        match position(&items, item.id().as_str()) {
            Some(i) => {
                items.set(i, item.clone());
            },
            None => {
                items.push(item.clone());
            },
        }
        std::mem::swap(&mut self.items, &mut items);
        Ok(())
    }

    fn delete(&mut self, id: &str) -> (r: Result<(), Failure>) {
        proof {
            use_type_invariant(&*self);
            lemma_without(self.items@, id@);
            assert(saves_of(without(self.items@, id@)) =~= saves_of(self.items@).remove(id@));
        }
        // Taken out while it changes, and put back when it is done.
        let mut items: Vec<Save> = Vec::new();
        std::mem::swap(&mut self.items, &mut items);
        match position(&items, id) {
            Some(i) => {
                items.remove(i);
            },
            None => {},
        }
        std::mem::swap(&mut self.items, &mut items);
        Ok(())
    }
}

} // verus!
