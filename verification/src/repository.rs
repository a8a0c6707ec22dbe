use vstd::prelude::*;

use crate::error::Failure;

pub mod document;
pub mod save;

verus! {

/// A store of entities of one type, each under its identifier. What an
/// implementation does is its own: nothing is said here of what comes back.
pub trait Repository<T> {
    fn find(&self, id: &str) -> Result<T, Failure>;

    fn save(&mut self, item: &T) -> Result<(), Failure>;

    fn delete(&mut self, id: &str) -> Result<(), Failure>;
}

} // verus!
