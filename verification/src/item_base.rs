use std::sync::Arc;
use vstd::prelude::*;

use crate::attribute::Attribute;
use crate::id::new_uuid_as_str;
use crate::id::Id;
use crate::text::clone_text;

verus! {

broadcast use vstd::string::group_string_axioms;

pub type ItemBaseId = Id;

pub type Durability = u32;

/// What an item is for. It decides how an inventory counts the item and how
/// the item wears.
#[derive(Clone, Copy, Debug, PartialEq, Eq, Structural)]
pub enum Category {
    Equipment,
    Consumable,
    Rune,
}

/// The template of a kind of item. Every item of the kind shares one; it
/// does not change once built.
#[derive(Debug)]
pub struct ItemBase {
    pub id: ItemBaseId,
    pub name: String,
    pub description: Option<String>,
    pub image_url: Option<String>,
    pub category: Category,
    pub attributes: Arc<Vec<Attribute>>,
    pub base_durability: Durability,
}

impl Clone for ItemBase {
    fn clone(&self) -> (r: Self)
        ensures
            r == *self,
    {
        ItemBase {
            id: self.id.clone(),
            name: self.name.clone(),
            description: clone_text(&self.description),
            image_url: clone_text(&self.image_url),
            category: self.category,
            attributes: self.attributes.clone(),
            base_durability: self.base_durability,
        }
    }
}

impl ItemBase {
    /// Starts a template of the given name and category, with a fresh
    /// identifier, no description, no image, no attribute and a base
    /// durability of zero.
    pub fn builder(name: &str, category: Category) -> (r: ItemBaseBuilder)
        ensures
            r@.id@.len() == 36,
            r@.name@ == name@,
            r@.description is None,
            r@.image_url is None,
            r@.category == category,
            r@.attributes@ == Seq::<Attribute>::empty(),
            r@.base_durability == 0,
    {
        ItemBaseBuilder::new(name, category)
    }
}

/// A template under construction. Its view is the template that `build`
/// would return.
pub struct ItemBaseBuilder {
    base: ItemBase,
}

impl View for ItemBaseBuilder {
    type V = ItemBase;

    closed spec fn view(&self) -> ItemBase {
        self.base
    }
}

impl ItemBaseBuilder {
    fn new(name: &str, category: Category) -> (r: Self)
        ensures
            r@.id@.len() == 36,
            r@.name@ == name@,
            r@.description is None,
            r@.image_url is None,
            r@.category == category,
            r@.attributes@ == Seq::<Attribute>::empty(),
            r@.base_durability == 0,
    {
        let id = Id::from(new_uuid_as_str());
        ItemBaseBuilder {
            base: ItemBase {
                id,
                name: name.to_string(),
                description: None,
                image_url: None,
                category,
                attributes: Arc::new(Vec::new()),
                base_durability: 0,
            },
        }
    }

    pub fn id(self, id: ItemBaseId) -> (r: Self)
        ensures
            r@ == (ItemBase { id, ..self@ }),
    {
        let mut base = self.base;
        base.id = id;
        ItemBaseBuilder { base }
    }

    pub fn description(self, description: &str) -> (r: Self)
        ensures
            r@.description matches Some(text) && text@ == description@,
            r@ == (ItemBase { description: r@.description, ..self@ }),
    {
        let mut base = self.base;
        base.description = Some(description.to_string());
        ItemBaseBuilder { base }
    }

    pub fn image_url(self, image_url: &str) -> (r: Self)
        ensures
            r@.image_url matches Some(text) && text@ == image_url@,
            r@ == (ItemBase { image_url: r@.image_url, ..self@ }),
    {
        let mut base = self.base;
        base.image_url = Some(image_url.to_string());
        ItemBaseBuilder { base }
    }

    pub fn attributes(self, attributes: Vec<Attribute>) -> (r: Self)
        ensures
            r@.attributes@ == attributes@,
            r@ == (ItemBase { attributes: r@.attributes, ..self@ }),
    {
        let mut base = self.base;
        base.attributes = Arc::new(attributes);
        ItemBaseBuilder { base }
    }

    pub fn base_durability(self, base_durability: Durability) -> (r: Self)
        ensures
            r@ == (ItemBase { base_durability, ..self@ }),
    {
        let mut base = self.base;
        base.base_durability = base_durability;
        ItemBaseBuilder { base }
    }

    pub fn build(self) -> (r: ItemBase)
        ensures
            r == self@,
    {
        self.base
    }
}

} // verus!
