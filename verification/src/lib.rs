//! The rules of an item system, verified with Verus: attributes and their
//! fixed-point sums, item templates and items, inventories with limits per
//! category, a gear of worn equipment, and the collections of runes and
//! equipment around it. Beside them, a small document service: documents
//! that are fetched by downloaders, stored by storages and filed in
//! repositories; and the resources of a build.
//!
//! Every executable function carries a contract over the view of its
//! types, and the laws of each part are proof functions in its `laws`
//! module or beside the function they speak of.

pub mod attribute;
pub mod document;
pub mod downloader;
pub mod error;
pub mod gear;
pub mod id;
pub mod inventory;
pub mod item;
pub mod item_base;
pub mod keyed;
pub mod repository;
pub mod resource;
pub mod scheduler;
pub mod service;
pub mod storage;
pub mod text;

pub use attribute::{Attribute, Modifier};
pub use document::{Document, Save};
pub use error::{Failure, ServiceError};
pub use gear::{Equipment, EquipmentInventory, EquipmentSlot, Gear, GearError, RuneInventory, RuneStack};
pub use id::Id;
pub use inventory::{Inventory, InventoryError, InventoryId, InventoryLimits};
pub use item::{Item, ItemBuilder, ItemId};
pub use item_base::{Category, Durability, ItemBase, ItemBaseBuilder, ItemBaseId};
