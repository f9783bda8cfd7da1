//! # Objects
//!
//! An object is a non-living but intractable part of the world.
//! They can store other objects (or be put into the storages).
//! Also they can be consumed and used up or created, or just put into the world.

use vstd::prelude::*;

use crate::text;

verus! {

/// Subtype or Subcategory of an Object
pub type ObjectSubtype = &'static str;

/// Identifier type for an object.
pub type ObjectId = usize;

/// Types of an object.
#[derive(Debug, Clone, Copy, PartialEq, Eq, Hash)]
pub enum ObjectType {
    Furniture(ObjectSubtype),
    Miscellaneous(ObjectSubtype),
    Food(ObjectSubtype),
}

/// The mathematical model of an object type: the kind and the subtype's characters.
pub enum ObjectKind {
    Furniture(Seq<char>),
    Miscellaneous(Seq<char>),
    Food(Seq<char>),
}

impl View for ObjectType {
    type V = ObjectKind;

    open spec fn view(&self) -> ObjectKind {
        match self {
            ObjectType::Furniture(subtype) => ObjectKind::Furniture(subtype@),
            ObjectType::Miscellaneous(subtype) => ObjectKind::Miscellaneous(subtype@),
            ObjectType::Food(subtype) => ObjectKind::Food(subtype@),
        }
    }
}

impl ObjectType {
    /// Check, if two object types are the same kind with the same subtype.
    pub fn same_as(&self, other: &Self) -> (same: bool)
        ensures
            same == (self@ == other@),
    {
        match (self, other) {
            (ObjectType::Furniture(a), ObjectType::Furniture(b)) => text::str_equal(a, b),
            (ObjectType::Miscellaneous(a), ObjectType::Miscellaneous(b)) => text::str_equal(a, b),
            (ObjectType::Food(a), ObjectType::Food(b)) => text::str_equal(a, b),
            _ => false,
        }
    }
}

/// The attribute bits for blocking, stackable and portable objects.
pub open spec fn spec_object_attributes(is_blocking: bool, is_stackable: bool, is_portable: bool) -> u8 {
    ((if is_blocking { 1u8 } else { 0u8 }) + (if is_stackable { 2u8 } else { 0u8 }) + (if is_portable {
        4u8
    } else {
        0u8
    })) as u8
}

/// A world object indicates an object in the world which is not a wusel.
#[derive(Debug, Clone)]
pub struct Object {
    name: String,
    id: usize,
    object_type: ObjectType,
    object_attributes: u8,
    consumable_bites: u16,
    storage_capacity: u16,
    consumable_bites_left: u16,
    storage_capacity_left: u16,
}

/// The mathematical model of an object.
pub struct ObjectModel {
    pub name: Seq<char>,
    pub id: usize,
    pub object_type: ObjectType,
    pub object_attributes: u8,
    pub consumable_bites: u16,
    pub storage_capacity: u16,
    pub consumable_bites_left: u16,
    pub storage_capacity_left: u16,
}

impl View for Object {
    type V = ObjectModel;

    closed spec fn view(&self) -> ObjectModel {
        ObjectModel {
            name: self.name@,
            id: self.id,
            object_type: self.object_type,
            object_attributes: self.object_attributes,
            consumable_bites: self.consumable_bites,
            storage_capacity: self.storage_capacity,
            consumable_bites_left: self.consumable_bites_left,
            storage_capacity_left: self.storage_capacity_left,
        }
    }
}

/// The counter of created items; no item is counted yet, every new object has the id 0.
fn get_items_created() -> (count: usize)
    ensures
        count == 0,
{
    0
}

impl Object {
    /// Not passable, will block the way.
    pub const OBJECT_IS_BLOCKING: u8 = 0b001;

    /// Can be under or on top of another object.
    pub const OBJECT_IS_STACKABLE: u8 = 0b010;

    /// Can be carried or stored.
    pub const OBJECT_IS_PORTABLE: u8 = 0b100;

    pub fn new(
        name: String,
        object_type: ObjectType,
        is_solid: bool,
        is_stackable: bool,
        is_portable: bool,
        consumable_bites: u16,
        storage_capacity: u16,
    ) -> (object: Self)
        ensures
            object@ == (ObjectModel {
                name: name@,
                id: 0,
                object_type,
                object_attributes: spec_object_attributes(is_solid, is_stackable, is_portable),
                consumable_bites,
                storage_capacity,
                consumable_bites_left: consumable_bites,
                storage_capacity_left: storage_capacity,
            }),
    {
        Self {
            name,
            object_type,
            id: get_items_created(),
            object_attributes: Self::to_object_attributes(is_solid, is_stackable, is_portable),
            consumable_bites,
            storage_capacity,
            consumable_bites_left: consumable_bites,
            storage_capacity_left: storage_capacity,
        }
    }

    /// Initiate new object (but as new) like the given. New Object: Not consumed and empty.
    pub fn clone_as_new(other: &Self) -> (object: Self)
        ensures
            object@ == (ObjectModel {
                id: 0,
                consumable_bites_left: other@.consumable_bites,
                storage_capacity_left: other@.storage_capacity,
                ..other@
            }),
    {
        Self {
            name: other.name.clone(),
            object_type: other.object_type,
            id: get_items_created(),
            object_attributes: other.object_attributes,
            consumable_bites: other.consumable_bites,
            storage_capacity: other.storage_capacity,
            consumable_bites_left: other.consumable_bites,
            storage_capacity_left: other.storage_capacity,
        }
    }

    pub fn get_object_id(&self) -> (id: usize)
        ensures
            id == self@.id,
    {
        self.id
    }

    pub fn get_object_type(&self) -> (object_type: ObjectType)
        ensures
            object_type == self@.object_type,
    {
        self.object_type
    }

    pub fn get_name(&self) -> (name: String)
        ensures
            name@ == self@.name,
    {
        self.name.clone()
    }

    pub fn set_name(&mut self, name: String)
        ensures
            final(self)@ == (ObjectModel { name: name@, ..old(self)@ }),
    {
        self.name = name;
    }

    pub fn to_object_attributes(is_blocking: bool, is_stackable: bool, is_portable: bool) -> (attributes: u8)
        ensures
            attributes == spec_object_attributes(is_blocking, is_stackable, is_portable),
    {
        (if is_blocking {
            Self::OBJECT_IS_BLOCKING
        } else {
            0u8
        }) + if is_stackable {
            Self::OBJECT_IS_STACKABLE
        } else {
            0u8
        } + if is_portable {
            Self::OBJECT_IS_PORTABLE
        } else {
            0u8
        }
    }

    pub fn is_blocking_stackable_portable(&self) -> (flags: (bool, bool, bool))
        ensures
            flags == ((self@.object_attributes & 1u8) != 0, (self@.object_attributes & 2u8) != 0, (
            self@.object_attributes & 4u8) != 0),
    {
        (self.is_blocking(), self.is_stackable(), self.is_portable())
    }

    pub fn is_blocking(&self) -> (blocking: bool)
        ensures
            blocking == ((self@.object_attributes & 1u8) != 0),
    {
        (self.object_attributes & Self::OBJECT_IS_BLOCKING) != 0
    }

    pub fn is_stackable(&self) -> (stackable: bool)
        ensures
            stackable == ((self@.object_attributes & 2u8) != 0),
    {
        (self.object_attributes & Self::OBJECT_IS_STACKABLE) != 0
    }

    pub fn is_portable(&self) -> (portable: bool)
        ensures
            portable == ((self@.object_attributes & 4u8) != 0),
    {
        (self.object_attributes & Self::OBJECT_IS_PORTABLE) != 0
    }

    pub fn get_consumable(&self) -> (bites: u16)
        ensures
            bites == self@.consumable_bites,
    {
        self.consumable_bites
    }

    pub fn get_consumable_left(&self) -> (bites_left: u16)
        ensures
            bites_left == self@.consumable_bites_left,
    {
        self.consumable_bites_left
    }

    pub fn set_consumable_left(&mut self, consumable_bites_left: u16)
        ensures
            final(self)@ == (ObjectModel { consumable_bites_left, ..old(self)@ }),
    {
        self.consumable_bites_left = consumable_bites_left;
    }

    pub fn get_storage_capacity(&self) -> (capacity: u16)
        ensures
            capacity == self@.storage_capacity,
    {
        self.storage_capacity
    }

    pub fn get_storage_capacity_left(&self) -> (capacity_left: u16)
        ensures
            capacity_left == self@.storage_capacity_left,
    {
        self.storage_capacity_left
    }

    pub fn set_storage_capacity_left(&mut self, storage_capacity_left: u16)
        ensures
            final(self)@ == (ObjectModel { storage_capacity_left, ..old(self)@ }),
    {
        self.storage_capacity_left = storage_capacity_left;
    }
}

/// The attributes of an object answer exactly the flags it was made with:
/// `is_blocking`, `is_stackable` and `is_portable` read back the three flags
/// given to `to_object_attributes` (and to `Object::new`).
pub proof fn lemma_object_attributes_read_back(is_blocking: bool, is_stackable: bool, is_portable: bool)
    ensures
        ((spec_object_attributes(is_blocking, is_stackable, is_portable) & 1u8) != 0) == is_blocking,
        ((spec_object_attributes(is_blocking, is_stackable, is_portable) & 2u8) != 0) == is_stackable,
        ((spec_object_attributes(is_blocking, is_stackable, is_portable) & 4u8) != 0) == is_portable,
{
    let a = spec_object_attributes(is_blocking, is_stackable, is_portable);
    assert(a == ((if is_blocking { 1u8 } else { 0u8 }) + (if is_stackable { 2u8 } else { 0u8 }) + (
    if is_portable { 4u8 } else { 0u8 })) as u8);
    assert(((((if is_blocking { 1u8 } else { 0u8 }) + (if is_stackable { 2u8 } else { 0u8 }) + (
    if is_portable { 4u8 } else { 0u8 })) as u8 & 1u8) != 0) == is_blocking
        && ((((if is_blocking { 1u8 } else { 0u8 }) + (if is_stackable { 2u8 } else { 0u8 }) + (
    if is_portable { 4u8 } else { 0u8 })) as u8 & 2u8) != 0) == is_stackable
        && ((((if is_blocking { 1u8 } else { 0u8 }) + (if is_stackable { 2u8 } else { 0u8 }) + (
    if is_portable { 4u8 } else { 0u8 })) as u8 & 4u8) != 0) == is_portable) by (bit_vector);
}

} // verus!
