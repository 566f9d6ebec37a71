//! Row types of the location tables, and the key an image is stored
//! under in the blob store.

use vstd::prelude::*;

use crate::value_store::ValueStore;

verus! {

/// One physical storage place: a named location with an optional rack
/// and bin.
#[derive(Debug)]
pub struct StoredLocation {
    pub id: i64,
    pub location: String,
    pub rack: Option<String>,
    pub bin: Option<String>,
}

impl StoredLocation {
    /// The row's identifier.
    pub fn id(&self) -> (r: i64)
        ensures
            r == self.id,
    {
        self.id
    }

    /// The location's name.
    pub fn location(&self) -> (r: &str)
        ensures
            r@ == self.location@,
    {
        self.location.as_str()
    }

    /// The rack, if any.
    pub fn rack(&self) -> (r: &Option<String>)
        ensures
            r == &self.rack,
    {
        &self.rack
    }

    /// The bin, if any.
    pub fn bin(&self) -> (r: &Option<String>)
        ensures
            r == &self.bin,
    {
        &self.bin
    }
}

/// A named location group with its optional metadata store.
#[derive(Debug)]
pub struct LocationMetadata {
    pub id: i64,
    pub name: String,
    pub metadata: Option<ValueStore>,
}

impl LocationMetadata {
    /// The group's identifier.
    pub fn id(&self) -> (r: i64)
        ensures
            r == self.id,
    {
        self.id
    }

    /// The group's name.
    pub fn name(&self) -> (r: &str)
        ensures
            r@ == self.name@,
    {
        self.name.as_str()
    }

    /// The group's metadata store, if any.
    pub fn metadata(&self) -> (r: &Option<ValueStore>)
        ensures
            r == &self.metadata,
    {
        &self.metadata
    }
}

/// The key an item's image is stored under in the blob store.
#[derive(Debug)]
pub struct ImageKey(pub String);

impl ImageKey {
    /// The key's text.
    pub fn key(&self) -> (r: &str)
        ensures
            r@ == self.0@,
    {
        self.0.as_str()
    }
}

} // verus!
