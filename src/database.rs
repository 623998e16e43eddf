//! The object and path databases: concurrent maps from qualified names to definitions.
use crate::types::{ObjectDefinition, PathDefinition};
use dashmap::DashMap;
use vstd::prelude::*;

verus! {

#[verifier::external_type_specification]
#[verifier::external_body]
#[verifier::reject_recursive_types(K)]
#[verifier::reject_recursive_types(V)]
#[verifier::reject_recursive_types(S)]
pub struct ExDashMap<K, V, S>(DashMap<K, V, S>);

/// Registered objects by fully-qualified name.
pub type ObjectDatabase = DashMap<String, ObjectDefinition>;

/// Modeled operations by name.
pub type PathDatabase = DashMap<String, PathDefinition>;

/// The entries of an object database.
pub uninterp spec fn object_entries(db: ObjectDatabase) -> Map<Seq<char>, ObjectDefinition>;

/// The entries of a path database.
pub uninterp spec fn path_entries(db: PathDatabase) -> Map<Seq<char>, PathDefinition>;

/// Relies on dashmap's `DashMap::new`: a map with no entries.
#[verifier::external_body]
pub fn new_object_database() -> (r: ObjectDatabase)
    ensures
        object_entries(r).dom() == Set::<Seq<char>>::empty(),
{
    DashMap::new()
}

/// Relies on dashmap's `DashMap::new`: a map with no entries.
#[verifier::external_body]
pub fn new_path_database() -> (r: PathDatabase)
    ensures
        path_entries(r).dom() == Set::<Seq<char>>::empty(),
{
    DashMap::new()
}

/// Relies on dashmap's `DashMap::contains_key`: whether an entry has the key.
#[verifier::external_body]
pub fn contains_object(db: &ObjectDatabase, key: &String) -> (r: bool)
    ensures
        r == object_entries(*db).contains_key(key@),
{
    db.contains_key(key)
}

/// Relies on dashmap's `DashMap::get`: the value stored under the key, cloned.
#[verifier::external_body]
pub fn get_object(db: &ObjectDatabase, key: &String) -> (r: Option<ObjectDefinition>)
    ensures
        r == (if object_entries(*db).contains_key(key@) {
            Some(object_entries(*db)[key@])
        } else {
            None
        }),
{
    db.get(key).map(|entry| entry.value().clone())
}

/// Relies on dashmap's `DashMap::insert`: the key maps to the value afterwards, and no other
/// entry changes.
#[verifier::external_body]
pub fn insert_object(db: &mut ObjectDatabase, key: String, value: ObjectDefinition)
    ensures
        object_entries(*final(db)) == object_entries(*old(db)).insert(key@, value),
{
    db.insert(key, value);
}

/// Relies on dashmap's `DashMap::remove`: the key has no entry afterwards, and no other entry
/// changes.
#[verifier::external_body]
pub fn remove_object(db: &mut ObjectDatabase, key: &String)
    ensures
        object_entries(*final(db)) == object_entries(*old(db)).remove(key@),
{
    db.remove(key);
}

/// Relies on dashmap's `DashMap::insert`: the key maps to the value afterwards, and no other
/// entry changes.
#[verifier::external_body]
pub fn insert_path(db: &mut PathDatabase, key: String, value: PathDefinition)
    ensures
        path_entries(*final(db)) == path_entries(*old(db)).insert(key@, value),
{
    db.insert(key, value);
}

} // verus!
