//! The hash collections a design system keeps its names in. Each holds an `FxHashMap` or
//! `FxHashSet` keyed by `CompactString`; its contents are named as a set or map over the
//! characters of the keys, and each method states what it does to them.

use vstd::prelude::*;
use compact_str::CompactString;
use rustc_hash::{FxHashMap, FxHashSet};
use crate::variants::VariantRegistration;

verus! {

/// A set of names (`FxHashSet<CompactString>`).
#[verifier::external_body]
pub struct NameSet {
    set: FxHashSet<CompactString>,
}

/// The names a `NameSet` holds.
pub uninterp spec fn name_set_contents(s: NameSet) -> Set<Seq<char>>;

impl NameSet {
    /// An empty set (`FxHashSet::default`).
    #[verifier::external_body]
    pub fn new() -> (r: NameSet)
        ensures
            name_set_contents(r) == Set::<Seq<char>>::empty(),
    {
        NameSet { set: FxHashSet::default() }
    }

    /// `HashSet::insert` of the name.
    #[verifier::external_body]
    pub fn insert(&mut self, name: &str)
        ensures
            name_set_contents(*final(self)) == name_set_contents(*old(self)).insert(name@),
    {
        self.set.insert(CompactString::new(name));
    }

    /// `HashSet::remove` of the name.
    #[verifier::external_body]
    pub fn remove(&mut self, name: &str)
        ensures
            name_set_contents(*final(self)) == name_set_contents(*old(self)).remove(name@),
    {
        self.set.remove(name);
    }

    /// `HashSet::contains` of the name.
    #[verifier::external_body]
    pub fn contains(&self, name: &str) -> (r: bool)
        ensures
            r == name_set_contents(*self).contains(name@),
    {
        self.set.contains(name)
    }
}

/// A map from names to text (`FxHashMap<CompactString, CompactString>`), such as a theme.
#[verifier::external_body]
pub struct TextMap {
    map: FxHashMap<CompactString, CompactString>,
}

/// The entries a `TextMap` holds.
pub uninterp spec fn text_map_contents(m: TextMap) -> Map<Seq<char>, Seq<char>>;

impl TextMap {
    /// An empty map (`FxHashMap::default`).
    #[verifier::external_body]
    pub fn new() -> (r: TextMap)
        ensures
            text_map_contents(r).dom() == Set::<Seq<char>>::empty(),
    {
        TextMap { map: FxHashMap::default() }
    }

    /// `HashMap::insert`: the entry for `name` becomes `value`.
    #[verifier::external_body]
    pub fn insert(&mut self, name: &str, value: &str)
        ensures
            text_map_contents(*final(self)) == text_map_contents(*old(self)).insert(name@, value@),
    {
        self.map.insert(CompactString::new(name), CompactString::new(value));
    }

    /// `HashMap::remove` of the entry for `name`.
    #[verifier::external_body]
    pub fn remove(&mut self, name: &str)
        ensures
            text_map_contents(*final(self)) == text_map_contents(*old(self)).remove(name@),
    {
        self.map.remove(name);
    }

    /// `HashMap::clear`.
    #[verifier::external_body]
    pub fn clear(&mut self)
        ensures
            text_map_contents(*final(self)).dom() == Set::<Seq<char>>::empty(),
    {
        self.map.clear();
    }

    /// `HashMap::get`: the value for `name`, if there is an entry for it.
    #[verifier::external_body]
    pub fn get(&self, name: &str) -> (r: Option<&str>)
        ensures
            r is Some <==> text_map_contents(*self).contains_key(name@),
            r matches Some(v) ==> v@ == text_map_contents(*self)[name@],
    {
        self.map.get(name).map(CompactString::as_str)
    }

    /// `HashMap::contains_key`.
    #[verifier::external_body]
    pub fn contains_key(&self, name: &str) -> (r: bool)
        ensures
            r == text_map_contents(*self).contains_key(name@),
    {
        self.map.contains_key(name)
    }

    /// The entries, in the map's iteration order, which the contract leaves open: each entry
    /// is listed once.
    #[verifier::external_body]
    pub fn entries(&self) -> (r: Vec<(String, String)>)
        ensures
            forall|k: int| 0 <= k < r@.len() ==> text_map_contents(*self).contains_key((#[trigger] r@[k]).0@)
                && text_map_contents(*self)[r@[k].0@] == r@[k].1@,
            forall|name: Seq<char>| text_map_contents(*self).contains_key(name) ==> exists|k: int| 0 <= k < r@.len() && (#[trigger] r@[k]).0@ == name,
            forall|k: int, m: int| 0 <= k < m < r@.len() ==> (#[trigger] r@[k]).0@ != (#[trigger] r@[m]).0@,
    {
        self.map.iter().map(|(name, value)| (name.to_string(), value.to_string())).collect()
    }
}

/// A map from variant roots to their registrations (`FxHashMap<CompactString, VariantRegistration>`).
#[verifier::external_body]
pub struct VariantMap {
    map: FxHashMap<CompactString, VariantRegistration>,
}

/// The registrations a `VariantMap` holds.
pub uninterp spec fn variant_map_contents(m: VariantMap) -> Map<Seq<char>, VariantRegistration>;

impl VariantMap {
    /// An empty map (`FxHashMap::default`).
    #[verifier::external_body]
    pub fn new() -> (r: VariantMap)
        ensures
            variant_map_contents(r).dom() == Set::<Seq<char>>::empty(),
    {
        VariantMap { map: FxHashMap::default() }
    }

    /// `HashMap::insert`: the registration of `root` becomes `registration`.
    #[verifier::external_body]
    pub fn insert(&mut self, root: &str, registration: VariantRegistration)
        ensures
            variant_map_contents(*final(self)) == variant_map_contents(*old(self)).insert(root@, registration),
    {
        self.map.insert(CompactString::new(root), registration);
    }

    /// `HashMap::get`, copied out.
    #[verifier::external_body]
    pub fn get(&self, root: &str) -> (r: Option<VariantRegistration>)
        ensures
            r is Some <==> variant_map_contents(*self).contains_key(root@),
            r matches Some(v) ==> v == variant_map_contents(*self)[root@],
    {
        self.map.get(root).copied()
    }

    /// The registrations, in the map's iteration order, which the contract leaves open: one per
    /// root.
    #[verifier::external_body]
    pub fn registrations(&self) -> (r: Vec<VariantRegistration>)
        ensures
            forall|k: int| 0 <= k < r@.len() ==> exists|root: Seq<char>| variant_map_contents(*self).contains_key(root)
                && variant_map_contents(*self)[root] == #[trigger] r@[k],
            forall|root: Seq<char>| variant_map_contents(*self).contains_key(root) ==> exists|k: int| 0 <= k < r@.len() && #[trigger] r@[k] == variant_map_contents(*self)[root],
    {
        self.map.values().copied().collect()
    }
}

/// A map from utility roots to the CSS properties they set
/// (`FxHashMap<CompactString, Vec<CompactString>>`).
#[verifier::external_body]
pub struct PropertyMap {
    map: FxHashMap<CompactString, Vec<CompactString>>,
}

/// The entries a `PropertyMap` holds.
pub uninterp spec fn property_map_contents(m: PropertyMap) -> Map<Seq<char>, Seq<Seq<char>>>;

impl PropertyMap {
    /// An empty map (`FxHashMap::default`).
    #[verifier::external_body]
    pub fn new() -> (r: PropertyMap)
        ensures
            property_map_contents(r).dom() == Set::<Seq<char>>::empty(),
    {
        PropertyMap { map: FxHashMap::default() }
    }

    /// `HashMap::insert`: the properties of `root` become `properties`.
    #[verifier::external_body]
    pub fn insert(&mut self, root: &str, properties: &Vec<String>)
        ensures
            property_map_contents(*final(self)) == property_map_contents(*old(self)).insert(root@, properties@.map_values(|p: String| p@)),
    {
        self.map.insert(CompactString::new(root), properties.iter().map(CompactString::new).collect());
    }

    /// `HashMap::get`, with the properties copied out.
    #[verifier::external_body]
    pub fn get(&self, root: &str) -> (r: Option<Vec<String>>)
        ensures
            r is Some <==> property_map_contents(*self).contains_key(root@),
            r matches Some(v) ==> v@.map_values(|p: String| p@) == property_map_contents(*self)[root@],
    {
        self.map.get(root).map(|properties| properties.iter().map(|p| p.to_string()).collect())
    }
}

} // verus!
