//! The letters a Wikibase instance uses for its entity IDs.

use vstd::prelude::*;

verus! {

/// The item and property letters of one Wikibase instance.
#[derive(Debug, Clone, Copy, PartialEq, Eq, Structural)]
pub struct Config {
    pub item_letter: char,
    pub property_letter: char,
}

impl Config {
    /// Constructs a configuration from item and property letters.
    pub fn new(item_letter: char, property_letter: char) -> (r: Config)
        ensures
            r.item_letter == item_letter,
            r.property_letter == property_letter,
    {
        Config { item_letter, property_letter }
    }

    /// Returns the letter used for items.
    pub fn item_letter(&self) -> (r: char)
        ensures
            r == self.item_letter,
    {
        self.item_letter
    }

    /// Returns the letter used for properties.
    pub fn property_letter(&self) -> (r: char)
        ensures
            r == self.property_letter,
    {
        self.property_letter
    }

    /// The configuration of Wikidata: `Q` items and `P` properties.
    pub fn wikidata() -> (r: Config)
        ensures
            r.item_letter == 'Q',
            r.property_letter == 'P',
    {
        Config { item_letter: 'Q', property_letter: 'P' }
    }
}

} // verus!
