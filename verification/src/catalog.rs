//! A list of media entries, looked up by position.

use vstd::prelude::*;
use crate::media::Media;

verus! {

/// The entries of a catalog, in the order they were added.
#[derive(Debug)]
pub struct Catalog {
    pub items: Vec<Media>,
}

impl View for Catalog {
    type V = Seq<Media>;

    open spec fn view(&self) -> Seq<Media> {
        self.items@
    }
}

impl Catalog {
    /// A catalog with no entries.
    pub fn new() -> (catalog: Self)
        ensures
            catalog@ == Seq::<Media>::empty(),
    {
        Catalog { items: Vec::new() }
    }

    /// Adds `media` after the entries already listed.
    pub fn add_media(&mut self, media: Media)
        ensures
            final(self)@ == old(self)@.push(media),
    {
        self.items.push(media);
    }

    /// The entry at `index`, which must be the position of an entry.
    pub fn get_by_index(&self, index: usize) -> (media: &Media)
        requires
            index < self@.len(),
        ensures
            *media == self@[index as int],
    {
        &self.items[index]
    }

    /// The entry at `index`, or `None` where the catalog has no such
    /// position.
    pub fn get_by_index_custom_option_enum(&self, index: usize) -> (found: Option<&Media>)
        ensures
            index < self@.len() ==> found == Some(&self@[index as int]),
            index >= self@.len() ==> found is None,
    {
        if index < self.items.len() {
            Some(&self.items[index])
        } else {
            None
        }
    }
}

/// The entry of `vector` at `index`, which must be the position of an entry.
pub fn get_by_index_version1(vector: &Vec<Media>, index: usize) -> (media: &Media)
    requires
        index < vector@.len(),
    ensures
        *media == vector@[index as int],
{
    &vector[index]
}

} // verus!
