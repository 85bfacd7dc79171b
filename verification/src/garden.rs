//! A small garden record with a sized plot and a named location.

use vstd::prelude::*;
use vstd::string::StringExecFns;

verus! {

/// A note that planting happened.
pub fn plant_vegetable() -> (r: String)
    ensures
        r@ == "Planting in garden!"@,
{
    String::from_str("Planting in garden!")
}

/// A garden plot; the location is private and read through
/// [`Garden::get_location`].
pub struct Garden {
    pub size: u32,
    location: String,
}

impl Garden {
    /// The garden's size.
    pub closed spec fn size_spec(&self) -> u32 {
        self.size
    }

    /// The garden's location, as a sequence of characters.
    pub closed spec fn location_spec(&self) -> Seq<char> {
        self.location@
    }

    /// Makes a garden of the given size at the given location.
    pub fn new(size: u32, location: String) -> (r: Garden)
        ensures
            r.size_spec() == size,
            r.location_spec() == location@,
    {
        Garden { size, location }
    }

    /// Where the garden is.
    pub fn get_location(&self) -> (r: &str)
        ensures
            r@ == self.location_spec(),
    {
        self.location.as_str()
    }
}

} // verus!
