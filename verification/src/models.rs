//! Shared data-model types the authentication layer hands around.

use vstd::prelude::*;

verus! {

/// Food categories of an animal-based diet.
#[derive(Debug, Clone, Copy, PartialEq, Eq, Structural)]
pub enum FoodCategory {
    Meat,
    Organ,
    Fish,
    Eggs,
    Dairy,
    Fruit,
    Honey,
    Other,
}

} // verus!
