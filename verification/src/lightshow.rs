//! Lightshow files: the non-interactable beatmap items.
//!
//! See [`Lightshow`] to get started.

use vstd::prelude::*;

verus! {

/// Similar to [`crate::Beatmap`], the lightshow file defines collections and
/// associated metadata for all non-interactable beatmap items, such as
/// environment objects and lighting effects.  Not implemented yet: the type
/// stands as a placeholder for the file's future schema.
#[derive(Debug, Clone, PartialEq, Eq)]
pub struct Lightshow;

} // verus!
