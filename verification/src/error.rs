//! The error taxonomy of the library. Every failure of a query, selection or
//! rendering operation is reported as one of these variants; the caller
//! decides user-facing messaging and exit behaviour.

use vstd::prelude::*;

verus! {

/// A typed, terminal failure of one requested operation.
///
/// Each payload carries the offending input back to the caller: the raw
/// generation string, the unknown slug, the slug/form pair, the missing
/// language code, or the asset key that had no entry.
#[derive(Debug, PartialEq, Eq)]
pub enum Error {
    /// The configuration could not be obtained or was malformed.
    Configuration(String),
    /// The database payload was malformed.
    DatabaseLoad(String),
    /// No entity with the given slug exists.
    InvalidPokemon(String),
    /// The requested form (second payload, as its token) is not available
    /// for the entity with the given slug (first payload).
    InvalidPokemonForm(String, String),
    /// The configured language has no entry in the entity's name map.
    InvalidLanguage(String),
    /// The generation string could not be parsed into a non-empty set of
    /// generations in [1, 9].
    InvalidGeneration(String),
    /// The asset store has no entry under the computed key.
    AssetNotFound(String),
}

} // verus!
