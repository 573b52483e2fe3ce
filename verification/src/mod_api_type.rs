//! The manifest ("mod API") model: which entity types exist, which
//! on-functions each declares, and which game functions the host exposes.
//!
//! Declaration order is significant everywhere in this module: the position of
//! an on-function among its entity's declarations is the ordinal by which the
//! compiled slot is addressed at dispatch time, so every collection here is a
//! vector of name/payload pairs rather than a map that might reorder its keys.

use vstd::prelude::*;

verus! {

/// One declared argument of a game function: its name and its type tag
/// (one of `string`, `i32`, `f32`, `bool`, or a custom entity name).
pub struct Argument {
    pub name: String,
    pub type_: String,
}

/// A game function the host exposes to scripts: a description and the
/// declared arguments in positional order.
pub struct GameFunction {
    pub description: String,
    pub arguments: Vec<Argument>,
}

/// One on-function slot an entity type declares.
pub struct OnFunction {
    pub description: String,
}

/// An entity type: a description and its on-functions in declared order.
/// An on-function's position in `on_functions` is its dispatch ordinal.
pub struct Entity {
    pub description: String,
    pub on_functions: Vec<(String, OnFunction)>,
}

/// The whole manifest: entities and game functions, each in declared order.
pub struct ModAPI {
    pub entities: Vec<(String, Entity)>,
    pub game_functions: Vec<(String, GameFunction)>,
}

impl Entity {
    /// The declared on-function names, in ordinal order.
    pub open spec fn on_function_names(&self) -> Seq<Seq<char>> {
        self.on_functions@.map_values(|p: (String, OnFunction)| p.0@)
    }
}

impl ModAPI {
    /// The declared index: each entity's name paired with its on-function
    /// names in ordinal order.
    pub open spec fn declared_index(&self) -> Seq<(Seq<char>, Seq<Seq<char>>)> {
        self.entities@.map_values(|p: (String, Entity)| (p.0@, p.1.on_function_names()))
    }

    /// A well-formed manifest names each entity once and, within one entity,
    /// each on-function once. A manifest parsed from a JSON object satisfies
    /// this, since JSON object keys are unique.
    pub open spec fn wf(&self) -> bool {
        &&& (forall|i: int, j: int|
            0 <= i < self.entities@.len() && 0 <= j < self.entities@.len() && i != j
                ==> self.entities@[i].0@ != self.entities@[j].0@)
        &&& (forall|i: int, j: int, k: int|
            0 <= i < self.entities@.len()
                && 0 <= j < self.entities@[i].1.on_functions@.len()
                && 0 <= k < self.entities@[i].1.on_functions@.len() && j != k
                ==> self.entities@[i].1.on_functions@[j].0@ != self.entities@[i].1.on_functions@[k].0@)
    }
}

} // verus!
