//! Interactions: how time and entities relate.

use std::sync::Arc;
use vstd::prelude::*;

verus! {

/// The time during which an interaction takes place.
pub trait Duration: PartialEq + PartialOrd {}

/// Whatever takes part in an interaction.
pub trait Entity: PartialEq {}

/// An Interaction is the relation between time and one or more entities.
pub struct Interaction<D, E> {
    pub duration: Arc<D>,
    pub entities: Vec<Arc<E>>,
}

/// InteractionEffect represents all the possible ways an [Interaction] may
/// affect.
pub enum InteractionEffect<E> {
    /// The entity becomes a different one (any of its attributes has changed).
    Change(Arc<E>),
    /// The entity becomes two or more new entities.
    Split(Vec<Arc<E>>),
    /// The entity no longer exists.
    Terminal,
    /// The entity begins to exists.
    Initial,
}

/// An InteractionResult is the way an [Entity] has been affected by an
/// [Interaction].
pub struct InteractionResult<D, E> {
    /// The Entity involved in the causing interaction.
    pub entity: Arc<E>,
    /// The Interaction causing the Effect.
    pub cause: Arc<Interaction<D, E>>,
    /// The effect of the mutation itself.
    pub effect: InteractionEffect<E>,
}

} // verus!
