//! An entity-component-system runtime whose storage, borrow arbitration,
//! queries, event queues, timers and frame lifecycle are verified.
//!
//! Component values of one scene share a single value type `V` (typically an
//! application enum with one variant per component kind) and are keyed by a
//! [`TypeKey`], a stable identity token chosen for each component kind.
use vstd::prelude::*;

pub mod archetype;
pub mod asset;
pub mod asset_loader_errors;
pub mod cell;
pub mod countdown;
pub mod entity;
pub mod errors;
pub mod event;
pub mod input;
pub mod lifecycle;
pub mod pipeline_executor;
pub mod query;
pub mod scene;
pub mod time;

verus! {

/// Identifier of an entity, unique within one archetype.
pub type EntityId = u32;

/// Identity token of a component (or event) kind.
pub type TypeKey = u64;

} // verus!
