//! Shape-algebra query and editing engine.
//!
//! The crate maintains a typed multigraph of "shapes" (structural type
//! descriptions: primitives, objects with fields, lists, nullable, optional
//! and one-of combinators) and answers semantic queries over it: resolving a
//! path (a "trail") through a shape tree to the primitive alternatives at that
//! position, discovering field identity, and planning the command sequence
//! that edits a field's shape in place.
//!
//! The graph is a projection of an event stream: [`projection::ShapeProjection`]
//! holds the node arena and the edge list, [`events::ShapeEvent`] grows it,
//! and [`queries::ShapeQueries`] answers the read-only questions. The planner
//! in [`planner`] emits [`commands::ShapeCommand`] streams for an external
//! validator; the engine never applies its own commands.

pub mod commands;
pub mod events;
pub mod fields;
pub mod idgen;
pub mod ids;
pub mod kinds;
pub mod laws;
pub mod planner;
pub mod projection;
pub mod queries;
pub mod reconstruct;
pub mod trail;

pub use commands::ShapeCommand;
pub use events::ShapeEvent;
pub use idgen::{IdGenerator, SequentialIdGenerator};
pub use ids::{FieldId, ShapeId, ShapeParameterId};
pub use kinds::ShapeKind;
pub use projection::ShapeProjection;
pub use queries::{ChoiceOutput, ResolvedTrail, ShapeQueries};
pub use reconstruct::ShapeTrailResolutionError;
pub use trail::{ShapeTrail, ShapeTrailPathComponent};
