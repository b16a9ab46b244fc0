//! Bridge from a hierarchical tracing model (spans with attributes, events)
//! onto a flat native activity and logging facility.
//!
//! The library keeps the bridge's state and makes every decision; the
//! host makes the native calls it asks for.
mod attributes;
mod bridge;
mod interner;
mod level;
mod render;

pub use attributes::AttributeMap;
pub use bridge::{ActivityNode, BridgeError, OsLogger, ParentActivity, SpanPlan};
pub use interner::{signature, Interned, NameId, NameInterner};
pub use level::{native_level, Level, NativeLevel};
pub use render::{contains_nul, is_meta_key, push_event, push_segment};
