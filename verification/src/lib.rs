//! A verified library for recording and querying structured review records:
//! essays and data-management-plan (DMP) reviews. Records are titles plus an
//! ordered list of named sections, each carrying tags and an optional small
//! integer rating. The record stores expose insert, point lookup, filtered
//! list queries and a single rating-update path, each with a full contract;
//! import and export move whole collections in and out while identities are
//! minted afresh on the way in.

pub mod editor;
pub mod essay;
pub mod laws;
pub mod model;
pub mod store;
pub mod text;
