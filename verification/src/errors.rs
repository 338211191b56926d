//! Error taxonomy: validation failures are detected fully before any planning
//! or remote work; executor-level failures carry the node they concern.

use vstd::prelude::*;

verus! {

/// Everything that can go wrong while building, validating or compiling a
/// graph, or while interpreting a plan. Each variant carries the node or raw
/// text it concerns, so a caller can report it without further context.
#[derive(Debug, Clone, PartialEq, Eq)]
pub enum Error {
    /// An edge endpoint names a node that no statement declares.
    UngraphedNode { name: String },
    /// The same node identifier is declared twice.
    DuplicateNode { name: String },
    /// A declaration uses the name reserved for the synthetic root node.
    ReservedNodeName { name: String },
    /// A base node is neither a query node nor carries a playlist reference.
    MissingPlaylistReference { node: String },
    /// A node's playlist reference does not parse as an absolute URL.
    InvalidReference { node: String, raw: String },
    /// A query node lacks the mandatory artist identifier attribute.
    MissingArtistId { node: String },
    /// A boolean query attribute holds text other than `true`/`false`.
    BadBoolAttribute { node: String, key: String, raw: String },
    /// A query node's `source` attribute names no known source.
    InvalidSource { node: String, raw: String },
    /// The edges loop, so no dependency-respecting order exists.
    GraphCycle,
    /// A playlist reference holds an id with characters the service refuses.
    InvalidPlaylistId { node: String, raw: String },
    /// A query's artist id holds characters the service refuses.
    InvalidArtistId { raw: String },
    /// A snapshot listing held no file with the wanted suffix.
    NoSnapshotFile { suffix: String },
    /// A snapshot listing held several candidate files where one was expected.
    AmbiguousSnapshotFile { suffix: String },
    /// A configuration setting holds text its key cannot take.
    InvalidSetting { key: String, raw: String },
    /// A failure reported by the caller's remote service, with context.
    Remote { context: String },
}

} // verus!
