//! Markers telling apart the two kinds of handler a server accepts.

use vstd::prelude::*;

verus! {

/// Marks handlers that return their response directly.
pub struct SyncMarker;

/// Marks handlers that return a future of their response.
pub struct AsyncMarker;

} // verus!
