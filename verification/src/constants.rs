//! Fixed names and limits.

use vstd::prelude::*;

verus! {

/// Ref name of the live working tree.
pub const REF_LIVE: &'static str = "live";

/// Version tag mixed into stable symbol ids.
pub const STABLE_ID_VERSION: &'static str = "stable_id:v1";

/// Largest source file the indexer reads, in bytes.
pub const MAX_FILE_SIZE: u64 = 1048576;

/// Default number of results a query returns.
pub const DEFAULT_LIMIT: usize = 10;

/// Default response budget for query tools, in bytes.
pub const DEFAULT_MAX_RESPONSE_BYTES: usize = 65536;

/// Protocol version reported in every tool response's metadata.
pub const PROTOCOL_VERSION: &'static str = "1.0";

} // verus!
