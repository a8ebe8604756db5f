//! Reserved standard metric names.

use vstd::prelude::*;

verus! {

/// `tokens.used`
pub const TOKENS_USED: &'static str = "tokens.used";

/// `cost.usd`
pub const COST_USD: &'static str = "cost.usd";

/// `gpu.seconds`
pub const GPU_SECONDS: &'static str = "gpu.seconds";

/// `tool.invocations`
pub const TOOL_INVOCATIONS: &'static str = "tool.invocations";

/// `latency.ms`
pub const LATENCY_MS: &'static str = "latency.ms";

/// `bytes.in`
pub const BYTES_IN: &'static str = "bytes.in";

/// `bytes.out`
pub const BYTES_OUT: &'static str = "bytes.out";

/// `errors.total`
pub const ERRORS_TOTAL: &'static str = "errors.total";

} // verus!
