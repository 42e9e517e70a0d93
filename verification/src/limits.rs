//! The limits that a bounded read session keeps.

use vstd::prelude::*;

verus! {

/// How many provider requests a session admits.
pub const MAX_PROVIDER_REQUESTS: u8 = 4;

/// How many bytes one provider request may have.
pub const MAX_PROVIDER_REQUEST_BYTES: usize = 32_000;

/// How many bytes all provider requests of a session may have.
pub const MAX_PROVIDER_REQUEST_BYTES_TOTAL: usize = 128_000;

/// How many bytes one tool result may have.
pub const MAX_TOOL_RESULT_BYTES: usize = 2_048;

/// How many bytes all tool results of a session may have.
pub const MAX_TOOL_RESULT_BYTES_TOTAL: usize = 8_192;

/// How many tool results a session admits.
pub const MAX_PAGES: u8 = 4;

/// The part of the context window that is kept for the answer.
pub const MAX_OUTPUT_TOKENS: u64 = 4_000;

/// The part of the context window that is kept for the provider's framing.
pub const PROVIDER_FRAMING_RESERVE: u64 = 4_096;

/// How long a session lasts, in nanoseconds: fifteen minutes.
pub const DEADLINE_NANOS: u128 = 15 * 60 * 1_000_000_000;

/// How many bytes a manifest may have.
pub const MAX_MANIFEST_BYTES: u64 = 64 * 1024;

/// How many bytes one artifact may have.
pub const MAX_ARTIFACT_BYTES: u64 = 8 * 1024 * 1024;

/// How many artifacts a manifest may declare.
pub const MAX_ARTIFACTS: usize = 64;

/// How many bytes all artifacts of a manifest may have.
pub const MAX_ARTIFACT_BYTES_TOTAL: u64 = 32 * 1024 * 1024;

/// How many bytes of an artifact one page holds.
pub const MAX_PAGE_CONTENT_BYTES: usize = 1_024;

/// How many bytes an artifact id may have.
pub const MAX_ARTIFACT_ID_BYTES: usize = 128;

/// How many bytes a text taken from the environment may have.
pub const MAX_ENVIRONMENT_TEXT_BYTES: usize = 256;

/// How many characters a SHA-256 digest has in hexadecimal.
pub const DIGEST_CHARS: usize = 64;

} // verus!
