//! Limits and intervals of the service.
use vstd::prelude::*;

verus! {

/// Maximum upload body size (512 MB).
pub const MAX_UPLOAD_BODY_SIZE: usize = 512 * 1024 * 1024;

/// Telegram chunk size for large file uploads (19.5 MB, under Telegram's
/// limit of 20 MB).
pub const TELEGRAM_CHUNK_SIZE: usize = 39 * 512 * 1024;

/// Filename marker for internal Telegram chunk messages. Bot-side sync
/// ignores files with this marker, so the final small chunk of a large upload
/// is not imported as a standalone user file.
pub const TELEGRAM_CHUNK_FILENAME_MARKER: &'static str = ".tgstate-part";

/// HTTP client timeout for file upload/download operations (seconds).
pub const HTTP_TIMEOUT_TRANSFER_SECS: u64 = 300;

/// HTTP client timeout for metadata/API operations (seconds).
pub const HTTP_TIMEOUT_METADATA_SECS: u64 = 30;

/// Rate limit: login attempts per window.
pub const RATE_LIMIT_LOGIN_MAX: u32 = 5;

/// Rate limit: upload requests per window.
pub const RATE_LIMIT_UPLOAD_MAX: u32 = 10;

/// Rate limit: general API requests per window.
pub const RATE_LIMIT_API_MAX: u32 = 120;

/// Rate limit: public download and share requests per window. Browsers issue
/// many of these per page load, so it is higher than the API limit.
pub const RATE_LIMIT_DOWNLOAD_MAX: u32 = 300;

/// Rate limit: window duration in seconds.
pub const RATE_LIMIT_WINDOW_SECS: u64 = 60;

/// Rate limiter cleanup interval in seconds.
pub const RATE_LIMIT_CLEANUP_INTERVAL_SECS: u64 = 120;

/// Maximum entries per rate limiter bucket before forced eviction.
pub const RATE_LIMIT_MAX_ENTRIES: usize = 10_000;

/// SSE keepalive interval in seconds.
pub const SSE_KEEPALIVE_SECS: u64 = 15;

/// Session max-age in seconds (7 days). With the sliding refresh on every
/// authenticated request, a user who visits at least once a week stays logged
/// in; otherwise the session expires. `SESSION_MAX_AGE_SECS` in the
/// environment overrides it.
pub const SESSION_MAX_AGE_SECS: u32 = 7 * 24 * 60 * 60;

/// Short ID length for file identifiers: ten characters out of 62.
pub const SHORT_ID_LENGTH: usize = 10;

/// Broadcast event bus capacity.
pub const EVENT_BUS_CAPACITY: usize = 200;

/// Bot polling long-poll timeout in seconds.
pub const BOT_POLL_TIMEOUT_SECS: u64 = 30;

/// Maximum number of file IDs accepted in a single batch-delete request.
pub const BATCH_DELETE_MAX: usize = 100;

/// A chunk is half a megabyte below the limit of Telegram for files that a bot
/// can fetch, a body may hold many chunks, and a session lasts a week.
pub proof fn limits_of_the_service()
    ensures
        TELEGRAM_CHUNK_SIZE + 512 * 1024 == 20 * 1024 * 1024,
        MAX_UPLOAD_BODY_SIZE == 512 * 1024 * 1024,
        HTTP_TIMEOUT_TRANSFER_SECS == 5 * 60,
        HTTP_TIMEOUT_METADATA_SECS == 30,
        SESSION_MAX_AGE_SECS == 604_800,
        SHORT_ID_LENGTH == 10,
        SSE_KEEPALIVE_SECS == 15,
        EVENT_BUS_CAPACITY == 200,
        BOT_POLL_TIMEOUT_SECS == 30,
        BATCH_DELETE_MAX == 100,
{
}

} // verus!
