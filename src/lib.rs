//! Scans a forum thread for video links, keeps one entry per video, and
//! resolves tip addresses advertised on the authors' profiles.

pub mod aggregate;
pub mod denylist;
pub mod resolver;
pub mod text;
pub mod tip;
pub mod video_id;

pub use aggregate::{
    post_video_ids, process_posts, source_post_url, topic_json_url, trim_trailing_slashes, Post,
    PostStream, Topic, VideoEntry, VideoMap,
};
pub use denylist::{default_denylist, Denylist};
pub use resolver::{
    retry_delay, should_retry_status, Action, Event, Resolver, Source, Stage,
    PROFILE_CONCURRENCY, RETRY_ATTEMPTS,
};
pub use tip::{
    cache_entry_fresh, cache_entry_for, cache_path, extract_unified_address, find_address_in_json,
    tip_from_decoded, validate_unified_address, AddressNetwork, CachedTipEntry, DecodedAddress,
    JsonValue, ReceiverKind, TipInfo, CACHE_TTL_SECS,
};
pub use video_id::{extract_video_id, is_valid_youtube_id, parses_as_url, video_id_from_parts};
