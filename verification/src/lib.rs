//! Searching an image index and fetching what it lists.
//!
//! The library holds the rules of the search: how a query and its filters
//! become a request, how image records are read out of the page that answers
//! it, how fetched bytes are told to be an image, how free file names are
//! handed out, and how download slots share one pool of candidate addresses.
//! Every function states what it returns in its contract.

pub mod arguments;
pub mod download;
pub mod error;
pub mod filters;
pub mod fleet;
pub mod image;
pub mod json;
pub mod paths;
pub mod pool;
pub mod scan;
pub mod search;
pub mod sniff;
pub mod text;
pub mod unpack;

pub use arguments::{build_url, Arguments};
pub use download::{resolved_paths, Action, Event, Phase, Slot};
pub use error::{DownloadError, Error};
pub use filters::{Color, ColorType, Format, ImageType, License, Ratio, Time};
pub use image::{image_urls, limit_results, Image};
pub use json::Json;
pub use paths::{allocate_stems, stem_name, stem_pattern, taken_from, StemAllocator};
pub use pool::CandidatePool;
pub use search::{download_candidates, search_results, url_results};
pub use sniff::{choose_extension, looks_like_svg, sniff, Detected, MatcherType};
pub use unpack::{extract_images, unpack};
