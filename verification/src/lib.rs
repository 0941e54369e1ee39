//! A caching forward HTTP proxy, as a library of verified decisions.
//!
//! The proxy forwards `GET` and `POST`, refuses `CONNECT`, enforces a blacklist
//! of URL prefixes, keeps origin responses in a disk cache that it revalidates
//! with conditional requests, and follows redirects up to a fixed bound. This
//! library holds every rule of that: it is handed plain values and hands plain
//! values back, and opens no socket and no file itself.
//!
//! - [`handler`]: what becomes of one client request, step by step.
//! - [`blacklist`]: the banned URL prefixes.
//! - [`cache`]: the cache store's metadata and the naming of its blobs.
//! - [`origin`]: the request that goes to an origin, and where it goes.
//! - [`report`]: the error page and the session log.
//! - [`message`]: requests, responses and header fields.
//! - [`files`]: the messages of the plain file server and its client.
//! - [`text`]: character-level helpers.

pub mod blacklist;
pub mod cache;
pub mod files;
pub mod handler;
pub mod message;
pub mod origin;
pub mod report;
pub mod text;
