//! Orchestration core of an embeddable web view: view lifecycle, render
//! scheduling, bounded page and stylesheet retrieval, and the image pipeline.
//!
//! The library decides and never acts. The host owns the rendering backend
//! and the network; it reports what happened and carries out what the
//! library answers. Everything decided here is proved against a
//! mathematical model: the `*_model` modules hold the models and the laws
//! that hold of them, the other modules the executable code.

pub mod cache;
pub mod escape;
pub mod fetch;
pub mod fetch_model;
pub mod keys;
pub mod limits;
pub mod page;
pub mod paths;
pub mod pixels;
pub mod registry;
pub mod registry_model;
pub mod scan;
pub mod text;
pub mod view_model;
pub mod weburl;

pub use cache::StylesheetCache;
pub use escape::html_escape;
pub use fetch::{FetchEvent, FetchStep, Page, PageFetch};
pub use limits::FetchError;
pub use page::{PageType, ViewId, ViewSize};
pub use pixels::{unpremultiply_rgba, ImageInfo, PixelFormat, WebViewPrimitive};
pub use registry::{AnchorOutcome, ImageDelivery, ImageRequest, PendingImageRef, Registry};
pub use registry_model::RegistryError;
pub use scan::{extract_attr, extract_url_value};
pub use weburl::{is_same_page, resolve_url, PageUrl};
