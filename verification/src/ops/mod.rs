//! What the client does: requests, paging, and the listing it walks.

pub mod context;
pub mod entry;
pub mod notice;
pub mod paging;
pub mod request;
pub mod term;

pub use self::context::ListContext;
pub use self::entry::{FilesetData, RawFileData, RemoteFile};
pub use self::notice::Notice;
pub use self::paging::paging_copy;
pub use self::request::{delete, download, download_raw, upload, RawFsApiHeader};
