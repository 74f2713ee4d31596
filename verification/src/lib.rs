//! Validation and planning logic of a native share plugin: payload limits,
//! web-URL checks, Base64 size estimates, and the platform share plans.

pub mod base64_len;
pub mod error;
pub mod laws;
pub mod models;
pub mod platform;
pub mod request_laws;
pub mod temp_file;
pub mod text;
pub mod url;
pub mod url_laws;

pub use error::{Error, Field, Invalid};
pub use models::{
    CanShareResult, ShareAnchor, ShareOptions, SharedFile, MAX_FILES, MAX_FILE_BYTES,
    MAX_FILE_NAME_BYTES, MAX_MIME_TYPE_BYTES, MAX_TEXT_BYTES, MAX_TITLE_BYTES,
    MAX_TOTAL_FILE_BYTES, MAX_URL_BYTES,
};
