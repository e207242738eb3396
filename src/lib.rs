//! Bumps the semantic version recorded in a package manifest.

pub mod error;
pub mod text;
pub mod token;
pub mod rules;
pub mod manifest;
pub mod request;

pub use error::VersionError;
pub use manifest::{get_version, update_version, update_version_by_label};
pub use request::{label_of_request, trim_request};
pub use rules::VersionLabel;
pub use token::{VersionToken, format_version, get_version_as_tuple, parse_version};
