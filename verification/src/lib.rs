//! Structural subtraction of filesystem paths.
//!
//! Given two paths, `sub_paths` removes a shared leading component
//! prefix equal to the second path from the first and returns the
//! trailing components that remain. It succeeds only when the walk
//! over both component sequences finds no mismatch; it never touches
//! the filesystem and never normalizes components.

pub mod path;
pub mod subtract;

pub use path::Component;
pub use path::ComponentModel;
pub use path::Path;
pub use path::PathModel;
pub use subtract::sub_paths;
