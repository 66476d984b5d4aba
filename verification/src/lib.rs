//! Shared logic of the skin server: permissions, users, groups, textures,
//! authorization decisions and the texture preview renderer.

pub mod access;
pub mod accounts;
pub mod app_error;
pub mod decimal;
pub mod figure;
pub mod forms;
pub mod groups;
pub mod ids;
pub mod permissions;
pub mod preview;
pub mod raster;
pub mod text;
pub mod textures;
pub mod users;

pub use app_error::AppError;
pub use permissions::Permissions;
pub use textures::{Blob, Texture, TextureQuota, TextureType};
pub use users::User;
pub use groups::{Group, DEFAULT_MAX_TEXTURES};
