//! Verified core of an image viewer: file-format detection, folder ordering,
//! EXIF orientation algebra, SVG size sniffing, viewer state and theming.

pub mod text;
pub mod formats;
pub mod orientation;
pub mod image_loader;
pub mod folder;
pub mod toml_data;
pub mod paths;
pub mod app_state;
pub mod file_ops;
pub mod theme;
pub mod thumbnail;
pub mod svg;
pub mod status;
pub mod commands;
pub mod display;
pub mod icons;
pub mod decode;
