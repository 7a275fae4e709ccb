//! The verified core of a standalone file manager: the rules behind its
//! locations and history, the selection and keyboard navigation of a listing,
//! the order a listing is sorted in, the trash, permissions, drag and drop
//! bookkeeping, path completion, thumbnailer command lines, the shell's nav
//! bar and drawer, and the resolution of fonts and icon themes.

pub mod complete;
pub mod config;
pub mod desktop;
pub mod dnd;
pub mod font;
pub mod history;
pub mod icon_theme;
pub mod keyboard_nav;
pub mod location;
pub mod mode;
pub mod navigate;
pub mod paths;
pub mod popup;
pub mod search;
pub mod selection;
pub mod shell;
pub mod slide;
pub mod sort;
pub mod tab;
pub mod text;
pub mod thumbnail;
pub mod thumbnailer;
pub mod trash;
pub mod uri;
