pub mod album_queue;
pub mod artwork;
pub mod audio;
pub mod compound;
pub mod config;
pub mod controller;
pub mod display;
pub mod jellyfin;
pub mod keyed;
pub mod listing;
pub mod media;
pub mod models;
pub mod ordering;
pub mod presence;
pub mod sidebar;
pub mod storage;
pub mod sync;
pub mod text;
pub mod theme_editor;
pub mod themes;
pub mod ticker;
