pub mod archive_destination;
pub mod collect;
pub mod editor;
pub mod item_source;
pub mod iter;
pub mod keep;
pub mod mtree;
pub mod path;
pub mod path_lock;
pub mod permission;
pub mod re;
pub mod split;
pub mod time_filter;
pub mod timestamp;
