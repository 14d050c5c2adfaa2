//! `ls`: reading the options, ordering the entries and laying out the
//! listing.  What the file system says of each entry comes in as plain
//! values.

pub mod utils;
pub mod ls_config;
pub mod entry;
pub mod entries;
pub mod ls;
