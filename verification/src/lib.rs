//! Terminal file manager core: layout geometry, key bindings, list
//! navigation, folding, tabs, configuration parsing and text fitting.
#![allow(unused_imports)]

pub mod coordinates;
pub mod text;
pub mod keybind;
pub mod actions;
pub mod bindings_file;
pub mod config;
pub mod term;
pub mod dirty;
pub mod trait_ext;
pub mod mediaview;
pub mod tabview;
pub mod hbox;
pub mod listview;
pub mod foldview;
pub mod minibuffer;
pub mod files;
pub mod raw_alloc;
pub mod stats;
pub mod quick_actions;
pub mod textview;
pub mod filelist;
pub mod tags;
pub mod browser;
pub mod fscache;
pub mod drawing;
pub mod proclist;
pub mod preview;
pub mod filerender;
