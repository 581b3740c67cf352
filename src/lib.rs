//! A vertical, keyboard-navigable text menu: an ordered list of entries, a
//! wrap-around cursor, and a per-frame draw plan that gives each entry its
//! absolute position and its style (underlined when selected).
pub mod menu;
pub mod menu_text;
