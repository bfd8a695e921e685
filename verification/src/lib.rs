//! The logic of a chat client's transcript and shell, with its behaviour
//! stated in contracts.
pub mod text;
pub mod text_laws;
pub mod markdown;
pub mod wrap;
pub mod thoughts;
pub mod thought_laws;
pub mod diff;
pub mod diff_laws;
pub mod tools;
pub mod tool_laws;
pub mod message;
pub mod hash;
pub mod fingerprint;
pub mod print_laws;
pub mod rows;
pub mod row_laws;
pub mod entry_laws;
pub mod version_laws;
pub mod rowset;
pub mod clock;
pub mod parsing;
pub mod nav;
pub mod viewport;
pub mod scroll;
pub mod scroll_laws;
pub mod own_turn;
pub mod geometry;
pub mod sync;
pub mod anchor_laws;
pub mod json;
pub mod titles;
pub mod title_laws;
pub mod chips;
pub mod chip_laws;
pub mod account;
pub mod dialogs;
pub mod account_laws;
pub mod layout;
pub mod titlebar;
pub mod panes;
pub mod pane_laws;
pub mod trailer;
pub mod bar_laws;
pub mod rowview;
pub mod attach;
pub mod image_laws;
pub mod highlights;
pub mod frames;
pub mod selection;
pub mod step_laws;
pub mod query_laws;
pub mod whole_laws;
