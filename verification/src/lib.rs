//! Verified core of a native git GUI: commit-graph lane layout, commit
//! message and ref-log parsing, git command construction, working-tree
//! summaries, the commit workbench, the dialogs, menus and launch
//! settings, and the texts the panes show.

pub mod actions;
pub mod app;
pub mod choices;
pub mod clock;
pub mod desktop_install;
pub mod git;
pub mod graph_layout;
pub mod inspector;
pub mod mock;
pub mod modals;
pub mod model;
pub mod present;
pub mod startup;
pub mod text;
pub mod theme;
