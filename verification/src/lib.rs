pub mod change_row;
pub mod change_set;
pub mod chrome;
pub mod composer;
pub mod composer_view;
pub mod documents;
pub mod fold;
pub mod history;
pub mod inline_edit;
pub mod keys;
pub mod laws;
pub mod menu;
pub mod moves;
pub mod panel;
pub mod path;
pub mod path_set;
pub mod section_view;
pub mod sections;
pub mod selection;
pub mod spelling;
pub mod staging;
pub mod state;
pub mod table;
pub mod text;
pub mod theme;
pub mod tree;
pub mod tree_view;
pub mod undo;
