pub mod cache_laws;
pub mod commands;
pub mod display_laws;
pub mod document;
pub mod document_laws;
pub mod dropped_files;
pub mod edit_laws;
pub mod editor;
pub mod editor_frame;
pub mod editor_keys;
pub mod editor_laws;
pub mod editor_text_layout;
pub mod file_explorer;
pub mod file_laws;
pub mod highlights;
pub mod inline_markdown;
pub mod input_laws;
pub mod line_laws;
pub mod outline_laws;
pub mod paths;
pub mod projection;
pub mod quicklook;
pub mod root;
pub mod rope;
pub mod search;
pub mod search_laws;
pub mod span;
pub mod syntax;
pub mod system_colors;
pub mod text;
pub mod text_laws;
pub mod theme;
pub mod undo;
pub mod utf16;
pub mod window_laws;
