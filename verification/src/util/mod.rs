pub mod archive_path;
pub mod book_nav;
pub mod natural_sort;
pub mod path_eq;
pub mod path_text;
