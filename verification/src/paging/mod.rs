pub mod page_directory;
pub mod page_table;
