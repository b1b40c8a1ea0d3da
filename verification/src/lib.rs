pub mod markdown;
pub mod page_gen;
pub mod text;
pub mod tree_sitter_adapter;
