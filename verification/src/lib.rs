pub mod active_enums;
pub mod config;
pub mod dto;
pub mod errors;
pub mod generals;
pub mod generator;
pub mod names;
pub mod parser_converter;
pub mod post_generate;
pub mod response_api;
pub mod s3;
pub mod slug;
pub mod services;
pub mod table_structs;
pub mod tiptap;
pub mod text;
pub mod validators;
