pub mod commands;
pub mod git_ext;
pub mod git_utils;
pub mod javascript;
pub mod json;
pub mod languages;
