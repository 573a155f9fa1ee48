pub mod png;
