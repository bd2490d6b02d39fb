pub mod metadata;
