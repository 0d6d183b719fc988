//! The logic of a small blog server: rendering of pages, the encodings that
//! article titles and bodies go through, the caching repository in front of
//! the database, and the decisions that the request handlers make.

pub mod article;
pub mod codec;
pub mod database;
pub mod handlers;
pub mod markdown;
pub mod repository;
pub mod routes;
pub mod text;
pub mod view;
