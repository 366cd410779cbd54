//! Attribute resolution and rendering engine for an HTML-email markup language.
pub mod attributes;
pub mod body;
pub mod component;
pub mod context;
pub mod markup;
pub mod navbar_link;
pub mod table;
pub mod tag;
pub mod text;
