pub mod asset;
pub mod deck;
pub mod error;
pub mod extract;
pub mod json;
pub mod layout;
pub mod text;
pub mod url;
