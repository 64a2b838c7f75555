//! Previews of code that messages link to.
pub mod url_parser;
pub mod utils;
