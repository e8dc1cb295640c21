//! Discovery of a website's OpenSearch descriptor: locating the descriptor
//! reference inside a parsed HTML document, normalizing the loosely-ordered
//! descriptor fields into a strict model, selecting the best-fit icon, and
//! serializing the result as a Nix attribute-set literal.

pub mod emit;
pub mod html;
pub mod icon;
pub mod model;
pub mod normalize;
pub mod urls;
