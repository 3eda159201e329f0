//! Built-in operations of the pipeline.
//!
//! Each operation is independently pluggable: it consumes the generator's
//! record set and context and produces the next, under the one shared
//! `Operation` contract.

pub mod content;
pub mod copy;
pub mod load;
pub mod templates;
pub mod transpile;

pub use content::MarkdownTranspiler;
pub use copy::AssetCopier;

pub use load::TomlTranspiler;
pub use templates::TemplateTranspiler;
pub use transpile::HatterTranspiler;
