//! Query extraction: capture classification, projection of captures into
//! matches, and rendering of the results.
pub mod capture;
pub mod engine;
pub mod extractor;
pub mod language;
pub mod position;
pub mod render;

pub use capture::{classify, starts_with_underscore};
pub use engine::{CompileError, RawCapture};
pub use extractor::{ExtractError, ExtractedFile, ExtractedMatch, Extractor};
pub use language::Language;
pub use position::{Position, ReportedPosition};
