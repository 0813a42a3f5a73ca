pub mod dataset;
pub mod measures;
pub mod text;

pub use dataset::Dataset;
pub use dataset::IndexOutOfRange;
pub use measures::Measure;
pub use text::ParseError;
