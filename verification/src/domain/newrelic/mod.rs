pub mod metric;
pub mod model;
pub mod newrelic;

pub use metric::Extraction;
pub use metric::Metric;
pub use newrelic::Newrelic;
