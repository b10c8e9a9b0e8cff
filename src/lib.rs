pub mod schema;
pub mod finalization;
pub mod value;
pub mod otlp;
pub mod sender;
pub mod blackhole;
pub mod text;
