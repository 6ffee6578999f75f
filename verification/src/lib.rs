//! Dense matrices over a numeric scalar, their product computed as one
//! independent dot-product task per output cell, and named counters.

pub mod engine;
pub mod error;
pub mod exact;
pub mod matrix;
pub mod metrics;
pub mod pool;
pub mod render;
pub mod reply;
pub mod scalar;
pub mod text;
pub mod vector;

pub use engine::{delivery, multiply, task_at, Assembly, MsgInput, MsgOutput, NUM_THREADS};
pub use error::Error;
pub use matrix::Matrix;
pub use metrics::{AmapMetrics, Metrics};
pub use pool::{collect_all, dispatch, multiply_pooled};
pub use reply::Msg;
pub use scalar::Scalar;
pub use vector::{dot_product, Vector};
