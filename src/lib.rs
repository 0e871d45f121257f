//! The discrete core of a Monte-Carlo path tracer: the sensor's pixel grid
//! and its byte readout, the split of pixels among render workers, the
//! closest-hit choice among a scene's shapes, and the bounce decisions of the
//! path-tracing estimator.
pub mod dispatch;
pub mod integrator;
pub mod material;
pub mod scene;
pub mod sensor;

pub use dispatch::{partition, worker_count, DEFAULT_WORKERS};
pub use integrator::{BounceOutcome, PathIntegrator};
pub use material::BlackBody;
pub use scene::closest_hit_index;
pub use sensor::{Pixel, Sensor};
