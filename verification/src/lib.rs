//! Estimates, by repeated random sampling, the probability that the
//! perpendicular bisector of two uniformly random points of the unit
//! square crosses the boundary segment nearest to the first point.
//!
//! Coordinates are exact rationals (integer numerators over a positive
//! denominator), so every geometric decision is exact and proved against
//! a mathematical model over unbounded integers.

pub mod arith;
pub mod edges;
pub mod kernel;
pub mod laws;
pub mod model;
pub mod sampling;
pub mod solve;

pub use edges::closest_edge;
pub use edges::edge_segment;
pub use kernel::gradient;
pub use kernel::midpoint;
pub use kernel::on_segment;
pub use kernel::orientation;
pub use kernel::perpendicular_bisector;
pub use kernel::points_coincide;
pub use kernel::segments_intersect;
pub use kernel::COORD_LIMIT;
pub use kernel::ORIENT_LIMIT;
pub use model::Edge;
pub use model::GeomError;
pub use model::Orientation;
pub use model::Point;
pub use model::Segment;
pub use model::Slope;
pub use sampling::aggregate;
pub use sampling::effective_trials;
pub use sampling::estimate_parts;
pub use sampling::per_worker;
pub use sampling::record_outcome;
pub use sampling::worker_tally;
pub use sampling::Tally;
pub use sampling::SCALE_NUM;
pub use solve::has_solution;
