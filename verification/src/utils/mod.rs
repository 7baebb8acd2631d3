//! Helpers shared by the regression metrics: input validation, the
//! arithmetic mean, and sums of squared deviations.

pub mod math;
