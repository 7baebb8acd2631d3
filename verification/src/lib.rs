//! Regression-metric library over exact rational arithmetic.
//!
//! Error metrics (MAE, MSE, MAPE) and goodness-of-fit measures (R² and
//! adjusted R²) for pairs of equal-length prediction vectors, together with
//! the shared helpers (validation, mean, sum of squared deviations).
//!
//! Every value is an exact rational ([`rational::Ratio`]); an operation whose
//! exact result does not fit the 64-bit coefficients, and every invalid
//! input, reports `None` in place of a number. Callers check that sentinel
//! rather than catch an error.

pub mod rational;
pub mod sums;
pub mod utils;
pub mod regression;

pub use crate::rational::Ratio;
pub use crate::regression::mae::mean_absolute_error;
pub use crate::regression::mape::mean_absolute_percentage_error;
pub use crate::regression::mse::mean_squared_error;
pub use crate::regression::r2::adjusted_r_squared;
pub use crate::regression::r2::r_squared;
pub use crate::utils::math::check_vectors;
pub use crate::utils::math::mean;
pub use crate::utils::math::sum_of_squares;
pub use crate::utils::math::sum_squared_errors;
