//! Regression metrics: MAE, MSE, MAPE, R² and adjusted R².

pub mod mae;
pub mod mape;
pub mod mse;
pub mod r2;
