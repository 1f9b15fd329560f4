pub mod convergence;
pub mod matrix;
pub mod step;
