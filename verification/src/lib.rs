//! Sigmoid-matching dimensionality reduction: the integer core.
//!
//! The crate holds the configuration of the three models (exact, sampled and
//! Barnes-Hut), the validation of matrix shapes, exact column statistics over
//! integer matrices, and the quadtree index of the Barnes-Hut grid: Z-order
//! cell addressing, per-cell populations and the per-leaf row lists.

pub mod barnes_hut_sigmoid_decomposition;
pub mod basic_decomposition;
pub mod basic_iterative_decomposition;
pub mod cell_addressing;
pub mod gradient_grid;
pub mod matrix_statistics;
pub mod messages;
pub mod numpy_decomposition;
pub mod pdep;
pub mod sampled_sigmoid_decomposition;
pub mod sigmoid_decomposition;
pub mod traits;
pub mod utils;

pub use crate::barnes_hut_sigmoid_decomposition::BarnesHutSigmoidDecomposition;
pub use crate::sampled_sigmoid_decomposition::SampledSigmoidDecomposition;
pub use crate::sigmoid_decomposition::SigmoidDecomposition;
