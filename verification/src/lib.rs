//! Number-theoretic transforms over the BN254 scalar field and the
//! baby-step/giant-step evaluation of a plaintext matrix on a packed
//! ciphertext, with machine-checked contracts.

pub mod bits;
pub mod blocks;
pub mod bsgs;
pub mod bsgs_laws;
pub mod dft;
pub mod engine;
pub mod error;
pub mod field;
pub mod matrix;
pub mod modmath;
pub mod naive;
pub mod nonresidue;
pub mod ntt;
pub mod product;
pub mod roots;
pub mod slots;
pub mod stages;
pub mod transform_laws;

pub use bsgs::{Bsgs, BsgsPlan};
pub use engine::Instruction;
pub use error::Error;
pub use field::FieldElement;
pub use matrix::{FFTMatrix, OffsetMatrix, SplittableMatrix, SquareMatrix};
pub use ntt::NTTProcessor;
pub use product::plain_matrix_ctxt_vector;
