//! A frontend for arithmetic circuits: programs are recorded as directed
//! graphs of operations, checked for shape as they grow, and lowered to
//! the tag vocabulary of a backend.

pub mod common;
pub mod context;
pub mod error;
pub mod fhe;
pub mod fhe_program;
pub mod graph;
pub mod isomorphism;
pub mod render;
pub mod subdivision;
pub mod topology;
pub mod view;
pub mod zkp;
pub mod zkp_backend;

pub use crate::context::{with_ctx, ActiveContext};
pub use crate::error::Error;
pub use crate::fhe::{
    Context, FheProgramNode, FrontendCompilation, InnerPlaintext, Literal, OperandInfo, Operation,
    Params,
};
pub use crate::fhe_program::{SchemeType, SecurityLevel};
