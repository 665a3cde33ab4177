//! Reverse-mode automatic differentiation over a symbolic expression graph.
//!
//! Expressions are built from input variables and constants by arithmetic
//! and elementary transcendental operations.  Every interior node caches its
//! forward value and the local derivatives with respect to its non-constant
//! operands, so the gradient of the root with respect to every distinct
//! input variable can be read off by a single iterative reverse traversal.
//! Graphs may be deep enough to overflow a native call stack, so both the
//! traversal and the destruction of a graph use explicit worklists.

mod binary;
mod expr;
mod grads;
mod laws;
mod scalar;
mod teardown;
mod unary;
mod var;

pub use binary::_BOp;
pub use binary::_Binary;
pub use binary::_In;
pub use binary::binary_gen;
pub use expr::Expr;
pub use expr::_Expr;
pub use expr::_Leaf;
pub use expr::_Node;
pub use expr::bgrad;
pub use expr::bump;
pub use expr::gradient;
pub use expr::lemma_const_gradient_empty;
pub use expr::node_grad;
pub use expr::node_size;
pub use expr::pending;
pub use expr::size;
pub use expr::ugrad;
pub use expr::work_measure;
pub use grads::GradMap;
pub use grads::acc_entry;
pub use grads::entries_map;
pub use grads::entries_unique;
pub use grads::lemma_acc_entry_is_map_add;
pub use grads::lemma_entries_map_props;
pub use grads::lemma_map_add_assoc;
pub use grads::lemma_map_add_comm;
pub use grads::lemma_map_add_empty;
pub use grads::lemma_scale_map_add;
pub use grads::lemma_scale_one;
pub use grads::lemma_scale_scale;
pub use grads::lemma_scale_seed_add;
pub use grads::map_add;
pub use grads::scale_map;
pub use laws::lemma_gradient_linear;
pub use laws::lemma_seed_scaling;
pub use scalar::Exp;
pub use scalar::Mod64;
pub use scalar::ring_width;
pub use scalar::Log;
pub use scalar::Scalar;
pub use scalar::Sqrt;
pub use unary::_UOp;
pub use unary::_Unary;
pub use var::Id;
pub use var::Var;
pub use var::VarGroup;
