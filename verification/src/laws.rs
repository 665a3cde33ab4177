use vstd::prelude::*;
use crate::binary::_In;
use crate::expr::_Expr;
use crate::expr::_Leaf;
use crate::expr::_Node;
use crate::expr::gradient;
use crate::grads::lemma_scale_map_add;
use crate::grads::lemma_scale_one;
use crate::grads::lemma_scale_scale;
use crate::grads::lemma_scale_seed_add;
use crate::grads::map_add;
use crate::grads::scale_map;
use crate::scalar::Scalar;

verus! {

/// Seed scaling: the gradient under any seed is the gradient under seed
/// one, scaled pointwise by the seed.
pub proof fn lemma_seed_scaling<T: Scalar>(e: _Expr<T>, s: T)
    ensures
        gradient(e, s) == scale_map(s, gradient(e, T::one_spec())),
    decreases e,
{
    match e {
        _Expr::_OnlyForDrop => {
            assert(gradient(e, s) =~= scale_map(s, gradient(e, T::one_spec())));
        },
        _Expr::Leaf(l) => match l {
            _Leaf::Var(v) => {
                T::mul_comm(s, T::one_spec());
                T::mul_one(s);
                assert(gradient(e, s) =~= scale_map(s, gradient(e, T::one_spec())));
            },
            _Leaf::Const(_) => {
                assert(gradient(e, s) =~= scale_map(s, gradient(e, T::one_spec())));
            },
        },
        _Expr::Node(_, n) => match n {
            _Node::Unary(u) => {
                let child = *u.i;
                lemma_seed_scaling(child, T::mul_spec(s, u.g));
                T::mul_one(u.g);
                lemma_seed_scaling(child, u.g);
                lemma_scale_scale(s, u.g, gradient(child, T::one_spec()));
            },
            _Node::Binary(b) => match b.i {
                _In::L(l) => {
                    let child = *l;
                    lemma_seed_scaling(child, T::mul_spec(s, b.gl));
                    T::mul_one(b.gl);
                    lemma_seed_scaling(child, b.gl);
                    lemma_scale_scale(s, b.gl, gradient(child, T::one_spec()));
                },
                _In::R(r) => {
                    let child = *r;
                    lemma_seed_scaling(child, T::mul_spec(s, b.gr));
                    T::mul_one(b.gr);
                    lemma_seed_scaling(child, b.gr);
                    lemma_scale_scale(s, b.gr, gradient(child, T::one_spec()));
                },
                _In::LR { l, r } => {
                    let lv = *l;
                    let rv = *r;
                    lemma_seed_scaling(lv, T::mul_spec(s, b.gl));
                    lemma_seed_scaling(rv, T::mul_spec(s, b.gr));
                    T::mul_one(b.gl);
                    T::mul_one(b.gr);
                    lemma_seed_scaling(lv, b.gl);
                    lemma_seed_scaling(rv, b.gr);
                    let gl1 = gradient(lv, T::one_spec());
                    let gr1 = gradient(rv, T::one_spec());
                    lemma_scale_map_add(s, scale_map(b.gl, gl1), scale_map(b.gr, gr1));
                    lemma_scale_scale(s, b.gl, gl1);
                    lemma_scale_scale(s, b.gr, gr1);
                },
            },
        },
        _Expr::Compressed { grads, .. } => {
            lemma_scale_one(grads@);
        },
    }
}

/// Gradient linearity in the seed: the gradient under a sum of seeds is
/// the pointwise sum of the gradients under each seed.
pub proof fn lemma_gradient_linear<T: Scalar>(e: _Expr<T>, s1: T, s2: T)
    ensures
        gradient(e, T::add_spec(s1, s2)) == map_add(gradient(e, s1), gradient(e, s2)),
{
    lemma_seed_scaling(e, T::add_spec(s1, s2));
    lemma_seed_scaling(e, s1);
    lemma_seed_scaling(e, s2);
    lemma_scale_seed_add(s1, s2, gradient(e, T::one_spec()));
}

} // verus!

