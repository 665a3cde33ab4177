use vstd::prelude::*;
use std::rc::Rc;
use crate::expr::Expr;
use crate::expr::_Expr;
use crate::expr::_Leaf;
use crate::expr::_Node;
use crate::expr::bump;
use crate::expr::gradient;
use crate::expr::lemma_const_gradient_empty;
use crate::expr::pending;
use crate::expr::ugrad;
use crate::expr::work_measure;
use crate::teardown::rc_dup;
use crate::grads::lemma_map_add_empty;
use crate::grads::map_add;
use crate::scalar::Exp;
use crate::scalar::Log;
use crate::scalar::Scalar;
use crate::scalar::Sqrt;

verus! {

/// The operation a unary node was built from; kept for inspection only,
/// since the local derivative is cached at construction.
#[derive(Clone, Copy)]
pub enum _UOp {
    Neg,
    Sqrt,
    Exp,
    Log,
}

/// A unary node: the shared operand, the cached output, and the cached
/// derivative of the output with respect to the operand.
pub struct _Unary<T> {
    pub i: Rc<_Expr<T>>,
    pub o: T,
    pub g: T,
    pub op: _UOp,
}

impl<T> _Unary<T> {
    pub fn output(&self) -> (r: &T)
        ensures
            *r == self.o,
    {
        &self.o
    }

    /// Whether the stored operand is constant.  A node built by this
    /// library never stores one, since constants are folded away.
    pub fn is_const(&self) -> (r: bool)
        ensures
            r == (*self.i).is_const_spec(),
    {
        (&*self.i).is_const()
    }
}

impl<T: Copy> Clone for _Unary<T> {
    /// A clone shares the operand edge and copies the cached output and
    /// local derivative.
    fn clone(&self) -> (r: Self)
        ensures
            r == *self,
    {
        _Unary { i: rc_dup(&self.i), o: self.o, g: self.g, op: self.op }
    }
}

impl<T: Scalar> _Unary<T> {
    /// Builds the expression for a unary operation: a constant operand is
    /// folded into a constant leaf carrying `o`; otherwise a node one
    /// generation above the operand caches `o` and the local derivative
    /// `g`.
    pub(crate) fn create(i: Expr<T>, o: T, g: T, op: _UOp) -> (e: Expr<T>)
        ensures
            i@.is_const_spec() ==> e@ == _Expr::Leaf(_Leaf::Const(o)),
            !i@.is_const_spec() ==> (e@ matches _Expr::Node(gen, _Node::Unary(u)) && gen == bump(
                i@.generation_spec(),
            ) && *u.i == i@ && u.o == o && u.g == g && u.op == op),
    {
        if i.is_const() {
            return Expr::from_inner(_Expr::constant(o));
        }
        let inner = Rc::new(i._take());
        let g0 = (&*inner).generation();
        let gen: usize = if g0 < usize::MAX {
            g0 + 1
        } else {
            g0
        };
        Expr::from_inner(_Expr::Node(gen, _Node::Unary(_Unary { i: inner, o, g, op })))
    }

    /// The worklist entry the traversal follows into the operand: the
    /// operand itself, with the incoming gradient multiplied by the cached
    /// local derivative.
    pub fn backward<'a>(&'a self, grad: T) -> (r: (&'a _Expr<T>, T))
        ensures
            *r.0 == *self.i,
            r.1 == T::mul_spec(grad, self.g),
    {
        (&*self.i, grad.mul(&self.g))
    }

    /// Pushes the operand's worklist entry, unless the operand contributes
    /// nothing.
    pub fn push_grads<'a>(&'a self, grads: &mut Vec<(&'a _Expr<T>, T)>, grad: T)
        ensures
            pending(final(grads)@) == map_add(pending(old(grads)@), ugrad(*self, grad)),
            work_measure(final(grads)@) <= work_measure(old(grads)@) + crate::expr::size(*self.i),
    {
        let child = &*self.i;
        if !child.is_const() {
            let entry = (child, grad.mul(&self.g));
            grads.push(entry);
            proof {
                assert(grads@.drop_last() == old(grads)@);
            }
        } else {
            proof {
                let cv = *self.i;
                lemma_const_gradient_empty(cv, T::mul_spec(grad, self.g));
                lemma_map_add_empty(pending(old(grads)@));
            }
        }
    }
}

impl<T: Scalar> Expr<T> {
    /// Negation: output `-x`, local derivative `-1`.
    pub fn neg(self) -> (e: Expr<T>)
        requires
            !(self@ is _OnlyForDrop),
        ensures
            e@.output_spec() == T::neg_spec(self@.output_spec()),
            forall|s: T| #[trigger] gradient(e@, s) == gradient(self@, T::neg_spec(s)),
            e@.is_const_spec() == self@.is_const_spec(),
            self@.is_const_spec() ==> e@ is Leaf,
            !self@.is_const_spec() ==> e@.generation_spec() == bump(self@.generation_spec()),
    {
        let o = (*self.output()).neg();
        let g = T::one().neg();
        let ghost iv = self@;
        let e = _Unary::create(self, o, g, _UOp::Neg);
        proof {
            assert forall|s: T| #[trigger] gradient(e@, s) == gradient(iv, T::neg_spec(s)) by {
                if iv.is_const_spec() {
                    lemma_const_gradient_empty(e@, s);
                    lemma_const_gradient_empty(iv, T::neg_spec(s));
                } else {
                    T::mul_neg(s, T::one_spec());
                    T::mul_comm(s, T::one_spec());
                    T::mul_one(s);
                }
            }
        }
        e
    }
}

impl<T: Scalar + Sqrt> Expr<T> {
    /// Square root: output `sqrt(x)`; the local derivative is one divided
    /// by twice the output, the derivative of the square root at `x`.
    pub fn sqrt(self) -> (e: Expr<T>)
        requires
            !(self@ is _OnlyForDrop),
        ensures
            e@.output_spec() == T::sqrt_spec(self@.output_spec()),
            forall|s: T| #[trigger] gradient(e@, s) == gradient(
                self@,
                T::mul_spec(
                    s,
                    T::div_spec(
                        T::one_spec(),
                        T::add_spec(
                            T::sqrt_spec(self@.output_spec()),
                            T::sqrt_spec(self@.output_spec()),
                        ),
                    ),
                ),
            ),
            e@.is_const_spec() == self@.is_const_spec(),
            self@.is_const_spec() ==> e@ is Leaf,
            !self@.is_const_spec() ==> e@.generation_spec() == bump(self@.generation_spec()),
    {
        let o = (*self.output()).sqrt();
        let g = T::one().div(&o.add(&o));
        let ghost iv = self@;
        let e = _Unary::create(self, o, g, _UOp::Sqrt);
        proof {
            assert forall|s: T| #[trigger] gradient(e@, s) == gradient(
                iv,
                T::mul_spec(
                    s,
                    T::div_spec(
                        T::one_spec(),
                        T::add_spec(T::sqrt_spec(iv.output_spec()), T::sqrt_spec(iv.output_spec())),
                    ),
                ),
            ) by {
                if iv.is_const_spec() {
                    lemma_const_gradient_empty(e@, s);
                    lemma_const_gradient_empty(
                        iv,
                        T::mul_spec(
                            s,
                            T::div_spec(
                                T::one_spec(),
                                T::add_spec(
                                    T::sqrt_spec(iv.output_spec()),
                                    T::sqrt_spec(iv.output_spec()),
                                ),
                            ),
                        ),
                    );
                }
            }
        }
        e
    }
}

impl<T: Scalar + Exp> Expr<T> {
    /// Natural exponential: output `exp(x)`, local derivative the output
    /// itself.
    pub fn exp(self) -> (e: Expr<T>)
        requires
            !(self@ is _OnlyForDrop),
        ensures
            e@.output_spec() == T::exp_spec(self@.output_spec()),
            forall|s: T| #[trigger] gradient(e@, s) == gradient(
                self@,
                T::mul_spec(s, T::exp_spec(self@.output_spec())),
            ),
            e@.is_const_spec() == self@.is_const_spec(),
            self@.is_const_spec() ==> e@ is Leaf,
            !self@.is_const_spec() ==> e@.generation_spec() == bump(self@.generation_spec()),
    {
        let o = (*self.output()).exp();
        let g = o;
        let ghost iv = self@;
        let e = _Unary::create(self, o, g, _UOp::Exp);
        proof {
            assert forall|s: T| #[trigger] gradient(e@, s) == gradient(
                iv,
                T::mul_spec(s, T::exp_spec(iv.output_spec())),
            ) by {
                if iv.is_const_spec() {
                    lemma_const_gradient_empty(e@, s);
                    lemma_const_gradient_empty(iv, T::mul_spec(s, T::exp_spec(iv.output_spec())));
                }
            }
        }
        e
    }
}

impl<T: Scalar + Log> Expr<T> {
    /// Natural logarithm: output `log(x)`, local derivative one divided by
    /// the operand's value.
    pub fn log(self) -> (e: Expr<T>)
        requires
            !(self@ is _OnlyForDrop),
        ensures
            e@.output_spec() == T::log_spec(self@.output_spec()),
            forall|s: T| #[trigger] gradient(e@, s) == gradient(
                self@,
                T::mul_spec(s, T::div_spec(T::one_spec(), self@.output_spec())),
            ),
            e@.is_const_spec() == self@.is_const_spec(),
            self@.is_const_spec() ==> e@ is Leaf,
            !self@.is_const_spec() ==> e@.generation_spec() == bump(self@.generation_spec()),
    {
        let o = (*self.output()).log();
        let g = T::one().div(self.output());
        let ghost iv = self@;
        let e = _Unary::create(self, o, g, _UOp::Log);
        proof {
            assert forall|s: T| #[trigger] gradient(e@, s) == gradient(
                iv,
                T::mul_spec(s, T::div_spec(T::one_spec(), iv.output_spec())),
            ) by {
                if iv.is_const_spec() {
                    lemma_const_gradient_empty(e@, s);
                    lemma_const_gradient_empty(
                        iv,
                        T::mul_spec(s, T::div_spec(T::one_spec(), iv.output_spec())),
                    );
                }
            }
        }
        e
    }
}

} // verus!
