use vstd::prelude::*;
use std::rc::Rc;
use crate::expr::Expr;
use crate::expr::_Expr;
use crate::expr::_Leaf;
use crate::expr::_Node;
use crate::expr::bump;
use crate::expr::gradient;
use crate::expr::lemma_const_gradient_empty;
use crate::expr::pending;
use crate::expr::bgrad;
use crate::expr::node_size;
use crate::expr::size;
use crate::expr::work_measure;
use crate::teardown::rc_dup;
use crate::grads::lemma_map_add_assoc;
use crate::grads::lemma_map_add_empty;
use crate::grads::map_add;
use crate::grads::scale_map;
use crate::scalar::Scalar;

verus! {

/// The operation a binary node was built from; kept for inspection only,
/// since the local derivatives are cached at construction.
#[derive(Clone, Copy)]
pub enum _BOp {
    Add,
    Sub,
    Mul,
    Div,
}

/// Which operands a binary node stores: only the left (the right was a
/// constant and was folded), only the right, or both.
pub enum _In<T> {
    L(Rc<_Expr<T>>),
    R(Rc<_Expr<T>>),
    LR { l: Rc<_Expr<T>>, r: Rc<_Expr<T>> },
}

/// A binary node: the stored operands, the cached output, and the cached
/// derivatives of the output with respect to the left and right operand.
pub struct _Binary<T> {
    pub i: _In<T>,
    pub o: T,
    pub gl: T,
    pub gr: T,
    pub op: _BOp,
}

/// The generation of the expression combining `l` and `r`: zero when both
/// are constant (the result is a leaf), else one above the highest stored
/// operand, constants not counting.
pub open spec fn binary_gen<T>(l: _Expr<T>, r: _Expr<T>) -> usize {
    if l.is_const_spec() && r.is_const_spec() {
        0
    } else if l.is_const_spec() {
        bump(r.generation_spec())
    } else if r.is_const_spec() {
        bump(l.generation_spec())
    } else if l.generation_spec() >= r.generation_spec() {
        bump(l.generation_spec())
    } else {
        bump(r.generation_spec())
    }
}

impl<T> _Binary<T> {
    pub fn output(&self) -> (r: &T)
        ensures
            *r == self.o,
    {
        &self.o
    }

    /// Whether each side is constant: a side that is not stored was a
    /// constant, folded at construction; a stored side is asked itself.
    pub open spec fn is_const_each_spec(self) -> (bool, bool) {
        match self.i {
            _In::L(l) => ((*l).is_const_spec(), true),
            _In::R(r) => (true, (*r).is_const_spec()),
            _In::LR { l, r } => ((*l).is_const_spec(), (*r).is_const_spec()),
        }
    }

    pub fn is_const_each(&self) -> (r: (bool, bool))
        ensures
            r == self.is_const_each_spec(),
    {
        match &self.i {
            _In::L(l) => ((&**l).is_const(), true),
            _In::R(r) => (true, (&**r).is_const()),
            _In::LR { l, r } => ((&**l).is_const(), (&**r).is_const()),
        }
    }

    /// The left operand, where one is stored.
    pub open spec fn left_spec(self) -> _Expr<T> {
        match self.i {
            _In::L(l) => *l,
            _In::LR { l, .. } => *l,
            _In::R(_) => arbitrary(),
        }
    }

    /// The right operand, where one is stored.
    pub open spec fn right_spec(self) -> _Expr<T> {
        match self.i {
            _In::R(r) => *r,
            _In::LR { r, .. } => *r,
            _In::L(_) => arbitrary(),
        }
    }
}

impl<T> Clone for _In<T> {
    /// A clone shares the same operand edges.
    fn clone(&self) -> (r: Self)
        ensures
            r == *self,
    {
        match self {
            _In::L(l) => _In::L(rc_dup(l)),
            _In::R(r) => _In::R(rc_dup(r)),
            _In::LR { l, r } => _In::LR { l: rc_dup(l), r: rc_dup(r) },
        }
    }
}

impl<T: Copy> Clone for _Binary<T> {
    /// A clone shares the operand edges and copies the cached output and
    /// local derivatives.
    fn clone(&self) -> (r: Self)
        ensures
            r == *self,
    {
        _Binary { i: self.i.clone(), o: self.o, gl: self.gl, gr: self.gr, op: self.op }
    }
}

impl<T: Scalar> _Binary<T> {
    /// Builds the expression for a binary operation from the operands, the
    /// computed output and the two local derivatives: two constants fold
    /// into a constant leaf carrying `o`; one constant is discarded
    /// together with its local derivative and only the other side is
    /// stored; otherwise both operands are stored.
    pub(crate) fn create(l: Expr<T>, r: Expr<T>, o: T, gl: T, gr: T, op: _BOp) -> (e: Expr<T>)
        ensures
            l@.is_const_spec() && r@.is_const_spec() ==> e@ == _Expr::Leaf(_Leaf::Const(o)),
            l@.is_const_spec() && !r@.is_const_spec() ==> (e@ matches _Expr::Node(
                g2,
                _Node::Binary(b),
            ) && g2 == binary_gen(l@, r@) && (b.i matches _In::R(c) && *c == r@) && b.o == o
                && b.gl == gl && b.gr == gr && b.op == op),
            !l@.is_const_spec() && r@.is_const_spec() ==> (e@ matches _Expr::Node(
                g2,
                _Node::Binary(b),
            ) && g2 == binary_gen(l@, r@) && (b.i matches _In::L(c) && *c == l@) && b.o == o
                && b.gl == gl && b.gr == gr && b.op == op),
            !l@.is_const_spec() && !r@.is_const_spec() ==> (e@ matches _Expr::Node(
                g2,
                _Node::Binary(b),
            ) && g2 == binary_gen(l@, r@) && (b.i matches _In::LR { l: cl, r: cr } && *cl == l@
                && *cr == r@) && b.o == o && b.gl == gl && b.gr == gr && b.op == op),
    {
        let lc = l.is_const();
        let rc = r.is_const();
        if lc && rc {
            return Expr::from_inner(_Expr::constant(o));
        }
        if lc {
            let ri = Rc::new(r._take());
            let g0 = (&*ri).generation();
            let gen: usize = if g0 < usize::MAX {
                g0 + 1
            } else {
                g0
            };
            return Expr::from_inner(
                _Expr::Node(gen, _Node::Binary(_Binary { i: _In::R(ri), o, gl, gr, op })),
            );
        }
        if rc {
            let li = Rc::new(l._take());
            let g0 = (&*li).generation();
            let gen: usize = if g0 < usize::MAX {
                g0 + 1
            } else {
                g0
            };
            return Expr::from_inner(
                _Expr::Node(gen, _Node::Binary(_Binary { i: _In::L(li), o, gl, gr, op })),
            );
        }
        let li = Rc::new(l._take());
        let ri = Rc::new(r._take());
        let gll = (&*li).generation();
        let grr = (&*ri).generation();
        let g0 = if gll >= grr {
            gll
        } else {
            grr
        };
        let gen: usize = if g0 < usize::MAX {
            g0 + 1
        } else {
            g0
        };
        Expr::from_inner(
            _Expr::Node(gen, _Node::Binary(_Binary { i: _In::LR { l: li, r: ri }, o, gl, gr, op })),
        )
    }

    /// The worklist entry the traversal follows into the stored left
    /// operand.
    pub fn backward_l<'a>(&'a self, grad: T) -> (r: (&'a _Expr<T>, T))
        requires
            !(self.i is R),
        ensures
            *r.0 == self.left_spec(),
            r.1 == T::mul_spec(grad, self.gl),
    {
        let child = match &self.i {
            _In::L(l) => &**l,
            _In::LR { l, .. } => &**l,
            _In::R(_) => unreached(),
        };
        (child, grad.mul(&self.gl))
    }

    /// The worklist entry the traversal follows into the stored right
    /// operand.
    pub fn backward_r<'a>(&'a self, grad: T) -> (r: (&'a _Expr<T>, T))
        requires
            !(self.i is L),
        ensures
            *r.0 == self.right_spec(),
            r.1 == T::mul_spec(grad, self.gr),
    {
        let child = match &self.i {
            _In::R(r) => &**r,
            _In::LR { r, .. } => &**r,
            _In::L(_) => unreached(),
        };
        (child, grad.mul(&self.gr))
    }

    /// Pushes the worklist entries of the stored operands, leaving out a
    /// side that contributes nothing.
    pub fn push_grads<'a>(&'a self, grads: &mut Vec<(&'a _Expr<T>, T)>, grad: T)
        ensures
            pending(final(grads)@) == map_add(pending(old(grads)@), bgrad(*self, grad)),
            work_measure(final(grads)@) <= work_measure(old(grads)@) + node_size(
                _Node::Binary(*self),
            ),
    {
        match &self.i {
            _In::L(l) => {
                let child = &**l;
                if !child.is_const() {
                    let entry = (child, grad.mul(&self.gl));
                    grads.push(entry);
                    proof {
                        assert(grads@.drop_last() == old(grads)@);
                        assert(work_measure(grads@) == work_measure(old(grads)@) + size(**l));
                        assert(node_size(_Node::Binary(*self)) == size(**l));
                    }
                } else {
                    proof {
                        let cv = **l;
                        lemma_const_gradient_empty(cv, T::mul_spec(grad, self.gl));
                        lemma_map_add_empty(pending(old(grads)@));
                    }
                }
            },
            _In::R(r) => {
                let child = &**r;
                if !child.is_const() {
                    let entry = (child, grad.mul(&self.gr));
                    grads.push(entry);
                    proof {
                        assert(grads@.drop_last() == old(grads)@);
                        assert(work_measure(grads@) == work_measure(old(grads)@) + size(**r));
                        assert(node_size(_Node::Binary(*self)) == size(**r));
                    }
                } else {
                    proof {
                        let cv = **r;
                        lemma_const_gradient_empty(cv, T::mul_spec(grad, self.gr));
                        lemma_map_add_empty(pending(old(grads)@));
                    }
                }
            },
            _In::LR { l, r } => {
                let lchild = &**l;
                if !lchild.is_const() {
                    let entry = (lchild, grad.mul(&self.gl));
                    grads.push(entry);
                    proof {
                        assert(grads@.drop_last() == old(grads)@);
                        assert(pending(grads@) == map_add(
                            pending(old(grads)@),
                            gradient(**l, T::mul_spec(grad, self.gl)),
                        ));
                        assert(work_measure(grads@) <= work_measure(old(grads)@) + size(**l));
                    }
                } else {
                    proof {
                        let cv = **l;
                        lemma_const_gradient_empty(cv, T::mul_spec(grad, self.gl));
                        lemma_map_add_empty(pending(old(grads)@));
                        assert(pending(grads@) == map_add(
                            pending(old(grads)@),
                            gradient(**l, T::mul_spec(grad, self.gl)),
                        ));
                    }
                }
                let ghost mid = grads@;
                let rchild = &**r;
                if !rchild.is_const() {
                    let entry = (rchild, grad.mul(&self.gr));
                    grads.push(entry);
                    proof {
                        assert(grads@.drop_last() == mid);
                        assert(pending(grads@) == map_add(
                            pending(mid),
                            gradient(**r, T::mul_spec(grad, self.gr)),
                        ));
                        assert(work_measure(grads@) == work_measure(mid) + size(**r));
                    }
                } else {
                    proof {
                        let cv = **r;
                        lemma_const_gradient_empty(cv, T::mul_spec(grad, self.gr));
                        lemma_map_add_empty(pending(mid));
                        assert(pending(grads@) == map_add(
                            pending(mid),
                            gradient(**r, T::mul_spec(grad, self.gr)),
                        ));
                    }
                }
                proof {
                    let lv = **l;
                    let rv = **r;
                    let lpart = gradient(lv, T::mul_spec(grad, self.gl));
                    let rpart = gradient(rv, T::mul_spec(grad, self.gr));
                    assert(pending(grads@) == map_add(
                        map_add(pending(old(grads)@), lpart),
                        rpart,
                    ));
                    lemma_map_add_assoc(pending(old(grads)@), lpart, rpart);
                    assert(work_measure(grads@) <= work_measure(old(grads)@) + size(**l) + size(
                        **r,
                    ));
                    assert(node_size(_Node::Binary(*self)) == size(**l) + size(**r));
                }
            },
        }
    }
}

impl<T: Scalar> Expr<T> {
    /// Addition: output the sum of the outputs; each side's local
    /// derivative is one, so the gradient is the pointwise sum of the
    /// operands' gradients under the same seed.
    pub fn add(self, rhs: Expr<T>) -> (e: Expr<T>)
        requires
            !(self@ is _OnlyForDrop),
            !(rhs@ is _OnlyForDrop),
        ensures
            e@.output_spec() == T::add_spec(self@.output_spec(), rhs@.output_spec()),
            forall|s: T| #[trigger] gradient(e@, s) == map_add(
                gradient(self@, s),
                gradient(rhs@, s),
            ),
            e@.is_const_spec() == (self@.is_const_spec() && rhs@.is_const_spec()),
            e@.generation_spec() == binary_gen(self@, rhs@),
            self@.is_const_spec() && rhs@.is_const_spec() ==> e@ is Leaf,
            self@.is_const_spec() && !rhs@.is_const_spec() ==> (e@ matches _Expr::Node(
                _,
                _Node::Binary(b),
            ) && b.i matches _In::R(c) && *c == rhs@),
            !self@.is_const_spec() && rhs@.is_const_spec() ==> (e@ matches _Expr::Node(
                _,
                _Node::Binary(b),
            ) && b.i matches _In::L(c) && *c == self@),
            !self@.is_const_spec() && !rhs@.is_const_spec() ==> (e@ matches _Expr::Node(
                _,
                _Node::Binary(b),
            ) && b.i matches _In::LR { l: cl, r: cr } && *cl == self@ && *cr == rhs@),
    {
        let o = (*self.output()).add(rhs.output());
        let gl = T::one();
        let gr = T::one();
        let ghost lv = self@;
        let ghost rv = rhs@;
        let e = _Binary::create(self, rhs, o, gl, gr, _BOp::Add);
        proof {
            let ghost ev = e@;
            assert forall|s: T| #[trigger] gradient(ev, s) == map_add(
                gradient(lv, s),
                gradient(rv, s),
            ) by {
                T::mul_comm(s, T::one_spec());
                T::mul_one(s);
                if lv.is_const_spec() && rv.is_const_spec() {
                    lemma_const_gradient_empty(ev, s);
                    lemma_const_gradient_empty(lv, s);
                    lemma_const_gradient_empty(rv, s);
                    lemma_map_add_empty(gradient(rv, s));
                } else if lv.is_const_spec() {
                    lemma_const_gradient_empty(lv, s);
                    lemma_map_add_empty(gradient(rv, s));
                } else if rv.is_const_spec() {
                    lemma_const_gradient_empty(rv, s);
                    lemma_map_add_empty(gradient(lv, s));
                }
            }
        }
        e
    }

    /// Subtraction: output the difference of the outputs; the right side's
    /// local derivative is minus one, so its gradient enters under the
    /// negated seed.
    pub fn sub(self, rhs: Expr<T>) -> (e: Expr<T>)
        requires
            !(self@ is _OnlyForDrop),
            !(rhs@ is _OnlyForDrop),
        ensures
            e@.output_spec() == T::sub_spec(self@.output_spec(), rhs@.output_spec()),
            forall|s: T| #[trigger] gradient(e@, s) == map_add(
                gradient(self@, s),
                gradient(rhs@, T::neg_spec(s)),
            ),
            e@.is_const_spec() == (self@.is_const_spec() && rhs@.is_const_spec()),
            e@.generation_spec() == binary_gen(self@, rhs@),
            self@.is_const_spec() && rhs@.is_const_spec() ==> e@ is Leaf,
            self@.is_const_spec() && !rhs@.is_const_spec() ==> (e@ matches _Expr::Node(
                _,
                _Node::Binary(b),
            ) && b.i matches _In::R(c) && *c == rhs@),
            !self@.is_const_spec() && rhs@.is_const_spec() ==> (e@ matches _Expr::Node(
                _,
                _Node::Binary(b),
            ) && b.i matches _In::L(c) && *c == self@),
            !self@.is_const_spec() && !rhs@.is_const_spec() ==> (e@ matches _Expr::Node(
                _,
                _Node::Binary(b),
            ) && b.i matches _In::LR { l: cl, r: cr } && *cl == self@ && *cr == rhs@),
    {
        let o = (*self.output()).sub(rhs.output());
        let gl = T::one();
        let gr = T::one().neg();
        let ghost lv = self@;
        let ghost rv = rhs@;
        let e = _Binary::create(self, rhs, o, gl, gr, _BOp::Sub);
        proof {
            let ghost ev = e@;
            assert forall|s: T| #[trigger] gradient(ev, s) == map_add(
                gradient(lv, s),
                gradient(rv, T::neg_spec(s)),
            ) by {
                T::mul_comm(s, T::one_spec());
                T::mul_one(s);
                T::mul_neg(s, T::one_spec());
                if lv.is_const_spec() && rv.is_const_spec() {
                    lemma_const_gradient_empty(ev, s);
                    lemma_const_gradient_empty(lv, s);
                    lemma_const_gradient_empty(rv, T::neg_spec(s));
                    lemma_map_add_empty(gradient(rv, T::neg_spec(s)));
                } else if lv.is_const_spec() {
                    lemma_const_gradient_empty(lv, s);
                    lemma_map_add_empty(gradient(rv, T::neg_spec(s)));
                } else if rv.is_const_spec() {
                    lemma_const_gradient_empty(rv, T::neg_spec(s));
                    lemma_map_add_empty(gradient(lv, s));
                }
            }
        }
        e
    }

    /// Multiplication: output the product of the outputs; each side's
    /// local derivative is the other side's output, captured when the node
    /// is built.
    pub fn mul(self, rhs: Expr<T>) -> (e: Expr<T>)
        requires
            !(self@ is _OnlyForDrop),
            !(rhs@ is _OnlyForDrop),
        ensures
            e@.output_spec() == T::mul_spec(self@.output_spec(), rhs@.output_spec()),
            forall|s: T| #[trigger] gradient(e@, s) == map_add(
                gradient(self@, T::mul_spec(s, rhs@.output_spec())),
                gradient(rhs@, T::mul_spec(s, self@.output_spec())),
            ),
            e@.is_const_spec() == (self@.is_const_spec() && rhs@.is_const_spec()),
            e@.generation_spec() == binary_gen(self@, rhs@),
            self@.is_const_spec() && rhs@.is_const_spec() ==> e@ is Leaf,
            self@.is_const_spec() && !rhs@.is_const_spec() ==> (e@ matches _Expr::Node(
                _,
                _Node::Binary(b),
            ) && b.i matches _In::R(c) && *c == rhs@),
            !self@.is_const_spec() && rhs@.is_const_spec() ==> (e@ matches _Expr::Node(
                _,
                _Node::Binary(b),
            ) && b.i matches _In::L(c) && *c == self@),
            !self@.is_const_spec() && !rhs@.is_const_spec() ==> (e@ matches _Expr::Node(
                _,
                _Node::Binary(b),
            ) && b.i matches _In::LR { l: cl, r: cr } && *cl == self@ && *cr == rhs@),
    {
        let lo = *self.output();
        let ro = *rhs.output();
        let o = lo.mul(&ro);
        let gl = ro;
        let gr = lo;
        let ghost lv = self@;
        let ghost rv = rhs@;
        let e = _Binary::create(self, rhs, o, gl, gr, _BOp::Mul);
        proof {
            let ghost ev = e@;
            assert forall|s: T| #[trigger] gradient(ev, s) == map_add(
                gradient(lv, T::mul_spec(s, rv.output_spec())),
                gradient(rv, T::mul_spec(s, lv.output_spec())),
            ) by {
                if lv.is_const_spec() && rv.is_const_spec() {
                    lemma_const_gradient_empty(ev, s);
                    lemma_const_gradient_empty(lv, T::mul_spec(s, rv.output_spec()));
                    lemma_const_gradient_empty(rv, T::mul_spec(s, lv.output_spec()));
                    lemma_map_add_empty(gradient(rv, T::mul_spec(s, lv.output_spec())));
                } else if lv.is_const_spec() {
                    lemma_const_gradient_empty(lv, T::mul_spec(s, rv.output_spec()));
                    lemma_map_add_empty(gradient(rv, T::mul_spec(s, lv.output_spec())));
                } else if rv.is_const_spec() {
                    lemma_const_gradient_empty(rv, T::mul_spec(s, lv.output_spec()));
                    lemma_map_add_empty(gradient(lv, T::mul_spec(s, rv.output_spec())));
                }
            }
        }
        e
    }

    /// Division: output the quotient of the outputs.  The left local
    /// derivative is one over the right output; the right local derivative
    /// is the negated quotient over the right output, both captured when
    /// the node is built.  Division by the backend's zero is the backend's
    /// affair.
    pub fn div(self, rhs: Expr<T>) -> (e: Expr<T>)
        requires
            !(self@ is _OnlyForDrop),
            !(rhs@ is _OnlyForDrop),
        ensures
            e@.output_spec() == T::div_spec(self@.output_spec(), rhs@.output_spec()),
            forall|s: T| #[trigger] gradient(e@, s) == map_add(
                gradient(
                    self@,
                    T::mul_spec(s, T::div_spec(T::one_spec(), rhs@.output_spec())),
                ),
                gradient(
                    rhs@,
                    T::mul_spec(
                        s,
                        T::div_spec(
                            T::neg_spec(T::div_spec(self@.output_spec(), rhs@.output_spec())),
                            rhs@.output_spec(),
                        ),
                    ),
                ),
            ),
            e@.is_const_spec() == (self@.is_const_spec() && rhs@.is_const_spec()),
            e@.generation_spec() == binary_gen(self@, rhs@),
            self@.is_const_spec() && rhs@.is_const_spec() ==> e@ is Leaf,
            self@.is_const_spec() && !rhs@.is_const_spec() ==> (e@ matches _Expr::Node(
                _,
                _Node::Binary(b),
            ) && b.i matches _In::R(c) && *c == rhs@),
            !self@.is_const_spec() && rhs@.is_const_spec() ==> (e@ matches _Expr::Node(
                _,
                _Node::Binary(b),
            ) && b.i matches _In::L(c) && *c == self@),
            !self@.is_const_spec() && !rhs@.is_const_spec() ==> (e@ matches _Expr::Node(
                _,
                _Node::Binary(b),
            ) && b.i matches _In::LR { l: cl, r: cr } && *cl == self@ && *cr == rhs@),
    {
        let ro = *rhs.output();
        let o = (*self.output()).div(&ro);
        let gl = T::one().div(&ro);
        let gr = o.neg().div(&ro);
        let ghost lv = self@;
        let ghost rv = rhs@;
        let e = _Binary::create(self, rhs, o, gl, gr, _BOp::Div);
        proof {
            let ghost ev = e@;
            let ghost sl = T::div_spec(T::one_spec(), rv.output_spec());
            let ghost sr = T::div_spec(
                T::neg_spec(T::div_spec(lv.output_spec(), rv.output_spec())),
                rv.output_spec(),
            );
            assert forall|s: T| #[trigger] gradient(ev, s) == map_add(
                gradient(lv, T::mul_spec(s, sl)),
                gradient(rv, T::mul_spec(s, sr)),
            ) by {
                if lv.is_const_spec() && rv.is_const_spec() {
                    lemma_const_gradient_empty(ev, s);
                    lemma_const_gradient_empty(lv, T::mul_spec(s, sl));
                    lemma_const_gradient_empty(rv, T::mul_spec(s, sr));
                    lemma_map_add_empty(gradient(rv, T::mul_spec(s, sr)));
                } else if lv.is_const_spec() {
                    lemma_const_gradient_empty(lv, T::mul_spec(s, sl));
                    lemma_map_add_empty(gradient(rv, T::mul_spec(s, sr)));
                } else if rv.is_const_spec() {
                    lemma_const_gradient_empty(rv, T::mul_spec(s, sr));
                    lemma_map_add_empty(gradient(lv, T::mul_spec(s, sl)));
                }
            }
        }
        e
    }

    /// Addition with a borrowed right operand, which is cloned.
    pub fn add_ref(self, rhs: &Expr<T>) -> (e: Expr<T>)
        requires
            !(self@ is _OnlyForDrop),
            !(rhs@ is _OnlyForDrop),
        ensures
            e@.output_spec() == T::add_spec(self@.output_spec(), rhs@.output_spec()),
            forall|s: T| #[trigger] gradient(e@, s) == map_add(
                gradient(self@, s),
                gradient(rhs@, s),
            ),
            e@.is_const_spec() == (self@.is_const_spec() && rhs@.is_const_spec()),
            e@.generation_spec() == binary_gen(self@, rhs@),
    {
        self.add(rhs.clone())
    }

    /// Subtraction with a borrowed right operand, which is cloned.
    pub fn sub_ref(self, rhs: &Expr<T>) -> (e: Expr<T>)
        requires
            !(self@ is _OnlyForDrop),
            !(rhs@ is _OnlyForDrop),
        ensures
            e@.output_spec() == T::sub_spec(self@.output_spec(), rhs@.output_spec()),
            forall|s: T| #[trigger] gradient(e@, s) == map_add(
                gradient(self@, s),
                gradient(rhs@, T::neg_spec(s)),
            ),
            e@.is_const_spec() == (self@.is_const_spec() && rhs@.is_const_spec()),
            e@.generation_spec() == binary_gen(self@, rhs@),
    {
        self.sub(rhs.clone())
    }

    /// Multiplication with a borrowed right operand, which is cloned.
    pub fn mul_ref(self, rhs: &Expr<T>) -> (e: Expr<T>)
        requires
            !(self@ is _OnlyForDrop),
            !(rhs@ is _OnlyForDrop),
        ensures
            e@.output_spec() == T::mul_spec(self@.output_spec(), rhs@.output_spec()),
            forall|s: T| #[trigger] gradient(e@, s) == map_add(
                gradient(self@, T::mul_spec(s, rhs@.output_spec())),
                gradient(rhs@, T::mul_spec(s, self@.output_spec())),
            ),
            e@.is_const_spec() == (self@.is_const_spec() && rhs@.is_const_spec()),
            e@.generation_spec() == binary_gen(self@, rhs@),
    {
        self.mul(rhs.clone())
    }

    /// Division with a borrowed right operand, which is cloned.
    pub fn div_ref(self, rhs: &Expr<T>) -> (e: Expr<T>)
        requires
            !(self@ is _OnlyForDrop),
            !(rhs@ is _OnlyForDrop),
        ensures
            e@.output_spec() == T::div_spec(self@.output_spec(), rhs@.output_spec()),
            forall|s: T| #[trigger] gradient(e@, s) == map_add(
                gradient(
                    self@,
                    T::mul_spec(s, T::div_spec(T::one_spec(), rhs@.output_spec())),
                ),
                gradient(
                    rhs@,
                    T::mul_spec(
                        s,
                        T::div_spec(
                            T::neg_spec(T::div_spec(self@.output_spec(), rhs@.output_spec())),
                            rhs@.output_spec(),
                        ),
                    ),
                ),
            ),
            e@.is_const_spec() == (self@.is_const_spec() && rhs@.is_const_spec()),
            e@.generation_spec() == binary_gen(self@, rhs@),
    {
        self.div(rhs.clone())
    }

    /// Addition with a raw scalar, lifted to a constant leaf first.  A
    /// constant moves no gradient: the sum differentiates as the left
    /// operand does.
    pub fn add_scalar(self, rhs: T) -> (e: Expr<T>)
        requires
            !(self@ is _OnlyForDrop),
        ensures
            e@.output_spec() == T::add_spec(self@.output_spec(), rhs),
            forall|s: T| #[trigger] gradient(e@, s) == gradient(self@, s),
            e@.is_const_spec() == self@.is_const_spec(),
    {
        let ghost lv = self@;
        let e = self.add(Expr::constant(rhs));
        proof {
            let ghost ev = e@;
            assert forall|s: T| #[trigger] gradient(ev, s) == gradient(lv, s) by {
                lemma_const_gradient_empty(_Expr::Leaf(_Leaf::Const(rhs)), s);
                lemma_map_add_empty(gradient(lv, s));
            }
        }
        e
    }

    /// Subtraction of a raw scalar, lifted to a constant leaf first.
    pub fn sub_scalar(self, rhs: T) -> (e: Expr<T>)
        requires
            !(self@ is _OnlyForDrop),
        ensures
            e@.output_spec() == T::sub_spec(self@.output_spec(), rhs),
            forall|s: T| #[trigger] gradient(e@, s) == gradient(self@, s),
            e@.is_const_spec() == self@.is_const_spec(),
    {
        let ghost lv = self@;
        let e = self.sub(Expr::constant(rhs));
        proof {
            let ghost ev = e@;
            assert forall|s: T| #[trigger] gradient(ev, s) == gradient(lv, s) by {
                lemma_const_gradient_empty(_Expr::Leaf(_Leaf::Const(rhs)), T::neg_spec(s));
                lemma_map_add_empty(gradient(lv, s));
            }
        }
        e
    }

    /// Multiplication by a raw scalar, lifted to a constant leaf first.
    /// The gradient of the product is the operand's gradient under the
    /// seed multiplied by the scalar.
    pub fn mul_scalar(self, rhs: T) -> (e: Expr<T>)
        requires
            !(self@ is _OnlyForDrop),
        ensures
            e@.output_spec() == T::mul_spec(self@.output_spec(), rhs),
            forall|s: T| #[trigger] gradient(e@, s) == gradient(self@, T::mul_spec(s, rhs)),
            e@.is_const_spec() == self@.is_const_spec(),
    {
        let ghost lv = self@;
        let e = self.mul(Expr::constant(rhs));
        proof {
            let ghost ev = e@;
            assert forall|s: T| #[trigger] gradient(ev, s) == gradient(lv, T::mul_spec(s, rhs)) by {
                lemma_const_gradient_empty(
                    _Expr::Leaf(_Leaf::Const(rhs)),
                    T::mul_spec(s, lv.output_spec()),
                );
                lemma_map_add_empty(gradient(lv, T::mul_spec(s, rhs)));
            }
        }
        e
    }

    /// Division by a raw scalar, lifted to a constant leaf first.
    pub fn div_scalar(self, rhs: T) -> (e: Expr<T>)
        requires
            !(self@ is _OnlyForDrop),
        ensures
            e@.output_spec() == T::div_spec(self@.output_spec(), rhs),
            forall|s: T| #[trigger] gradient(e@, s) == gradient(
                self@,
                T::mul_spec(s, T::div_spec(T::one_spec(), rhs)),
            ),
            e@.is_const_spec() == self@.is_const_spec(),
    {
        let ghost lv = self@;
        let e = self.div(Expr::constant(rhs));
        proof {
            let ghost ev = e@;
            assert forall|s: T| #[trigger] gradient(ev, s) == gradient(
                lv,
                T::mul_spec(s, T::div_spec(T::one_spec(), rhs)),
            ) by {
                lemma_const_gradient_empty(
                    _Expr::Leaf(_Leaf::Const(rhs)),
                    T::mul_spec(
                        s,
                        T::div_spec(T::neg_spec(T::div_spec(lv.output_spec(), rhs)), rhs),
                    ),
                );
                lemma_map_add_empty(
                    gradient(lv, T::mul_spec(s, T::div_spec(T::one_spec(), rhs))),
                );
            }
        }
        e
    }

    /// In-place addition: the expression becomes the sum of its old value
    /// and `rhs`.
    pub fn add_assign(&mut self, rhs: Expr<T>)
        requires
            !(old(self)@ is _OnlyForDrop),
            !(rhs@ is _OnlyForDrop),
        ensures
            final(self)@.output_spec() == T::add_spec(
                old(self)@.output_spec(),
                rhs@.output_spec(),
            ),
            forall|s: T| #[trigger] gradient(final(self)@, s) == map_add(
                gradient(old(self)@, s),
                gradient(rhs@, s),
            ),
            final(self)@.is_const_spec() == (old(self)@.is_const_spec()
                && rhs@.is_const_spec()),
            final(self)@.generation_spec() == binary_gen(old(self)@, rhs@),
    {
        let mut tmp = Expr::from_inner(_Expr::_OnlyForDrop);
        std::mem::swap(self, &mut tmp);
        *self = tmp.add(rhs);
    }

    /// In-place subtraction: the expression becomes the difference of its
    /// old value and `rhs`.
    pub fn sub_assign(&mut self, rhs: Expr<T>)
        requires
            !(old(self)@ is _OnlyForDrop),
            !(rhs@ is _OnlyForDrop),
        ensures
            final(self)@.output_spec() == T::sub_spec(
                old(self)@.output_spec(),
                rhs@.output_spec(),
            ),
            forall|s: T| #[trigger] gradient(final(self)@, s) == map_add(
                gradient(old(self)@, s),
                gradient(rhs@, T::neg_spec(s)),
            ),
            final(self)@.is_const_spec() == (old(self)@.is_const_spec()
                && rhs@.is_const_spec()),
            final(self)@.generation_spec() == binary_gen(old(self)@, rhs@),
    {
        let mut tmp = Expr::from_inner(_Expr::_OnlyForDrop);
        std::mem::swap(self, &mut tmp);
        *self = tmp.sub(rhs);
    }

    /// In-place multiplication: the expression becomes the product of its
    /// old value and `rhs`.
    pub fn mul_assign(&mut self, rhs: Expr<T>)
        requires
            !(old(self)@ is _OnlyForDrop),
            !(rhs@ is _OnlyForDrop),
        ensures
            final(self)@.output_spec() == T::mul_spec(
                old(self)@.output_spec(),
                rhs@.output_spec(),
            ),
            forall|s: T| #[trigger] gradient(final(self)@, s) == map_add(
                gradient(old(self)@, T::mul_spec(s, rhs@.output_spec())),
                gradient(rhs@, T::mul_spec(s, old(self)@.output_spec())),
            ),
            final(self)@.is_const_spec() == (old(self)@.is_const_spec()
                && rhs@.is_const_spec()),
            final(self)@.generation_spec() == binary_gen(old(self)@, rhs@),
    {
        let mut tmp = Expr::from_inner(_Expr::_OnlyForDrop);
        std::mem::swap(self, &mut tmp);
        *self = tmp.mul(rhs);
    }

    /// In-place division: the expression becomes the quotient of its old
    /// value and `rhs`.
    pub fn div_assign(&mut self, rhs: Expr<T>)
        requires
            !(old(self)@ is _OnlyForDrop),
            !(rhs@ is _OnlyForDrop),
        ensures
            final(self)@.output_spec() == T::div_spec(
                old(self)@.output_spec(),
                rhs@.output_spec(),
            ),
            forall|s: T| #[trigger] gradient(final(self)@, s) == map_add(
                gradient(
                    old(self)@,
                    T::mul_spec(s, T::div_spec(T::one_spec(), rhs@.output_spec())),
                ),
                gradient(
                    rhs@,
                    T::mul_spec(
                        s,
                        T::div_spec(
                            T::neg_spec(
                                T::div_spec(old(self)@.output_spec(), rhs@.output_spec()),
                            ),
                            rhs@.output_spec(),
                        ),
                    ),
                ),
            ),
            final(self)@.is_const_spec() == (old(self)@.is_const_spec()
                && rhs@.is_const_spec()),
            final(self)@.generation_spec() == binary_gen(old(self)@, rhs@),
    {
        let mut tmp = Expr::from_inner(_Expr::_OnlyForDrop);
        std::mem::swap(self, &mut tmp);
        *self = tmp.div(rhs);
    }
}

} // verus!
