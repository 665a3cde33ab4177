use vstd::prelude::*;
use std::rc::Rc;
use crate::expr::_Expr;
use crate::expr::_Node;
use crate::binary::_Binary;
use crate::binary::_In;
use crate::unary::_Unary;

verus! {

/// Relies on Box::new, whose documentation lists no panics (allocation
/// failure aborts rather than unwinds), so destructors may call it.
#[verifier::external_body]
pub(crate) fn box_new<A>(v: A) -> (r: Box<A>)
    ensures
        *r == v,
    opens_invariants none
    no_unwind
{
    Box::new(v)
}

/// Relies on Rc::try_unwrap, whose documentation lists no panics: it
/// returns the inner value when the argument was the only strong reference,
/// and otherwise hands the same reference-counted pointer back.
#[verifier::external_body]
pub(crate) fn rc_take<A>(rc: Rc<A>) -> (r: Result<A, Rc<A>>)
    ensures
        match r {
            Ok(v) => v == rc,
            Err(e) => e == rc,
        },
    opens_invariants none
    no_unwind
{
    Rc::try_unwrap(rc)
}

/// Relies on Rc::clone: the returned pointer shares the same allocation,
/// so it carries the same value.
#[verifier::external_body]
pub(crate) fn rc_dup<A>(rc: &Rc<A>) -> (r: Rc<A>)
    ensures
        r == *rc,
{
    Rc::clone(rc)
}

/// The worklist of a teardown: a stack kept on the heap, so that no
/// recursion is needed however deep the dismantled graph is.
enum Work<T> {
    Done,
    More(Box<(_Expr<T>, Work<T>)>),
}

spec fn work_size<T>(w: Work<T>) -> nat
    decreases w,
{
    match w {
        Work::Done => 0,
        Work::More(b) => crate::expr::size(b.0) + work_size(b.1),
    }
}

/// Tears a graph down without recursive destructor calls.
///
/// An expression popped from the worklist gives up each of its operand
/// edges: an operand whose last owner it was is moved onto the worklist,
/// one that other parents still own is merely released.  Every expression
/// is dropped only after its edges are gone, so the native stack stays
/// flat no matter how deep the graph is.
pub(crate) fn dismantle<T>(e: _Expr<T>)
    opens_invariants none
    no_unwind
{
    match &e {
        _Expr::_OnlyForDrop => {
            return ;
        },
        _Expr::Leaf(_) => {
            return ;
        },
        _Expr::Compressed { .. } => {
            return ;
        },
        _Expr::Node(..) => {},
    }
    let mut work: Work<T> = Work::More(box_new((e, Work::Done)));
    loop
        decreases work_size(work),
    {
        let ghost start = work_size(work);
        let next = match work {
            Work::Done => {
                break ;
            },
            Work::More(b) => {
                let (t, rest) = *b;
                work = rest;
                t
            },
        };
        proof {
            assert(work_size(work) + crate::expr::size(next) == start);
        }
        match next {
            _Expr::_OnlyForDrop => {},
            _Expr::Leaf(_) => {},
            _Expr::Compressed { .. } => {},
            _Expr::Node(_, n) => {
                proof {
                    assert(crate::expr::size(next) == 1 + crate::expr::node_size(n));
                }
                match n {
                    _Node::Unary(u) => {
                        let _Unary { i, .. } = u;
                        push_owned(&mut work, i);
                        proof {
                            assert(work_size(work) < start);
                        }
                    },
                    _Node::Binary(b) => {
                        let _Binary { i, .. } = b;
                        match i {
                            _In::L(l) => {
                                push_owned(&mut work, l);
                            },
                            _In::R(r) => {
                                push_owned(&mut work, r);
                            },
                            _In::LR { l, r } => {
                                let ghost mid = work_size(work);
                                push_owned(&mut work, l);
                                proof {
                                    assert(work_size(work) <= mid + crate::expr::size(*l));
                                }
                                push_owned(&mut work, r);
                            },
                        }
                        proof {
                            assert(work_size(work) < start);
                        }
                    },
                }
            },
        }
    }
}

/// Reclaims one operand edge: when this was the last owner, the operand
/// goes onto the worklist; otherwise the remaining parents keep it.
fn push_owned<T>(work: &mut Work<T>, edge: Rc<_Expr<T>>)
    ensures
        work_size(*final(work)) <= work_size(*old(work)) + crate::expr::size(*edge),
    opens_invariants none
    no_unwind
{
    match rc_take(edge) {
        Ok(t) => {
            let ghost prev = work_size(*work);
            let mut tmp = Work::Done;
            std::mem::swap(work, &mut tmp);
            let b = box_new((t, tmp));
            proof {
                assert(work_size((*b).1) == prev);
            }
            *work = Work::More(b);
        },
        Err(_) => {},
    }
}

} // verus!
