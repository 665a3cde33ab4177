use vstd::prelude::*;
use crate::binary::_Binary;
use crate::binary::_In;
use crate::grads::GradMap;
use crate::grads::lemma_acc_entry_is_map_add;
use crate::grads::lemma_map_add_assoc;
use crate::grads::lemma_map_add_comm;
use crate::grads::lemma_map_add_empty;
use crate::grads::map_add;
use crate::grads::scale_map;
use crate::scalar::Scalar;
use crate::teardown::dismantle;
use crate::unary::_Unary;
use crate::var::Id;
use crate::var::Var;

verus! {

/// A leaf of the graph: an input variable, or a constant whose gradient
/// contribution to every input is zero.
#[derive(Clone, Copy)]
pub enum _Leaf<T> {
    Var(Var<T>),
    Const(T),
}

impl<T> _Leaf<T> {
    /// The value the leaf carries.
    pub open spec fn val_spec(self) -> T {
        match self {
            _Leaf::Var(v) => v.val,
            _Leaf::Const(c) => c,
        }
    }

    pub open spec fn is_const_spec(self) -> bool {
        self is Const
    }

    pub fn val(&self) -> (r: &T)
        ensures
            *r == self.val_spec(),
    {
        match self {
            _Leaf::Var(v) => v.val(),
            _Leaf::Const(c) => c,
        }
    }

    pub fn is_const(&self) -> (r: bool)
        ensures
            r == self.is_const_spec(),
    {
        matches!(self, _Leaf::Const(_))
    }
}

/// An interior node: a unary or binary operation with its cached output
/// and cached local derivatives.
pub enum _Node<T> {
    Unary(_Unary<T>),
    Binary(_Binary<T>),
}

impl<T> _Node<T> {
    /// The output cached when the node was built.
    pub open spec fn output_spec(self) -> T {
        match self {
            _Node::Unary(u) => u.o,
            _Node::Binary(b) => b.o,
        }
    }

    pub fn output(&self) -> (r: &T)
        ensures
            *r == self.output_spec(),
    {
        match self {
            _Node::Unary(u) => u.output(),
            _Node::Binary(b) => b.output(),
        }
    }

    /// An interior node is never constant: an operation whose operands are
    /// all constants is folded to a constant leaf when it is built, so no
    /// node for it ever exists.
    pub fn is_const(&self) -> (r: bool)
        ensures
            r == false,
    {
        false
    }
}

impl<T: Copy> Clone for _Node<T> {
    /// A clone shares the node's operand edges and copies its caches.
    fn clone(&self) -> (r: Self)
        ensures
            r == *self,
    {
        match self {
            _Node::Unary(u) => _Node::Unary(u.clone()),
            _Node::Binary(b) => _Node::Binary(b.clone()),
        }
    }
}

impl<T: Scalar> _Node<T> {
    /// Pushes the worklist entries of the node's stored operands.
    pub fn push_grads<'a>(&'a self, grads: &mut Vec<(&'a _Expr<T>, T)>, grad: T)
        ensures
            pending(final(grads)@) == map_add(pending(old(grads)@), node_grad(*self, grad)),
            work_measure(final(grads)@) <= work_measure(old(grads)@) + node_size(*self),
    {
        match self {
            _Node::Unary(u) => u.push_grads(grads, grad),
            _Node::Binary(b) => b.push_grads(grads, grad),
        }
    }
}

/// One expression of the graph.
///
/// `_OnlyForDrop` is a transient placeholder that only ever sits in a slot
/// whose real value has been moved out during destruction or compaction;
/// no caller-visible expression carries it.
pub enum _Expr<T> {
    _OnlyForDrop,
    Leaf(_Leaf<T>),
    Node(usize, _Node<T>),
    Compressed { generation: usize, output: T, grads: GradMap<T> },
}

/// How many expressions a tree holds; the measure that bounds every
/// traversal and teardown.
pub open spec fn size<T>(e: _Expr<T>) -> nat
    decreases e,
{
    match e {
        _Expr::_OnlyForDrop => 1,
        _Expr::Leaf(_) => 1,
        _Expr::Node(_, n) => 1 + node_size(n),
        _Expr::Compressed { .. } => 1,
    }
}

/// The sizes of the operands a node stores.
pub open spec fn node_size<T>(n: _Node<T>) -> nat
    decreases n,
{
    match n {
        _Node::Unary(u) => size(*u.i),
        _Node::Binary(b) => match b.i {
            _In::L(l) => size(*l),
            _In::R(r) => size(*r),
            _In::LR { l, r } => size(*l) + size(*r),
        },
    }
}

/// The generation of a node built on top of `g`: one more, saturating at
/// the top of `usize` (a graph that deep cannot exist in memory).
pub open spec fn bump(g: usize) -> usize {
    if g < usize::MAX {
        (g + 1) as usize
    } else {
        g
    }
}

/// The reverse-mode gradient of an expression: for every input variable the
/// tree reaches, the partial derivative of the root with respect to it,
/// multiplied by `seed`.
///
/// A variable contributes the incoming seed under its identity; a constant
/// contributes nothing; an interior node passes to each stored operand the
/// seed multiplied by the cached local derivative, and a binary node with
/// two stored operands takes the pointwise sum of both sides; a compressed
/// snapshot contributes its stored gradients scaled by the seed.  Summing
/// over a shared operand once per owner is exactly the chain rule: the
/// derivative is the sum over all root-to-variable paths.
pub open spec fn gradient<T: Scalar>(e: _Expr<T>, seed: T) -> Map<Id, T>
    decreases e,
{
    match e {
        _Expr::_OnlyForDrop => Map::empty(),
        _Expr::Leaf(l) => match l {
            _Leaf::Var(v) => Map::empty().insert(v.id, seed),
            _Leaf::Const(_) => Map::empty(),
        },
        _Expr::Node(_, n) => match n {
            _Node::Unary(u) => ugrad(u, seed),
            _Node::Binary(b) => bgrad(b, seed),
        },
        _Expr::Compressed { grads, .. } => scale_map(seed, grads@),
    }
}

/// The gradient contributed through a unary node: the seed picks up the
/// cached local derivative on its way into the operand.
pub open spec fn ugrad<T: Scalar>(u: _Unary<T>, seed: T) -> Map<Id, T>
    decreases u,
{
    gradient(*u.i, T::mul_spec(seed, u.g))
}

/// The gradient contributed through a binary node: each stored side gets
/// the seed multiplied by its cached local derivative, and two stored
/// sides are summed pointwise.
pub open spec fn bgrad<T: Scalar>(b: _Binary<T>, seed: T) -> Map<Id, T>
    decreases b,
{
    match b.i {
        _In::L(l) => gradient(*l, T::mul_spec(seed, b.gl)),
        _In::R(r) => gradient(*r, T::mul_spec(seed, b.gr)),
        _In::LR { l, r } => map_add(
            gradient(*l, T::mul_spec(seed, b.gl)),
            gradient(*r, T::mul_spec(seed, b.gr)),
        ),
    }
}

/// What a traversal worklist still owes: the pointwise sum of the
/// gradients of every entry, each under its recorded incoming seed.
pub open spec fn pending<T: Scalar>(s: Seq<(&_Expr<T>, T)>) -> Map<Id, T>
    decreases s.len(),
{
    if s.len() == 0 {
        Map::empty()
    } else {
        map_add(pending(s.drop_last()), gradient(*s.last().0, s.last().1))
    }
}

/// The sizes of the expressions a traversal worklist still has to visit;
/// the measure that shows the traversal terminates.
pub open spec fn work_measure<T: Scalar>(s: Seq<(&_Expr<T>, T)>) -> nat
    decreases s.len(),
{
    if s.len() == 0 {
        0
    } else {
        work_measure(s.drop_last()) + size(*s.last().0)
    }
}

/// The gradient contributed through an interior node.
pub open spec fn node_grad<T: Scalar>(n: _Node<T>, seed: T) -> Map<Id, T> {
    match n {
        _Node::Unary(u) => ugrad(u, seed),
        _Node::Binary(b) => bgrad(b, seed),
    }
}

/// A constant expression has an empty gradient, whatever the seed.
pub proof fn lemma_const_gradient_empty<T: Scalar>(e: _Expr<T>, s: T)
    requires
        e.is_const_spec(),
    ensures
        gradient(e, s) == Map::<Id, T>::empty(),
{
    match e {
        _Expr::Compressed { grads, .. } => {
            assert(scale_map(s, grads@) =~= Map::<Id, T>::empty());
        },
        _ => {
            assert(gradient(e, s) =~= Map::<Id, T>::empty());
        },
    }
}

impl<T> _Expr<T> {
    /// The forward value: what a leaf carries, what a node or snapshot
    /// cached.  Undefined on the transient placeholder, which no caller
    /// ever observes.
    pub open spec fn output_spec(self) -> T {
        match self {
            _Expr::_OnlyForDrop => arbitrary(),
            _Expr::Leaf(l) => l.val_spec(),
            _Expr::Node(_, n) => n.output_spec(),
            _Expr::Compressed { output, .. } => output,
        }
    }

    pub open spec fn generation_spec(self) -> usize {
        match self {
            _Expr::_OnlyForDrop => 0,
            _Expr::Leaf(_) => 0,
            _Expr::Node(g, _) => g,
            _Expr::Compressed { generation, .. } => generation,
        }
    }

    /// Whether the expression is a constant: a constant leaf, or a
    /// compressed snapshot that reaches no variable.  Interior nodes never
    /// are, because constant operations are folded when they are built.
    pub open spec fn is_const_spec(self) -> bool {
        match self {
            _Expr::_OnlyForDrop => true,
            _Expr::Leaf(l) => l.is_const_spec(),
            _Expr::Node(_, _) => false,
            _Expr::Compressed { grads, .. } => grads@.dom() =~= Set::<Id>::empty(),
        }
    }

    pub fn constant(val: T) -> (e: Self)
        ensures
            e == _Expr::Leaf(_Leaf::Const(val)),
    {
        _Expr::Leaf(_Leaf::Const(val))
    }

    pub fn as_var(&self) -> (r: Option<&Var<T>>)
        ensures
            match r {
                Some(v) => *self matches _Expr::Leaf(_Leaf::Var(v2)) && v2 == *v,
                None => !(*self matches _Expr::Leaf(_Leaf::Var(_))),
            },
    {
        if let _Expr::Leaf(_Leaf::Var(v)) = self {
            Some(v)
        } else {
            None
        }
    }

    pub fn output(&self) -> (r: &T)
        requires
            !(*self is _OnlyForDrop),
        ensures
            *r == self.output_spec(),
    {
        match self {
            _Expr::_OnlyForDrop => unreached(),
            _Expr::Leaf(l) => l.val(),
            _Expr::Node(_, n) => n.output(),
            _Expr::Compressed { output, .. } => output,
        }
    }

    pub fn generation(&self) -> (r: usize)
        ensures
            r == self.generation_spec(),
    {
        match self {
            _Expr::_OnlyForDrop => 0,
            _Expr::Leaf(_) => 0,
            _Expr::Node(g, _) => *g,
            _Expr::Compressed { generation, .. } => *generation,
        }
    }

    pub fn is_const(&self) -> (r: bool)
        ensures
            r == self.is_const_spec(),
    {
        match self {
            _Expr::_OnlyForDrop => true,
            _Expr::Leaf(l) => l.is_const(),
            _Expr::Node(_, _) => false,
            _Expr::Compressed { grads, .. } => grads.is_empty(),
        }
    }
}

impl<T: Scalar> _Expr<T> {
    /// Reverse traversal with an explicit worklist: every popped entry is a
    /// still-owed contribution; a variable folds its seed into the result,
    /// an interior node hands its operands on with the seed multiplied by
    /// the cached local derivatives, and a snapshot folds its stored
    /// gradients in scaled by the seed.  No recursion: the graph may be
    /// deeper than the native call stack.
    pub fn grads_with_seed(&self, seed: T) -> (r: GradMap<T>)
        ensures
            r@ == gradient(*self, seed),
    {
        let mut res = GradMap::new();
        let mut nodes: Vec<(&_Expr<T>, T)> = Vec::new();
        nodes.push((self, seed));
        proof {
            let sv = *self;
            assert(res@ == Map::<Id, T>::empty());
            assert(nodes@.len() == 1);
            assert(nodes@.drop_last() =~= Seq::<(&_Expr<T>, T)>::empty());
            assert(pending(nodes@.drop_last()) == Map::<Id, T>::empty());
            assert(*nodes@.last().0 == sv);
            assert(nodes@.last().1 == seed);
            assert(pending(nodes@) == map_add(Map::<Id, T>::empty(), gradient(sv, seed)));
            lemma_map_add_empty(gradient(sv, seed));
            assert(pending(nodes@) == gradient(sv, seed));
            lemma_map_add_empty(pending(nodes@));
            assert(map_add(res@, pending(nodes@)) == gradient(sv, seed));
        }
        loop
            invariant
                map_add(res@, pending(nodes@)) == gradient(*self, seed),
            ensures
                nodes@.len() == 0,
                map_add(res@, pending(nodes@)) == gradient(*self, seed),
            decreases work_measure(nodes@),
        {
            let ghost start_nodes = nodes@;
            let ghost start_res = res@;
            let (node, grad) = match nodes.pop() {
                Some(p) => p,
                None => {
                    break ;
                },
            };
            proof {
                assert(start_nodes.drop_last() == nodes@);
                assert(pending(start_nodes) == map_add(
                    pending(nodes@),
                    gradient(*node, grad),
                ));
                assert(work_measure(start_nodes) == work_measure(nodes@) + size(*node));
            }
            match node {
                _Expr::_OnlyForDrop => {
                    proof {
                        let nv = *node;
                        lemma_unpop_step(start_res, pending(nodes@), gradient(nv, grad));
                        lemma_const_gradient_empty(nv, grad);
                        lemma_map_add_empty(pending(nodes@));
                        lemma_map_add_comm(pending(nodes@), Map::<Id, T>::empty());
                    }
                },
                _Expr::Leaf(l) => match l {
                    _Leaf::Var(v) => {
                        res.insert_add(v.id, grad);
                        proof {
                            let nv = *node;
                            lemma_unpop_step(start_res, pending(nodes@), gradient(nv, grad));
                            lemma_acc_entry_is_map_add(start_res, v.id, grad);
                            lemma_map_add_assoc(
                                start_res,
                                Map::empty().insert(v.id, grad),
                                pending(nodes@),
                            );
                            assert(gradient(*node, grad) =~= Map::empty().insert(v.id, grad));
                        }
                    },
                    _Leaf::Const(_) => {
                        proof {
                            let nv = *node;
                            lemma_unpop_step(start_res, pending(nodes@), gradient(nv, grad));
                            lemma_const_gradient_empty(nv, grad);
                            lemma_map_add_empty(pending(nodes@));
                            lemma_map_add_comm(pending(nodes@), Map::<Id, T>::empty());
                        }
                    },
                },
                _Expr::Node(_, n) => {
                    n.push_grads(&mut nodes, grad);
                    proof {
                        let nv = *node;
                        lemma_unpop_step(start_res, pending(start_nodes.drop_last()), gradient(
                            nv,
                            grad,
                        ));
                    }
                },
                _Expr::Compressed { grads: g, .. } => {
                    res.add_scaled_from(grad, g);
                    proof {
                        let nv = *node;
                        lemma_unpop_step(start_res, pending(nodes@), gradient(nv, grad));
                        lemma_map_add_assoc(start_res, scale_map(grad, g@), pending(nodes@));
                    }
                },
            }
        }
        proof {
            lemma_map_add_empty(res@);
        }
        res
    }

    /// The gradient map with seed one: for every variable the expression
    /// reaches, the partial derivative of the root with respect to it.
    pub fn grads(&self) -> (r: GradMap<T>)
        ensures
            r@ == gradient(*self, T::one_spec()),
    {
        self.grads_with_seed(T::one())
    }

    /// The gradient map with seed one, under the name the handle exposes.
    pub fn der(&self) -> (r: GradMap<T>)
        ensures
            r@ == gradient(*self, T::one_spec()),
    {
        self.grads()
    }
}

/// Rearranges one traversal step: folding a popped contribution into the
/// result leaves the total owed amount unchanged.
proof fn lemma_unpop_step<T: Scalar>(res: Map<Id, T>, rest: Map<Id, T>, popped: Map<Id, T>)
    ensures
        map_add(res, map_add(rest, popped)) == map_add(map_add(res, popped), rest),
{
    lemma_map_add_comm(rest, popped);
    lemma_map_add_assoc(res, popped, rest);
}

/// The user-facing handle: it owns its top-level expression by value, while
/// operand edges inside the graph are shared.  Dropping a handle tears the
/// uniquely owned part of its graph down iteratively.
pub struct Expr<T>(pub(crate) _Expr<T>);

impl<T> View for Expr<T> {
    type V = _Expr<T>;

    closed spec fn view(&self) -> _Expr<T> {
        self.0
    }
}

impl<T> Expr<T> {
    pub(crate) fn from_inner(e: _Expr<T>) -> (r: Self)
        ensures
            r@ == e,
    {
        Expr(e)
    }

    pub(crate) fn from_var(v: Var<T>) -> (r: Self)
        ensures
            r@ == _Expr::Leaf(_Leaf::Var(v)),
    {
        Expr(_Expr::Leaf(_Leaf::Var(v)))
    }

    pub fn constant(val: T) -> (e: Self)
        ensures
            e@ == _Expr::Leaf(_Leaf::Const(val)),
    {
        Expr(_Expr::constant(val))
    }

    /// Moves the expression out of the handle, leaving the transient
    /// placeholder behind for the destructor to ignore.
    pub(crate) fn _take(self) -> (e: _Expr<T>)
        ensures
            e == self@,
    {
        let mut this = self;
        let mut tmp = _Expr::_OnlyForDrop;
        std::mem::swap(&mut this.0, &mut tmp);
        tmp
    }

    pub fn output(&self) -> (r: &T)
        requires
            !(self@ is _OnlyForDrop),
        ensures
            *r == self@.output_spec(),
    {
        self.0.output()
    }

    pub fn generation(&self) -> (r: usize)
        ensures
            r == self@.generation_spec(),
    {
        self.0.generation()
    }

    pub fn is_const(&self) -> (r: bool)
        ensures
            r == self@.is_const_spec(),
    {
        self.0.is_const()
    }

    pub fn as_var(&self) -> (r: Option<&Var<T>>)
        ensures
            match r {
                Some(v) => self@ matches _Expr::Leaf(_Leaf::Var(v2)) && v2 == *v,
                None => !(self@ matches _Expr::Leaf(_Leaf::Var(_))),
            },
    {
        self.0.as_var()
    }
}

impl<T> Drop for Expr<T> {
    /// Destruction must not recurse through operand edges: a graph can be
    /// deeper than the native call stack.
    fn drop(&mut self)
        opens_invariants none
        no_unwind
    {
        if matches!(self.0, _Expr::Node(..)) {
            let mut taken = _Expr::_OnlyForDrop;
            std::mem::swap(&mut self.0, &mut taken);
            dismantle(taken);
        }
    }
}

impl<T: Scalar> Expr<T> {
    /// The constant zero.
    pub fn zero() -> (e: Self)
        ensures
            e@ == _Expr::Leaf(_Leaf::Const(T::zero_spec())),
    {
        Expr::constant(T::zero())
    }

    /// The constant one.
    pub fn one() -> (e: Self)
        ensures
            e@ == _Expr::Leaf(_Leaf::Const(T::one_spec())),
    {
        Expr::constant(T::one())
    }

    /// Whether the output equals the scalar zero, by the backend's own
    /// equality.
    pub fn is_zero(&self) -> (r: bool)
        requires
            !(self@ is _OnlyForDrop),
        ensures
            r == T::eq_spec(self@.output_spec(), T::zero_spec()),
    {
        self.output().eq_val(&T::zero())
    }

    /// Whether the output equals the scalar one, by the backend's own
    /// equality.
    pub fn is_one(&self) -> (r: bool)
        requires
            !(self@ is _OnlyForDrop),
        ensures
            r == T::eq_spec(self@.output_spec(), T::one_spec()),
    {
        self.output().eq_val(&T::one())
    }

    /// Whether this expression's output comes no later than the other's in
    /// the backend's order.  Like equality, order looks at the outputs
    /// alone, never at graph structure.
    pub fn le(&self, other: &Expr<T>) -> (r: bool)
        requires
            !(self@ is _OnlyForDrop),
            !(other@ is _OnlyForDrop),
        ensures
            r == T::le_spec(self@.output_spec(), other@.output_spec()),
    {
        self.output().le_val(other.output())
    }

    /// The gradient of the expression under `seed`: for every variable it
    /// reaches, `seed` times the partial derivative of the root with
    /// respect to that variable, at the values captured when the graph was
    /// built.
    pub fn grads_with_seed(&self, seed: T) -> (r: GradMap<T>)
        ensures
            r@ == gradient(self@, seed),
    {
        self.0.grads_with_seed(seed)
    }

    /// The gradient of the expression, with seed one.
    pub fn grads(&self) -> (r: GradMap<T>)
        ensures
            r@ == gradient(self@, T::one_spec()),
    {
        self.0.grads_with_seed(T::one())
    }

    /// The gradient of the expression, with seed one.
    pub fn der(&self) -> (r: GradMap<T>)
        ensures
            r@ == gradient(self@, T::one_spec()),
    {
        self.0.der()
    }

    /// Replaces the expression in place by a compressed snapshot: the
    /// cached output, the generation, and the gradient map with seed one.
    /// The snapshot is equivalent to the graph it replaces: the output is
    /// unchanged, and the gradient under every seed is preserved.  The old
    /// graph is dismantled iteratively.
    pub fn compress(&mut self)
        requires
            !(old(self)@ is _OnlyForDrop),
        ensures
            final(self)@ is Compressed,
            final(self)@.output_spec() == old(self)@.output_spec(),
            final(self)@.generation_spec() == old(self)@.generation_spec(),
            forall|s: T| #[trigger] gradient(final(self)@, s) == gradient(old(self)@, s),
            final(self)@.is_const_spec() == (gradient(old(self)@, T::one_spec()).dom()
                =~= Set::<Id>::empty()),
    {
        let g = self.0.grads_with_seed(T::one());
        let o = *self.output();
        let gen = self.generation();
        let mut taken = _Expr::_OnlyForDrop;
        std::mem::swap(&mut self.0, &mut taken);
        self.0 = _Expr::Compressed { generation: gen, output: o, grads: g };
        dismantle(taken);
        proof {
            let ov = old(self)@;
            assert forall|s: T| #[trigger] gradient(self@, s) == gradient(ov, s) by {
                crate::laws::lemma_seed_scaling(ov, s);
            }
        }
    }
}

impl<T: Scalar> PartialEq for Expr<T> {
    /// Expressions compare by their outputs alone, with the backend's own
    /// equality; graph structure plays no part.
    fn eq(&self, other: &Self) -> (r: bool) {
        let valid = !matches!(self.0, _Expr::_OnlyForDrop) && !matches!(
            other.0,
            _Expr::_OnlyForDrop,
        );
        if valid {
            self.output().eq_val(other.output())
        } else {
            false
        }
    }
}

impl<T: Scalar> vstd::std_specs::cmp::PartialEqSpecImpl for Expr<T> {
    open spec fn obeys_eq_spec() -> bool {
        true
    }

    open spec fn eq_spec(&self, other: &Self) -> bool {
        &&& !(self@ is _OnlyForDrop)
        &&& !(other@ is _OnlyForDrop)
        &&& T::eq_spec(self@.output_spec(), other@.output_spec())
    }
}

impl<T: Scalar> Clone for _Expr<T> {
    /// A clone shares the same operand edges: output, generation, constancy
    /// and every gradient are unchanged.
    fn clone(&self) -> (r: Self)
        ensures
            r.output_spec() == self.output_spec(),
            r.generation_spec() == self.generation_spec(),
            r.is_const_spec() == self.is_const_spec(),
            forall|s: T| #[trigger] gradient(r, s) == gradient(*self, s),
            !(*self is Compressed) ==> r == *self,
            (*self is Compressed) ==> (r is Compressed),
    {
        match self {
            _Expr::_OnlyForDrop => _Expr::_OnlyForDrop,
            _Expr::Leaf(l) => _Expr::Leaf(*l),
            _Expr::Node(g, n) => _Expr::Node(*g, n.clone()),
            _Expr::Compressed { generation, output, grads } => {
                let r = _Expr::Compressed {
                    generation: *generation,
                    output: *output,
                    grads: grads.clone(),
                };
                r
            },
        }
    }
}

impl<T: Scalar> Clone for Expr<T> {
    /// A clone is a new handle onto the same graph: operand edges are
    /// shared, and output, generation, constancy and every gradient are
    /// unchanged.
    fn clone(&self) -> (r: Self)
        ensures
            r@.output_spec() == self@.output_spec(),
            r@.generation_spec() == self@.generation_spec(),
            r@.is_const_spec() == self@.is_const_spec(),
            forall|s: T| #[trigger] gradient(r@, s) == gradient(self@, s),
            !(self@ is Compressed) ==> r@ == self@,
            (self@ is Compressed) ==> (r@ is Compressed),
    {
        Expr(self.0.clone())
    }
}

} // verus!
