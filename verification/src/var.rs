use vstd::prelude::*;
use crate::expr::Expr;
use crate::expr::_Expr;
use crate::expr::_Leaf;

verus! {

/// The identity of an input variable.
///
/// Two identities name the same logical input exactly when both fields
/// agree: `group` names the factory that produced the variable and `num` is
/// the running number the factory gave it.
#[derive(Clone, Copy, PartialEq, Eq, Structural, Debug)]
pub struct Id {
    pub group: usize,
    pub num: usize,
}

/// An input variable: an identity together with the value it carries.
#[derive(Clone, Copy)]
pub struct Var<T> {
    pub id: Id,
    pub val: T,
}

impl<T> Var<T> {
    pub fn id(&self) -> (r: &Id)
        ensures
            *r == self.id,
    {
        &self.id
    }

    pub fn val(&self) -> (r: &T)
        ensures
            *r == self.val,
    {
        &self.val
    }

    /// Lifts the variable into a leaf expression.
    pub fn into_expr(self) -> (e: Expr<T>)
        ensures
            e@ == _Expr::Leaf(_Leaf::Var(self)),
    {
        Expr::from_var(self)
    }
}

/// A factory handing out variables under a common group identity.
///
/// The caller chooses the group number; variables within the group are
/// numbered in the order they are produced.
pub struct VarGroup {
    pub id: usize,
    pub name: String,
    pub cnt: usize,
}

impl VarGroup {
    pub fn new(id: usize, name: String) -> (g: VarGroup)
        ensures
            g.id == id,
            g.name == name,
            g.cnt == 0,
    {
        VarGroup { id, name, cnt: 0 }
    }

    pub fn id(&self) -> (r: usize)
        ensures
            r == self.id,
    {
        self.id
    }

    pub fn name(&self) -> (r: &String)
        ensures
            *r == self.name,
    {
        &self.name
    }

    /// Produces the next variable of the group, carrying `val`.
    pub fn val<T>(&mut self, val: T) -> (v: Var<T>)
        requires
            old(self).cnt < usize::MAX,
        ensures
            v.id.group == old(self).id,
            v.id.num == old(self).cnt,
            v.val == val,
            final(self).id == old(self).id,
            final(self).name == old(self).name,
            final(self).cnt == old(self).cnt + 1,
    {
        let id = Id { group: self.id, num: self.cnt };
        self.cnt = self.cnt + 1;
        Var { id, val }
    }
}

} // verus!
