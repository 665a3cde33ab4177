use addrs::Exp;
use addrs::Expr;
use addrs::Log;
use addrs::Scalar;
use addrs::Sqrt;
use addrs::VarGroup;

#[derive(Clone, Copy, Debug, PartialEq)]
struct F(f64);

// The specification items of the scalar traits (the `*_spec` functions and
// the algebraic-law obligations) exist for verification; the compiled trait
// keeps them as ordinary items that nothing ever calls at run time, so this
// backend gives them plain bodies mirroring the executable arithmetic.
impl Scalar for F {
    fn zero_spec() -> Self {
        F(0.0)
    }
    fn one_spec() -> Self {
        F(1.0)
    }
    fn add_spec(a: Self, b: Self) -> Self {
        F(a.0 + b.0)
    }
    fn sub_spec(a: Self, b: Self) -> Self {
        F(a.0 - b.0)
    }
    fn mul_spec(a: Self, b: Self) -> Self {
        F(a.0 * b.0)
    }
    fn div_spec(a: Self, b: Self) -> Self {
        F(a.0 / b.0)
    }
    fn neg_spec(a: Self) -> Self {
        F(-a.0)
    }
    fn eq_spec(a: Self, b: Self) -> bool {
        a.0 == b.0
    }
    fn le_spec(a: Self, b: Self) -> bool {
        a.0 <= b.0
    }
    fn add_comm(_a: Self, _b: Self) {
    }
    fn add_assoc(_a: Self, _b: Self, _c: Self) {
    }
    fn mul_comm(_a: Self, _b: Self) {
    }
    fn mul_assoc(_a: Self, _b: Self, _c: Self) {
    }
    fn mul_one(_a: Self) {
    }
    fn mul_dist(_a: Self, _b: Self, _c: Self) {
    }
    fn mul_neg(_a: Self, _b: Self) {
    }
    fn zero() -> Self {
        F(0.0)
    }
    fn one() -> Self {
        F(1.0)
    }
    fn add(self, rhs: &Self) -> Self {
        F(self.0 + rhs.0)
    }
    fn sub(self, rhs: &Self) -> Self {
        F(self.0 - rhs.0)
    }
    fn mul(self, rhs: &Self) -> Self {
        F(self.0 * rhs.0)
    }
    fn div(self, rhs: &Self) -> Self {
        F(self.0 / rhs.0)
    }
    fn neg(self) -> Self {
        F(-self.0)
    }
    fn eq_val(&self, rhs: &Self) -> bool {
        self.0 == rhs.0
    }
    fn le_val(&self, rhs: &Self) -> bool {
        self.0 <= rhs.0
    }
}

impl Sqrt for F {
    fn sqrt_spec(a: Self) -> Self {
        F(a.0.sqrt())
    }
    fn sqrt(self) -> Self {
        F(self.0.sqrt())
    }
}

impl Exp for F {
    fn exp_spec(a: Self) -> Self {
        F(a.0.exp())
    }
    fn exp(self) -> Self {
        F(self.0.exp())
    }
}

impl Log for F {
    fn log_spec(a: Self) -> Self {
        F(a.0.ln())
    }
    fn log(self) -> Self {
        F(self.0.ln())
    }
}

#[test]
fn it_works() {
    let mut grp = VarGroup::new(0, "x".to_string());
    let x = grp.val(F(4.2)).into_expr();
    let y = grp.val(F(2.5)).into_expr();
    let z = grp.val(F(3.1)).into_expr();

    let mut res: Expr<F> = Expr::zero();
    for _ in 0..100000 {
        res.add_assign(
            x.clone()
                .neg()
                .mul(y.clone())
                .mul(x.clone())
                .mul_scalar(F(3.1))
                .sub(
                    z.clone()
                        .mul(grp.val(F(1.0)).into_expr())
                        .mul(grp.val(F(1.0)).into_expr())
                        .mul(z.clone())
                        .mul(grp.val(F(1.0)).into_expr()),
                ),
        );
    }
    println!("{:?}", res.output());

    res.compress();
    let grads = res.grads();
    println!("{:?}", grads.len());
}

#[test]
fn single_variable() {
    let mut grp = VarGroup::new(0, "x".to_string());
    let xv = grp.val(F(4.2));
    let id = *xv.id();
    let e = xv.into_expr();
    assert_eq!(e.output().0, 4.2);
    let g = e.grads();
    assert_eq!(g.len(), 1);
    assert_eq!(g.get(&id).unwrap().0, 1.0);
}

#[test]
fn product_plus_shared_variable() {
    let mut grp = VarGroup::new(0, "x".to_string());
    let xv = grp.val(F(4.2));
    let yv = grp.val(F(2.5));
    let xid = *xv.id();
    let yid = *yv.id();
    let x = xv.into_expr();
    let y = yv.into_expr();
    let e = x.clone().mul(y.clone()).add(x.clone());
    assert_eq!(e.output().0, 4.2 * 2.5 + 4.2);
    let g = e.grads();
    assert_eq!(g.len(), 2);
    assert_eq!(g.get(&xid).unwrap().0, 3.5);
    assert_eq!(g.get(&yid).unwrap().0, 4.2);
}

#[test]
fn self_division() {
    let mut grp = VarGroup::new(0, "x".to_string());
    let xv = grp.val(F(3.0));
    let id = *xv.id();
    let x = xv.into_expr();
    let e = x.clone().div(x.clone());
    assert_eq!(e.output().0, 1.0);
    assert_eq!(e.grads().get(&id).unwrap().0, 0.0);
}

#[test]
fn log_of_exp() {
    let mut grp = VarGroup::new(0, "x".to_string());
    let xv = grp.val(F(2.0));
    let id = *xv.id();
    let e = xv.into_expr().exp().log();
    assert!((e.output().0 - 2.0).abs() < 1e-12);
    assert!((e.grads().get(&id).unwrap().0 - 1.0).abs() < 1e-12);
}

#[test]
fn accumulator_values() {
    let mut grp = VarGroup::new(0, "x".to_string());
    let xv = grp.val(F(4.2));
    let yv = grp.val(F(2.5));
    let zv = grp.val(F(3.1));
    let xid = *xv.id();
    let yid = *yv.id();
    let zid = *zv.id();
    let x = xv.into_expr();
    let y = yv.into_expr();
    let z = zv.into_expr();

    let mut res: Expr<F> = Expr::zero();
    for _ in 0..100000 {
        res.add_assign(
            x.clone()
                .neg()
                .mul(y.clone())
                .mul(x.clone())
                .mul_scalar(F(3.1))
                .sub(
                    z.clone()
                        .mul(grp.val(F(1.0)).into_expr())
                        .mul(grp.val(F(1.0)).into_expr())
                        .mul(z.clone())
                        .mul(grp.val(F(1.0)).into_expr()),
                ),
        );
    }

    let term = ((((-4.2f64) * 2.5) * 4.2) * 3.1) - ((((3.1f64 * 1.0) * 1.0) * 3.1) * 1.0);
    let mut acc = 0.0f64;
    for _ in 0..100000 {
        acc += term;
    }
    assert_eq!(res.output().0, acc);

    let g = res.grads();
    assert_eq!(g.len(), 300003);
    let gx = g.get(&xid).unwrap().0;
    let gy = g.get(&yid).unwrap().0;
    let gz = g.get(&zid).unwrap().0;
    assert!((gx - (-6510000.0)).abs() / 6510000.0 < 1e-9);
    assert!((gy - (-5468400.0)).abs() / 5468400.0 < 1e-9);
    assert!((gz - (-620000.0)).abs() / 620000.0 < 1e-9);
}

#[test]
fn compaction_doubles_with_seed_two() {
    let mut grp = VarGroup::new(0, "x".to_string());
    let xv = grp.val(F(4.2));
    let yv = grp.val(F(2.5));
    let xid = *xv.id();
    let yid = *yv.id();
    let x = xv.into_expr();
    let y = yv.into_expr();
    let mut e = x.clone().mul(y.clone()).add(x.clone());
    let before_out = e.output().0;
    let before = e.grads();
    e.compress();
    assert_eq!(e.output().0, before_out);
    let after = e.grads();
    assert_eq!(after.get(&xid).unwrap().0, before.get(&xid).unwrap().0);
    assert_eq!(after.get(&yid).unwrap().0, before.get(&yid).unwrap().0);
    let doubled = e.grads_with_seed(F(2.0));
    assert_eq!(doubled.get(&xid).unwrap().0, 2.0 * before.get(&xid).unwrap().0);
    assert_eq!(doubled.get(&yid).unwrap().0, 2.0 * before.get(&yid).unwrap().0);
}

#[test]
fn constant_folding_two_constants() {
    let c1: Expr<F> = Expr::constant(F(2.0));
    let c2: Expr<F> = Expr::constant(F(3.0));
    let e = c1.add(c2);
    assert!(e.is_const());
    assert_eq!(e.generation(), 0);
    assert_eq!(e.output().0, 5.0);
    assert!(e.as_var().is_none());
    let m = Expr::<F>::constant(F(2.0)).mul(Expr::constant(F(3.0)));
    assert!(m.is_const());
    assert_eq!(m.output().0, 6.0);
    assert_eq!(m.grads().len(), 0);
}

#[test]
fn constant_folding_one_side() {
    let mut grp = VarGroup::new(0, "x".to_string());
    let xv = grp.val(F(5.0));
    let id = *xv.id();
    let x = xv.into_expr();
    let e = x.clone().mul_scalar(F(3.0));
    assert!(!e.is_const());
    assert_eq!(e.generation(), 1);
    assert_eq!(e.grads().get(&id).unwrap().0, 3.0);
    let e2 = Expr::constant(F(3.0)).mul(x.clone());
    assert!(!e2.is_const());
    assert_eq!(e2.generation(), 1);
    assert_eq!(e2.grads().get(&id).unwrap().0, 3.0);
    let e3 = x.clone().sub_scalar(F(1.0));
    assert_eq!(e3.output().0, 4.0);
    assert_eq!(e3.grads().get(&id).unwrap().0, 1.0);
}

#[test]
fn sharing_doubles_gradients() {
    let mut grp = VarGroup::new(0, "x".to_string());
    let xv = grp.val(F(3.0));
    let id = *xv.id();
    let x = xv.into_expr();
    let sum = x.clone().add(x.clone());
    assert_eq!(sum.grads().get(&id).unwrap().0, 2.0);
    let prod = x.clone().mul(x.clone());
    assert_eq!(prod.grads().get(&id).unwrap().0, 6.0);
}

#[test]
fn transcendental_derivatives() {
    let mut grp = VarGroup::new(0, "x".to_string());
    let xv = grp.val(F(2.0));
    let id = *xv.id();
    let x = xv.into_expr();
    let ge = x.clone().exp().grads();
    assert_eq!(ge.get(&id).unwrap().0, 2.0f64.exp());
    let gl = x.clone().log().grads();
    assert_eq!(gl.get(&id).unwrap().0, 0.5);

    let mut grp2 = VarGroup::new(1, "y".to_string());
    let yv = grp2.val(F(4.0));
    let yid = *yv.id();
    let gs = yv.into_expr().sqrt().grads();
    assert_eq!(gs.get(&yid).unwrap().0, 0.25);
}

#[test]
fn gradient_linear_in_seed() {
    let mut grp = VarGroup::new(0, "x".to_string());
    let xv = grp.val(F(4.2));
    let yv = grp.val(F(2.5));
    let xid = *xv.id();
    let yid = *yv.id();
    let x = xv.into_expr();
    let y = yv.into_expr();
    let e = x.clone().mul(y.clone()).add(x.clone());
    let g1 = e.grads_with_seed(F(1.0));
    let g2 = e.grads_with_seed(F(2.0));
    let g3 = e.grads_with_seed(F(3.0));
    assert_eq!(
        g3.get(&xid).unwrap().0,
        g1.get(&xid).unwrap().0 + g2.get(&xid).unwrap().0
    );
    assert_eq!(
        g3.get(&yid).unwrap().0,
        g1.get(&yid).unwrap().0 + g2.get(&yid).unwrap().0
    );
}

#[test]
fn gradient_scales_with_seed() {
    let mut grp = VarGroup::new(0, "x".to_string());
    let xv = grp.val(F(4.2));
    let id = *xv.id();
    let x = xv.into_expr();
    let e = x.clone().mul(x.clone());
    let g1 = e.grads();
    let g2 = e.grads_with_seed(F(2.0));
    assert_eq!(g2.get(&id).unwrap().0, 2.0 * g1.get(&id).unwrap().0);
}

#[test]
fn deep_chain_builds_differentiates_and_drops() {
    let mut grp = VarGroup::new(0, "x".to_string());
    let xv = grp.val(F(1.0));
    let id = *xv.id();
    let x = xv.into_expr();
    let mut e = x.clone();
    for _ in 0..100000 {
        e = e.add(x.clone());
    }
    assert_eq!(e.output().0, 100001.0);
    assert_eq!(e.grads().get(&id).unwrap().0, 100001.0);
}

#[test]
fn equality_by_output() {
    let mut grp = VarGroup::new(0, "x".to_string());
    let x = grp.val(F(2.0)).into_expr();
    let e = x.clone().add_scalar(F(1.0));
    let c: Expr<F> = Expr::constant(F(3.0));
    assert!(e == c);
    let d: Expr<F> = Expr::constant(F(4.0));
    assert!(e != d);
}

#[test]
fn order_by_output() {
    let mut grp = VarGroup::new(0, "x".to_string());
    let x = grp.val(F(2.0)).into_expr();
    let big: Expr<F> = Expr::constant(F(5.0));
    assert!(x.le(&big));
    assert!(!big.le(&x));
    assert!(x.le(&x));
}

#[test]
fn zero_one_predicates() {
    let z: Expr<F> = Expr::zero();
    let o: Expr<F> = Expr::one();
    assert!(z.is_zero());
    assert!(!z.is_one());
    assert!(o.is_one());
    assert!(!o.is_zero());
    assert!(z.is_const());
    assert!(o.is_const());
}

#[test]
fn variables_and_groups() {
    let mut grp = VarGroup::new(7, "w".to_string());
    assert_eq!(grp.id(), 7);
    assert_eq!(grp.name(), "w");
    let a = grp.val(F(1.5));
    let b = grp.val(F(2.5));
    assert_eq!(a.id().group, 7);
    assert_eq!(a.id().num, 0);
    assert_eq!(b.id().num, 1);
    assert_eq!(a.val().0, 1.5);
    let e = a.into_expr();
    let v = e.as_var().unwrap();
    assert_eq!(v.id().num, 0);
    assert_eq!(v.val().0, 1.5);
    assert!(!e.is_const());
}

#[test]
fn gradient_map_entries() {
    let mut grp = VarGroup::new(0, "x".to_string());
    let xv = grp.val(F(4.0));
    let yv = grp.val(F(5.0));
    let xid = *xv.id();
    let yid = *yv.id();
    let e = xv.into_expr().mul(yv.into_expr());
    let g = e.grads();
    let entries = g.entries();
    assert_eq!(entries.len(), 2);
    assert!(entries.iter().any(|p| p.0 == xid && (p.1).0 == 5.0));
    assert!(entries.iter().any(|p| p.0 == yid && (p.1).0 == 4.0));
    assert!(g.get(&addrs::Id { group: 9, num: 9 }).is_none());
    assert!(!g.is_empty());
}

#[test]
fn compound_assignments() {
    let mut grp = VarGroup::new(0, "x".to_string());
    let xv = grp.val(F(6.0));
    let id = *xv.id();
    let x = xv.into_expr();
    let mut e = x.clone();
    e.mul_assign(x.clone());
    assert_eq!(e.output().0, 36.0);
    e.sub_assign(x.clone());
    assert_eq!(e.output().0, 30.0);
    e.div_assign(Expr::constant(F(2.0)));
    assert_eq!(e.output().0, 15.0);
    assert_eq!(e.grads().get(&id).unwrap().0, (2.0 * 6.0 - 1.0) / 2.0);
}

#[test]
fn borrowed_operands() {
    let mut grp = VarGroup::new(0, "x".to_string());
    let xv = grp.val(F(2.0));
    let id = *xv.id();
    let x = xv.into_expr();
    let y = x.clone();
    let e = x.clone().add_ref(&y).mul_ref(&y);
    assert_eq!(e.output().0, 8.0);
    assert_eq!(e.grads().get(&id).unwrap().0, 2.0 * 2.0 + 2.0 * 2.0);
    let d = y.clone().div_ref(&y).sub_ref(&y);
    assert_eq!(d.output().0, 1.0 - 2.0);
}

#[test]
fn compress_keeps_a_leaf_equivalent() {
    let mut grp = VarGroup::new(0, "x".to_string());
    let xv = grp.val(F(9.0));
    let id = *xv.id();
    let mut e = xv.into_expr();
    e.compress();
    assert_eq!(e.output().0, 9.0);
    assert_eq!(e.generation(), 0);
    assert!(!e.is_const());
    assert_eq!(e.grads().get(&id).unwrap().0, 1.0);

    let mut c: Expr<F> = Expr::constant(F(3.0));
    c.compress();
    assert!(c.is_const());
    assert_eq!(c.output().0, 3.0);

    let combined = e.clone().add(c.clone());
    assert_eq!(combined.output().0, 12.0);
    assert_eq!(combined.grads().get(&id).unwrap().0, 1.0);

    let scaled = combined.mul_scalar(F(4.0));
    assert_eq!(scaled.output().0, 48.0);
    assert_eq!(scaled.grads_with_seed(F(2.0)).get(&id).unwrap().0, 8.0);
}

#[test]
fn negation_gradient() {
    let mut grp = VarGroup::new(0, "x".to_string());
    let xv = grp.val(F(2.5));
    let id = *xv.id();
    let e = xv.into_expr().neg();
    assert_eq!(e.output().0, -2.5);
    assert_eq!(e.grads().get(&id).unwrap().0, -1.0);
}
