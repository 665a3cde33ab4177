use addrs::Expr;
use addrs::Mod64;
use addrs::VarGroup;

fn m(v: u64) -> Mod64 {
    Mod64 { v }
}

#[test]
fn exact_product_gradient() {
    let mut grp = VarGroup::new(0, "n".to_string());
    let xv = grp.val(m(3));
    let id = *xv.id();
    let x = xv.into_expr();
    let prod = x.clone().mul(x.clone());
    assert_eq!(prod.output().v, 9);
    assert_eq!(prod.grads().get(&id).unwrap().v, 6);
    let sum = x.clone().add(x.clone());
    assert_eq!(sum.grads().get(&id).unwrap().v, 2);
}

#[test]
fn exact_seed_scaling() {
    let mut grp = VarGroup::new(0, "n".to_string());
    let xv = grp.val(m(4));
    let yv = grp.val(m(7));
    let xid = *xv.id();
    let yid = *yv.id();
    let e = xv.into_expr().mul(yv.into_expr());
    let g1 = e.grads();
    let g5 = e.grads_with_seed(m(5));
    assert_eq!(g5.get(&xid).unwrap().v, 5 * g1.get(&xid).unwrap().v);
    assert_eq!(g5.get(&yid).unwrap().v, 5 * g1.get(&yid).unwrap().v);
    let g6 = e.grads_with_seed(m(6));
    let g11 = e.grads_with_seed(m(11));
    assert_eq!(
        g11.get(&xid).unwrap().v,
        g5.get(&xid).unwrap().v + g6.get(&xid).unwrap().v
    );
}

#[test]
fn arithmetic_wraps_around() {
    let big: Expr<Mod64> = Expr::constant(m(1u64 << 63));
    let e = big.clone().add(big.clone());
    assert_eq!(e.output().v, 0);
    assert!(e.is_const());
    let f = Expr::<Mod64>::constant(m(u64::MAX)).add(Expr::constant(m(2)));
    assert_eq!(f.output().v, 1);
}

#[test]
fn quotient_and_negation() {
    let mut grp = VarGroup::new(0, "n".to_string());
    let xv = grp.val(m(7));
    let id = *xv.id();
    let x = xv.into_expr();
    let q = x.clone().div(Expr::constant(m(2)));
    assert_eq!(q.output().v, 3);
    let z = x.clone().div(Expr::constant(m(0)));
    assert_eq!(z.output().v, 0);
    let n = x.clone().neg();
    assert_eq!(n.output().v, 0u64.wrapping_sub(7));
    assert_eq!(n.grads().get(&id).unwrap().v, u64::MAX);
}

#[test]
fn exact_compaction() {
    let mut grp = VarGroup::new(0, "n".to_string());
    let xv = grp.val(m(3));
    let yv = grp.val(m(5));
    let xid = *xv.id();
    let yid = *yv.id();
    let x = xv.into_expr();
    let y = yv.into_expr();
    let mut e = x.clone().mul(y.clone()).add(x.clone());
    assert_eq!(e.output().v, 18);
    e.compress();
    assert_eq!(e.output().v, 18);
    let g = e.grads_with_seed(m(3));
    assert_eq!(g.get(&xid).unwrap().v, 3 * 6);
    assert_eq!(g.get(&yid).unwrap().v, 3 * 3);
}

#[test]
fn integer_square_root() {
    let mut grp = VarGroup::new(0, "n".to_string());
    let xv = grp.val(m(16));
    let id = *xv.id();
    let e = xv.into_expr().sqrt();
    assert_eq!(e.output().v, 4);
    assert_eq!(e.grads().get(&id).unwrap().v, 0);
    assert_eq!(Expr::<Mod64>::constant(m(10)).sqrt().output().v, 3);
    assert_eq!(Expr::<Mod64>::constant(m(0)).sqrt().output().v, 0);
    assert_eq!(Expr::<Mod64>::constant(m(u64::MAX)).sqrt().output().v, 0xFFFF_FFFF);
}

#[test]
fn order_and_predicates() {
    let a: Expr<Mod64> = Expr::constant(m(2));
    let b: Expr<Mod64> = Expr::constant(m(5));
    assert!(a.le(&b));
    assert!(!b.le(&a));
    assert!(Expr::<Mod64>::zero().is_zero());
    assert!(Expr::<Mod64>::one().is_one());
    assert!(a == Expr::constant(m(2)));
    assert!(a != b);
}
