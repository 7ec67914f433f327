use linear_logic::algebra::errors::Error;
use linear_logic::algebra::field::Field;
use linear_logic::algebra::group::{AbelianGroup, AsMultGroup, Group};
use linear_logic::algebra::polynomials::{HomogeneousPolynomial, Monomial, Polynomial};
use linear_logic::algebra::projective::{ProjectiveMorphism, ProjectivePoint, ProjectiveScheme};
use linear_logic::algebra::ring::{pow, Ring};
use std::ops::{Add, Div, Mul, Neg};

/// The integers modulo 7.
#[derive(Debug, Clone, Copy, PartialEq)]
struct F7(u8);

fn f(n: u8) -> F7 {
    F7(n % 7)
}

impl Add for F7 {
    type Output = F7;
    fn add(self, other: F7) -> F7 {
        f(self.0 + other.0)
    }
}

impl Neg for F7 {
    type Output = F7;
    fn neg(self) -> F7 {
        f(7 - self.0)
    }
}

impl Mul for F7 {
    type Output = F7;
    fn mul(self, other: F7) -> F7 {
        f(self.0 * other.0)
    }
}

impl Div for F7 {
    type Output = F7;
    fn div(self, other: F7) -> F7 {
        self * other.inverse()
    }
}

impl AbelianGroup for F7 {
    fn zero_value() -> F7 {
        unreachable!()
    }

    fn zero() -> F7 {
        F7(0)
    }

    fn lemma_group_operations(_a: F7, _b: F7) {}
}

impl Ring for F7 {
    fn one_value() -> F7 {
        unreachable!()
    }

    fn one() -> F7 {
        F7(1)
    }

    fn lemma_ring_operations(_a: F7, _b: F7) {}
}

impl Field for F7 {
    fn inverse_value(self) -> F7 {
        unreachable!()
    }

    fn inverse(self) -> F7 {
        pow(self, 5)
    }

    fn lemma_field_operations(_a: F7, _b: F7) {}
}

fn mono(c: u8, powers: &[usize]) -> Monomial<F7> {
    Monomial::new(f(c), powers.to_vec())
}

fn shape(m: &Monomial<F7>) -> (u8, Vec<usize>) {
    (m.coefficient.0, m.powers())
}

fn shapes(ms: &[Monomial<F7>]) -> Vec<(u8, Vec<usize>)> {
    ms.iter().map(shape).collect()
}

#[test]
fn power_is_a_repeated_product() {
    assert_eq!(pow(f(3), 0), f(1));
    assert_eq!(pow(f(3), 1), f(3));
    assert_eq!(pow(f(3), 4), f(4));
    assert_eq!(pow(f(0), 3), f(0));
    assert_eq!(f(3) * f(3).inverse(), f(1));
}

#[test]
fn abelian_group_as_multiplicative_group() {
    let a: AsMultGroup<F7> = f(3).into();
    let b = AsMultGroup::from(f(5));
    assert_eq!((a * b).into_inner(), f(1));
    assert_eq!(AsMultGroup::<F7>::one().into_inner(), f(0));
    assert_eq!(AsMultGroup::from(f(3)).inverse().into_inner(), f(4));
    assert!(AsMultGroup::from(f(3)) == AsMultGroup::from(f(3)));
    assert!(AsMultGroup::from(f(3)) != AsMultGroup::from(f(4)));
}

#[test]
fn monomial_accessors() {
    let m = mono(2, &[1, 2]);
    assert_eq!(m.coefficient, f(2));
    assert_eq!(m.powers(), vec![1, 2]);
    assert_eq!(m.dim(), 2);
    assert_eq!(m.deg(), 3);
    let constant = mono(5, &[]);
    assert_eq!(constant.dim(), 0);
    assert_eq!(constant.deg(), 0);
    assert_eq!(shape(&m.clone()), (2, vec![1, 2]));
}

#[test]
fn monomial_eval_adds_the_powers_of_the_coordinates() {
    let m = mono(2, &[1, 2]);
    assert_eq!(m.eval(vec![f(3), f(2)]), Ok(f(2)));
    assert_eq!(m.eval(vec![f(0), f(0)]), Ok(f(2)));
    assert_eq!(mono(5, &[]).eval(vec![]), Ok(f(5)));
    assert_eq!(mono(1, &[0]).eval(vec![f(4)]), Ok(f(2)));
}

#[test]
fn monomial_eval_needs_one_coordinate_for_each_variable() {
    let m = mono(2, &[1, 2]);
    assert_eq!(
        m.eval(vec![f(3)]),
        Err(Error::DimensionMismatch { found: 1, expected: 2 })
    );
    assert_eq!(
        m.eval(vec![f(3), f(1), f(1)]),
        Err(Error::DimensionMismatch { found: 3, expected: 2 })
    );
}

#[test]
fn monomials_with_the_same_powers() {
    assert!(mono(2, &[1, 2]).same_powers(&mono(3, &[1, 2])));
    assert!(!mono(2, &[1, 2]).same_powers(&mono(2, &[2, 1])));
    assert!(!mono(2, &[1, 2]).same_powers(&mono(2, &[1])));
}

#[test]
fn monomial_check_deg() {
    assert_eq!(Monomial::<F7>::check_deg(&[]), Ok(()));
    assert_eq!(Monomial::check_deg(&[mono(1, &[1, 2]), mono(2, &[3, 0])]), Ok(()));
    assert_eq!(
        Monomial::check_deg(&[mono(1, &[1, 2]), mono(2, &[3, 0]), mono(1, &[1, 1]), mono(1, &[])]),
        Err(Error::WrongDegree { expected: 3, found: 2 })
    );
}

#[test]
fn monomial_compose_monomial() {
    let outer = mono(2, &[1, 2]);
    let inner = mono(3, &[1, 0, 2]);
    let composed = outer.compose_monomial(inner);
    assert_eq!(shape(&composed), (4, vec![3, 0, 6]));
}

#[test]
fn monomial_operators() {
    assert_eq!(shape(&(-mono(2, &[1, 2]))), (5, vec![1, 2]));
    assert_eq!(shape(&(mono(2, &[1, 2]) * mono(5, &[3, 1]))), (3, vec![4, 3]));
    assert_eq!(shape(&(mono(2, &[1]) * mono(5, &[3, 1]))), (3, vec![4]));
    let same = mono(2, &[1, 2]) + mono(6, &[1, 2]);
    assert_eq!(shapes(&same.monomials()), vec![(1, vec![1, 2])]);
    let other = mono(2, &[1, 2]) + mono(6, &[2, 1]);
    assert_eq!(shapes(&other.monomials()), vec![(2, vec![1, 2]), (6, vec![2, 1])]);
    assert_eq!(mono(2, &[1]).plus_coefficient(&mono(6, &[3])).coefficient, f(1));
}

#[test]
fn polynomial_neutral_elements() {
    assert_eq!(shapes(&Polynomial::<F7>::zero().monomials()), vec![(0, vec![])]);
    assert_eq!(shapes(&Polynomial::<F7>::one().monomials()), vec![(1, vec![])]);
    let p: Polynomial<F7> = mono(3, &[1]).into();
    assert_eq!(shapes(&p.into_monomials()), vec![(3, vec![1])]);
}

#[test]
fn polynomial_addition_joins_equal_powers() {
    let p = Polynomial::new(vec![mono(1, &[1, 0]), mono(2, &[0, 1]), mono(3, &[1, 1])]);
    let q = Polynomial::new(vec![mono(4, &[0, 1]), mono(5, &[2, 0]), mono(6, &[0, 1])]);
    let sum = p + q;
    assert_eq!(
        shapes(&sum.monomials()),
        vec![(1, vec![1, 0]), (3, vec![1, 1]), (5, vec![2, 0]), (5, vec![0, 1])]
    );
    let empty = Polynomial::<F7>::new(vec![]) + Polynomial::new(vec![]);
    assert!(empty.monomials().is_empty());
}

#[test]
fn polynomial_negation() {
    let p = Polynomial::new(vec![mono(1, &[1, 0]), mono(0, &[0, 1])]);
    assert_eq!(shapes(&(-p).monomials()), vec![(6, vec![1, 0]), (0, vec![0, 1])]);
}

#[test]
fn polynomial_multiplication_adds_what_it_has_seen() {
    let p = Polynomial::new(vec![mono(2, &[1]), mono(3, &[0])]);
    let q = Polynomial::new(vec![mono(1, &[0]), mono(4, &[1])]);
    let product = p * q;
    assert_eq!(
        shapes(&product.monomials()),
        vec![(2, vec![1]), (1, vec![2]), (3, vec![0]), (0, vec![1])]
    );
}

#[test]
fn polynomial_eval() {
    let p = Polynomial::new(vec![mono(2, &[1, 2]), mono(1, &[0, 1])]);
    assert_eq!(p.eval(vec![f(3), f(2)]), Ok(f(6)));
    assert_eq!(
        p.eval(vec![f(3)]),
        Err(Error::DimensionMismatch { found: 1, expected: 2 })
    );
    let q = Polynomial::new(vec![mono(2, &[1, 2]), mono(1, &[1])]);
    assert_eq!(
        q.eval(vec![f(3), f(2)]),
        Err(Error::DimensionMismatch { found: 2, expected: 1 })
    );
    assert_eq!(Polynomial::<F7>::new(vec![]).eval(vec![]), Ok(f(0)));
}

#[test]
fn homogeneous_polynomial_checks_the_degree() {
    let p = HomogeneousPolynomial::new(vec![mono(1, &[1, 2]), mono(2, &[3]), mono(3, &[0, 0, 3])])
        .unwrap();
    assert_eq!(p.deg(), 3);
    assert_eq!(p.dim(), 3);
    assert_eq!(shapes(&p.monomials()).len(), 3);
    assert_eq!(shapes(&p.clone().monomials())[1], (2, vec![3]));
    let empty = HomogeneousPolynomial::<F7>::new(vec![]).unwrap();
    assert_eq!((empty.deg(), empty.dim()), (0, 0));
    match HomogeneousPolynomial::new(vec![mono(1, &[1, 2]), mono(2, &[1])]) {
        Err(e) => assert_eq!(e, Error::WrongDegree { expected: 3, found: 1 }),
        Ok(_) => panic!("the degrees differ"),
    }
    let q: Polynomial<F7> = p.into();
    assert_eq!(shapes(&q.monomials())[0], (1, vec![1, 2]));
}

#[test]
fn homogeneous_polynomial_eval() {
    let p = HomogeneousPolynomial::new(vec![mono(1, &[1, 2]), mono(2, &[3, 0])]).unwrap();
    assert_eq!(p.eval(vec![f(2), f(3)]), Ok(f(2)));
    assert_eq!(
        p.eval(vec![f(2)]),
        Err(Error::DimensionMismatch { found: 1, expected: 2 })
    );
    let uneven = HomogeneousPolynomial::new(vec![mono(1, &[1, 2]), mono(2, &[3])]).unwrap();
    assert_eq!(
        uneven.eval(vec![f(2), f(3)]),
        Err(Error::DimensionMismatch { found: 2, expected: 1 })
    );
}

#[test]
fn homogeneous_polynomials_of_one_degree_and_dimension() {
    let a = HomogeneousPolynomial::new(vec![mono(1, &[1, 2])]).unwrap();
    let b = HomogeneousPolynomial::new(vec![mono(1, &[3, 0])]).unwrap();
    let c = HomogeneousPolynomial::new(vec![mono(1, &[1, 1])]).unwrap();
    let d = HomogeneousPolynomial::new(vec![mono(1, &[1, 1, 1])]).unwrap();
    assert_eq!(HomogeneousPolynomial::<F7>::check_deg(&[]), Ok(0));
    assert_eq!(HomogeneousPolynomial::<F7>::check_dim(&[]), Ok(0));
    assert_eq!(HomogeneousPolynomial::check_deg(&[a.clone(), b.clone()]), Ok(3));
    assert_eq!(HomogeneousPolynomial::check_dim(&[a.clone(), b.clone()]), Ok(2));
    assert_eq!(
        HomogeneousPolynomial::check_deg(&[a.clone(), b.clone(), c.clone()]),
        Err(Error::WrongDegree { expected: 3, found: 2 })
    );
    assert_eq!(HomogeneousPolynomial::check_deg(&[a.clone(), d.clone()]), Ok(3));
    assert_eq!(
        HomogeneousPolynomial::check_dim(&[a, d]),
        Err(Error::DimensionMismatch { found: 3, expected: 2 })
    );
}

#[test]
fn projective_point_needs_a_coordinate_that_is_not_zero() {
    let p = ProjectivePoint::new(vec![f(0), f(3)]).unwrap();
    assert_eq!(p.dim(), 2);
    assert_eq!(p.clone().as_arr(), vec![f(0), f(3)]);
    assert!(matches!(
        ProjectivePoint::new(vec![f(0), f(0)]),
        Err(Error::ProjectiveAllZero)
    ));
    assert!(matches!(ProjectivePoint::<F7>::new(vec![]), Err(Error::ProjectiveAllZero)));
}

#[test]
fn projective_morphism() {
    let x = HomogeneousPolynomial::new(vec![mono(0, &[1, 0])]).unwrap();
    let y = HomogeneousPolynomial::new(vec![mono(1, &[0, 1])]).unwrap();
    let m = ProjectiveMorphism::new(vec![x.clone(), y.clone()]).unwrap();
    let image = m.eval(ProjectivePoint::new(vec![f(2), f(3)]).unwrap()).unwrap();
    assert_eq!(image.as_arr(), vec![f(3), f(5)]);
    assert!(matches!(
        m.eval(ProjectivePoint::new(vec![f(2)]).unwrap()),
        Err(Error::DimensionMismatch { found: 1, expected: 2 })
    ));
    assert_eq!(shapes(&m.nth_coordinate(1).unwrap().monomials()), vec![(1, vec![0, 1])]);
    assert!(matches!(
        m.nth_coordinate(2),
        Err(Error::DimensionMismatch { expected: 2, found: 2 })
    ));
    let cube = HomogeneousPolynomial::new(vec![mono(1, &[3, 0])]).unwrap();
    assert!(matches!(
        ProjectiveMorphism::new(vec![x.clone(), cube]),
        Err(Error::WrongDegree { expected: 1, found: 3 })
    ));
    let wide = HomogeneousPolynomial::new(vec![mono(1, &[1, 0, 0])]).unwrap();
    assert!(matches!(
        ProjectiveMorphism::new(vec![x, wide]),
        Err(Error::DimensionMismatch { found: 3, expected: 2 })
    ));
    let vanishing = HomogeneousPolynomial::new(vec![mono(5, &[1, 0])]).unwrap();
    let to_zero = ProjectiveMorphism::new(vec![vanishing]).unwrap();
    assert!(matches!(
        to_zero.eval(ProjectivePoint::new(vec![f(1), f(1)]).unwrap()),
        Err(Error::ProjectiveAllZero)
    ));
}

#[test]
fn projective_scheme() {
    let p = HomogeneousPolynomial::new(vec![mono(3, &[1, 0]), mono(0, &[0, 1])]).unwrap();
    let scheme = ProjectiveScheme::new(vec![p]).unwrap();
    assert_eq!(scheme.dim(), 2);
    assert_eq!(scheme.ideal_generators().len(), 1);
    assert_eq!(
        shapes(&scheme.ideal_generators()[0].monomials()),
        vec![(3, vec![1, 0]), (0, vec![0, 1])]
    );
    let on = ProjectivePoint::new(vec![f(1), f(1)]).unwrap();
    let off = ProjectivePoint::new(vec![f(1), f(2)]).unwrap();
    assert_eq!(scheme.contains(&on), Ok(true));
    assert_eq!(scheme.contains(&off), Ok(false));
    let short = ProjectivePoint::new(vec![f(1)]).unwrap();
    assert_eq!(
        scheme.contains(&short),
        Err(Error::DimensionMismatch { expected: 2, found: 1 })
    );
    let all = ProjectiveScheme::<F7>::new(vec![]).unwrap();
    assert_eq!(all.dim(), 0);
    let a = HomogeneousPolynomial::new(vec![mono(1, &[1, 0])]).unwrap();
    let b = HomogeneousPolynomial::new(vec![mono(1, &[2, 0])]).unwrap();
    assert!(matches!(
        ProjectiveScheme::new(vec![a, b]),
        Err(Error::WrongDegree { expected: 1, found: 2 })
    ));
}

#[test]
fn algebra_error_messages() {
    assert_eq!(
        Error::ProjectiveAllZero.message(),
        "Projective points cannot have all zero coordinates"
    );
    assert_eq!(Error::DivisionByZero.message(), "Cannot divide by zero");
    assert_eq!(Error::DimensionMismatch { found: 1, expected: 2 }.message(), "Unexpected dimension");
    assert_eq!(Error::WrongDegree { found: 1, expected: 2 }.message(), "Unexpected degree");
}

fn linear_morphism() -> ProjectiveMorphism<F7> {
    let x = HomogeneousPolynomial::new(vec![mono(2, &[1, 0])]).unwrap();
    let y = HomogeneousPolynomial::new(vec![mono(3, &[0, 1]), mono(1, &[1, 0])]).unwrap();
    ProjectiveMorphism::new(vec![x, y]).unwrap()
}

#[test]
fn monomial_compose_morphism() {
    let composed = mono(2, &[1, 1]).compose_morphism(linear_morphism()).unwrap();
    assert_eq!(shapes(&composed.monomials()), vec![(4, vec![0, 2]), (3, vec![2, 0])]);
    assert!(matches!(
        mono(2, &[1, 1, 1]).compose_morphism(linear_morphism()),
        Err(Error::DimensionMismatch { expected: 2, found: 2 })
    ));
    let constant = mono(2, &[]).compose_morphism(linear_morphism()).unwrap();
    assert!(constant.monomials().is_empty());
}

#[test]
fn homogeneous_polynomial_compose_morphism() {
    let p = HomogeneousPolynomial::new(vec![mono(2, &[1, 1]), mono(1, &[2, 0])]).unwrap();
    let composed = p.compose_morphism(&linear_morphism()).unwrap();
    assert_eq!(shapes(&composed.monomials()), vec![(6, vec![0, 2]), (1, vec![2, 0])]);
    assert_eq!(composed.deg(), 2);
    assert_eq!(composed.dim(), 2);
    let wide = HomogeneousPolynomial::new(vec![mono(2, &[1, 1, 1])]).unwrap();
    assert!(matches!(
        wide.compose_morphism(&linear_morphism()),
        Err(Error::DimensionMismatch { expected: 2, found: 2 })
    ));
}

#[test]
fn projective_scheme_apply_morphism() {
    let p = HomogeneousPolynomial::new(vec![mono(2, &[1, 1]), mono(1, &[2, 0])]).unwrap();
    let q = HomogeneousPolynomial::new(vec![mono(2, &[1, 1])]).unwrap();
    let scheme = ProjectiveScheme::new(vec![p, q]).unwrap();
    let moved = scheme.apply_morphism(linear_morphism()).unwrap();
    assert_eq!(moved.dim(), 2);
    let wide = HomogeneousPolynomial::new(vec![mono(2, &[1, 1, 1])]).unwrap();
    let other = ProjectiveScheme::new(vec![wide]).unwrap();
    assert!(matches!(
        other.apply_morphism(linear_morphism()),
        Err(Error::DimensionMismatch { expected: 2, found: 2 })
    ));
}

#[test]
fn homogeneous_polynomial_multiplication() {
    let a = HomogeneousPolynomial::new(vec![mono(2, &[1, 0])]).unwrap();
    let b = HomogeneousPolynomial::new(vec![mono(3, &[0, 1]), mono(1, &[0, 1])]).unwrap();
    let product = a * b;
    assert_eq!(shapes(&product.monomials()), vec![(6, vec![1, 1]), (1, vec![1, 1])]);
    assert_eq!(product.deg(), 2);
    assert_eq!(product.dim(), 2);
}

#[test]
fn projective_scheme_disjoint_union() {
    let p = HomogeneousPolynomial::new(vec![mono(2, &[1, 0])]).unwrap();
    let q1 = HomogeneousPolynomial::new(vec![mono(3, &[0, 1])]).unwrap();
    let q2 = HomogeneousPolynomial::new(vec![mono(1, &[1, 0])]).unwrap();
    let left = ProjectiveScheme::new(vec![p]).unwrap();
    let right = ProjectiveScheme::new(vec![q1, q2]).unwrap();
    let union = left.disjoint_union(right);
    assert_eq!(union.dim(), 2);
    let on_both = ProjectivePoint::new(vec![f(1), f(1)]).unwrap();
    assert_eq!(union.contains(&on_both), Ok(false));
    let empty = ProjectiveScheme::<F7>::new(vec![])
        .unwrap()
        .disjoint_union(ProjectiveScheme::new(vec![]).unwrap());
    assert_eq!(empty.dim(), 0);
}

#[test]
fn projective_points_with_one_ratio_are_equal() {
    let p = ProjectivePoint::new(vec![f(1), f(2)]).unwrap();
    let q = ProjectivePoint::new(vec![f(2), f(4)]).unwrap();
    let r = ProjectivePoint::new(vec![f(2), f(3)]).unwrap();
    let s = ProjectivePoint::new(vec![f(1), f(2), f(3)]).unwrap();
    assert!(p == q);
    assert!(p != r);
    assert!(p != s);
    assert!(p == p.clone());
}
