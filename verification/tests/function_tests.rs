use linear_logic::algebra::function::{restrict, BinOp, Function};
use linear_logic::algebra::set::{ElementSet, Subset};

struct Integers;

impl ElementSet for Integers {
    type Element = i64;
}

struct Small;

impl ElementSet for Small {
    type Element = u8;
}

impl Subset<Integers> for Small {
    fn embedded(_x: u8) -> i64 {
        unreachable!()
    }

    fn embed(x: u8) -> i64 {
        i64::from(x)
    }
}

struct Double;

impl Function<Integers, Integers> for Double {
    fn value(&self, _x: i64) -> i64 {
        unreachable!()
    }

    fn apply(&self, x: i64) -> i64 {
        2 * x
    }
}

struct Plus;

impl BinOp<Integers> for Plus {
    fn value(&self, _x: i64, _y: i64) -> i64 {
        unreachable!()
    }

    fn apply(&self, x: i64, y: i64) -> i64 {
        x + y
    }
}

#[test]
fn a_set_is_a_subset_of_itself() {
    assert_eq!(<Integers as Subset<Integers>>::embed(-4), -4);
    assert_eq!(<(Integers, Small) as Subset<(Integers, Small)>>::embed((3, 2)), (3, 2));
}

#[test]
fn restriction_applies_the_function_to_the_embedded_element() {
    let on_small = restrict(Double);
    assert_eq!(on_small.apply::<Integers, Integers, Small>(200), 400);
    assert_eq!(on_small.apply::<Integers, Integers, Integers>(-3), -6);
    assert_eq!(Plus.apply(2, 3), 5);
}
