use fp_basics::{composition, memoized};
use rand::distributions::{Distribution, Uniform};
use rand::rngs::StdRng;
use rand::{Rng, SeedableRng};
use std::cell::Cell;
use std::time::Duration;

#[test]
fn memoize_works() {
    // The wrapped function stands for a slow one; sleeping is left out here.
    let hard_computation = Duration::from_millis(100);
    let wait_for_it = |x| x;
    let mut wait_for_it = memoized(wait_for_it);
    assert_eq!(wait_for_it.call(hard_computation), hard_computation);
    assert_eq!(wait_for_it.call(hard_computation), hard_computation);
    assert_eq!(wait_for_it.call(hard_computation), hard_computation);
    assert_eq!(wait_for_it.call(hard_computation), hard_computation);
}

#[test]
fn random_num_memoize() {
    let random = |_| rand::thread_rng().gen_range(0..1000);
    let mut num = memoized(random);
    assert!(num.call(()) == num.call(()));
    assert!(num.call(()) == num.call(()));

    let random = |seed| {
        let step = Uniform::new(0, 1000);
        step.sample(&mut StdRng::seed_from_u64(seed))
    };
    let mut num = memoized(random);

    assert!(num.call(222) == num.call(222));
    assert!(num.call(921) != num.call(222));
}

#[test]
fn std_memoize_funcs() {
    assert_ne!("factorial function", "Pure function");
    assert_ne!(
        "std::get_char()",
        "No, it relies on stdin, not on the input"
    );
    assert_ne!(
        r#"
bool f() {
    std::cout << "Hello!" << std::endl;
    return true;
}
"#,
        "No, as it has side effects apart of the returned values"
    );
    assert_ne!(
        r#"
int f(int x) {
    static int y = 0;
    y += x;
    return y;
}
"#,
        "No, it relies on internal value y and it has the side effects of modifing itself"
    )
}

#[test]
fn increment_runs_once_per_argument() {
    let runs = Cell::new(0u32);
    let mut inc = memoized(|x: u64| {
        runs.set(runs.get() + 1);
        x + 1
    });
    assert_eq!(inc.call(5), 6);
    assert_eq!(inc.call(5), 6);
    assert_eq!(inc.call(7), 8);
    assert_eq!(runs.get(), 2);
}

#[test]
fn four_calls_agree_with_the_function() {
    let square = |x: i64| x * x;
    let runs = Cell::new(0u32);
    let mut m = memoized(|x: i64| {
        runs.set(runs.get() + 1);
        square(x)
    });
    for _ in 0..4 {
        assert_eq!(m.call(-9), square(-9));
    }
    assert_eq!(runs.get(), 1);
}

#[test]
fn impure_function_is_replayed() {
    let counter = Cell::new(0u32);
    let fresh = |_: u8| {
        counter.set(counter.get() + 1);
        counter.get()
    };
    let mut m = memoized(fresh);
    let first = m.call(1);
    assert_eq!(first, 1);
    assert_eq!(m.call(1), first);
    assert_eq!(m.call(1), first);
    let other = m.call(2);
    assert_eq!(other, 2);
    assert_ne!(other, first);
    assert_eq!(m.call(1), first);
    assert_eq!(counter.get(), 2);
}

#[test]
fn unit_argument_caches_one_result() {
    let counter = Cell::new(10u32);
    let mut m = memoized(|_: ()| {
        counter.set(counter.get() + 1);
        counter.get()
    });
    assert_eq!(m.call(()), 11);
    assert_eq!(m.call(()), 11);
    assert_eq!(m.call(()), 11);
    assert_eq!(counter.get(), 11);
}

#[test]
fn seeded_generator_is_cached_per_seed() {
    let draw = |seed: u64| StdRng::seed_from_u64(seed).gen_range(0..1000u32);
    let mut m = memoized(draw);
    let a = m.call(222);
    assert_eq!(m.call(222), a);
    assert_eq!(a, draw(222));
    assert_eq!(m.call(921), draw(921));
}

#[test]
fn arguments_do_not_interfere() {
    let mut m = memoized(|x: u32| x * 10);
    assert_eq!(m.call(1), 10);
    assert_eq!(m.call(2), 20);
    assert_eq!(m.call(1), 10);
    assert_eq!(m.call(3), 30);
    assert_eq!(m.call(2), 20);
}

#[test]
fn memoized_composition() {
    let h = composition(|x: u16| x + 1, |y: u16| y * 2);
    let mut m = memoized(h);
    assert_eq!(m.call(4), 10);
    assert_eq!(m.call(4), 10);
    assert_eq!(m.call(0), 2);
}
