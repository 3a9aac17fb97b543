use intstats::guess::Guess;

#[test]
fn guess_keeps_its_value() {
    let g = Guess::new(50);
    assert_eq!(g.value(), 50);
}

#[test]
fn guess_accepts_the_bounds() {
    assert_eq!(Guess::new(1).value(), 1);
    assert_eq!(Guess::new(100).value(), 100);
}
