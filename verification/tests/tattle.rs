use buildengine::test_util::Tattle;

#[test]
fn starts_at_zero() {
    let tattle = Tattle::new();
    assert_eq!(tattle.get(), 0);
}

#[test]
fn call_increments() {
    let tattle = Tattle::new();
    tattle.call();
    tattle.call();
    assert_eq!(tattle.get(), 2);
}

#[test]
fn clones_share_the_counter() {
    let tattle = Tattle::new();
    let clone = tattle.clone();
    clone.call();
    assert_eq!(tattle.get(), 1);
}

#[test]
fn changed_sees_a_taken_path() {
    let tattle = Tattle::new();
    let clone = tattle.clone();
    assert!(tattle.changed(move || clone.call()));
}

#[test]
fn changed_sees_an_untaken_path() {
    let tattle = Tattle::new();
    assert!(!tattle.changed(|| ()));
}
