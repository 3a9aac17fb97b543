use intstats::rect::Rectangle;

#[test]
fn area_of_a_rectangle() {
    let rect = Rectangle { width: 30, height: 50 };
    assert_eq!(rect.area(), 1500);
}

#[test]
fn can_hold_a_smaller_rectangle() {
    let rect1 = Rectangle { width: 30, height: 50 };
    let rect2 = Rectangle { width: 10, height: 40 };
    assert!(rect1.can_hold(&rect2));
}

#[test]
fn cannot_hold_a_wider_rectangle() {
    let rect1 = Rectangle { width: 30, height: 50 };
    let rect3 = Rectangle { width: 60, height: 45 };
    assert!(!rect1.can_hold(&rect3));
}

#[test]
fn cannot_hold_itself() {
    let rect = Rectangle { width: 8, height: 8 };
    assert!(!rect.can_hold(&rect));
}
