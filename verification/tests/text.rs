use pose_landmarker::text::push_decimal;

fn decimal(n: usize) -> String {
    let mut s = String::from("#");
    push_decimal(&mut s, n);
    s
}

#[test]
fn decimal_of_small_numbers() {
    assert_eq!(decimal(0), "#0");
    assert_eq!(decimal(7), "#7");
    assert_eq!(decimal(10), "#10");
    assert_eq!(decimal(32), "#32");
}

#[test]
fn decimal_of_large_numbers() {
    assert_eq!(decimal(12345), "#12345");
    assert_eq!(decimal(usize::MAX), format!("#{}", usize::MAX));
}
