//! Tests whose output the test runner captures when it runs this crate's tests.

#[test]
fn test_output_capture() {
    println!("CAPTURE_ME");
}

#[test]
fn test_output_capture_multiline() {
    println!("CAPTURE_ME_LINE1");
    println!("CAPTURE_ME_LINE2");
}

#[test]
fn test_in_mod_capture() {
    println!("CAPTURE_ME_IN_MOD")
}
