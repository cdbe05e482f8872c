use rust_gwbasic::{Error, NAME, VERSION};

#[test]
fn test_error_display() {
    let err = Error::SyntaxError("unexpected token".to_string());
    assert_eq!(err.to_string(), "Syntax error: unexpected token");
}

#[test]
fn error_test_division_by_zero() {
    let err = Error::DivisionByZero;
    assert_eq!(err.to_string(), "Division by zero");
}

#[test]
fn test_version_info() {
    assert!(!VERSION.is_empty());
    assert_eq!(NAME, "GW-BASIC (Rust)");
}

#[test]
fn every_kind_has_its_prefix() {
    let m = || "message".to_string();
    assert_eq!(Error::SyntaxError(m()).to_string(), "Syntax error: message");
    assert_eq!(Error::RuntimeError(m()).to_string(), "Runtime error: message");
    assert_eq!(Error::TypeError(m()).to_string(), "Type error: message");
    assert_eq!(Error::UndefinedError(m()).to_string(), "Undefined: message");
    assert_eq!(Error::DivisionByZero.to_string(), "Division by zero");
    assert_eq!(Error::OutOfMemory.to_string(), "Out of memory");
    assert_eq!(Error::IoError(m()).to_string(), "I/O error: message");
    assert_eq!(Error::LineNumberError(m()).to_string(), "Line number error: message");
    assert_eq!(Error::ProgramEnd.to_string(), "Program ended");
    assert_eq!(Error::SyntaxError(String::new()).to_string(), "Syntax error: ");
}

#[test]
fn errors_are_equal_by_kind_and_message() {
    assert_eq!(Error::SyntaxError("a".to_string()), Error::SyntaxError("a".to_string()));
    assert_ne!(Error::SyntaxError("a".to_string()), Error::SyntaxError("b".to_string()));
    assert_ne!(Error::SyntaxError("a".to_string()), Error::RuntimeError("a".to_string()));
    assert_eq!(Error::OutOfMemory, Error::OutOfMemory);
    assert_ne!(Error::OutOfMemory, Error::DivisionByZero);
    assert_eq!(Error::IoError("x".to_string()).clone(), Error::IoError("x".to_string()));
}
