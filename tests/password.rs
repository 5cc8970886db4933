use hermes::password::Password;
use hermes::server::{default_battleye, default_port, Server};

#[test]
fn test_password() {
    let password = Password::new("password".to_string());
    assert_eq!(password.reveal_str(), "password");
}

#[test]
fn test_password_display() {
    let password = Password::new("password".to_string());
    assert_eq!(password.to_string(), "[Password]");
}

#[test]
fn test_password_debug() {
    let password = Password::new("password".to_string());
    assert_eq!(password.to_debug_string(), "[Password]");
}

#[test]
fn test_password_from() {
    let password = Password::from("password".to_string());
    assert_eq!(password.reveal_str(), "password");
}

#[test]
fn server_keeps_password_and_defaults() {
    let s = Server::new(
        "main".to_string(),
        "127.0.0.1".to_string(),
        default_port(),
        Password::new("secret".to_string()),
        "core".to_string(),
        default_battleye(),
    );
    assert_eq!(s.port(), 2302);
    assert!(s.battleye());
    assert_eq!(s.password().reveal_str(), "secret");
    assert_eq!(s.password().to_string(), "[Password]");
    assert_eq!(s.pack(), "core");
    assert_eq!(s.name(), "main");
    assert_eq!(s.address(), "127.0.0.1");
}
