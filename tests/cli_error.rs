use deployment_tracker::{CliError, CompilerError, ConfigurationError, ErrorCause};

#[test]
fn unsupported_compiler_gets_remediation_text() {
    let e = CliError::CompilationError(CompilerError {
        unsupported_strategy: true,
        description: "unsupported strategy".to_string(),
    });
    let d = e.description();
    assert!(d.starts_with("No built-in support for requested compiler.\n"));
    assert!(d.contains("vibranium compile --compiler solcjs -- <OPTIONS>..."));
    assert!(d.contains("options = [\"--option1\", \"--option2\"]"));
    assert_eq!(e.to_string(), d);
    match e.cause() {
        Some(ErrorCause::Compiler(c)) => {
            assert!(c.unsupported_strategy);
            assert_eq!(c.description, "unsupported strategy");
        }
        other => panic!("unexpected {:?}", other),
    }
}

#[test]
fn other_compiler_failure_keeps_its_description() {
    let e = CliError::CompilationError(CompilerError {
        unsupported_strategy: false,
        description: "solc exited with 1".to_string(),
    });
    assert_eq!(e.description(), "solc exited with 1");
    assert_eq!(e.to_string(), "solc exited with 1");
    match e.cause() {
        Some(ErrorCause::Compiler(c)) => assert_eq!(c.description, "solc exited with 1"),
        other => panic!("unexpected {:?}", other),
    }
}

#[test]
fn configuration_failure_is_prefixed() {
    let e = CliError::ConfigurationSetError(ConfigurationError {
        source: toml::ser::Error::UnsupportedType,
        description: "unsupported Rust type".to_string(),
    });
    assert_eq!(e.description(), "unsupported Rust type");
    assert_eq!(e.to_string(), "Couldn't set configuration: unsupported Rust type");
    match e.cause() {
        Some(ErrorCause::Configuration(c)) => assert_eq!(*c, toml::ser::Error::UnsupportedType),
        other => panic!("unexpected {:?}", other),
    }
}
