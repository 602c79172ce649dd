//! Errors surfaced to the command line, and how each is described.
use vstd::prelude::*;

verus! {

/// The remediation text shown when the requested compiler has no built-in
/// support.
pub const UNSUPPORTED_COMPILER_HELP: &'static str = r###"No built-in support for requested compiler.
To use this compiler, please specify necessary OPTIONS in compile command. E.g:

  vibranium compile --compiler solcjs -- <OPTIONS>...

OPTIONS can also be specified in the project's vibranium.toml file:

  [compiler]
    options = ["--option1", "--option2"]
"###;

/// The phrase put before a configuration failure's own description.
pub const CONFIGURATION_SET_PREFIX: &'static str = "Couldn't set configuration: ";

/// A failure of the compilation step, as far as reporting needs it.
#[derive(Debug)]
pub struct CompilerError {
    /// The requested compiler has no built-in support.
    pub unsupported_strategy: bool,
    /// The failure's own description.
    pub description: String,
}

/// Relies on `toml::ser::Error` only as an opaque value, carried along as
/// the cause of a configuration failure.
#[verifier::external_type_specification]
#[verifier::external_body]
pub struct ExTomlSerError(toml::ser::Error);

/// A configuration that could not be written: the serializer's error and
/// its description.
#[derive(Debug)]
pub struct ConfigurationError {
    pub source: toml::ser::Error,
    pub description: String,
}

/// An error reported to the user of the command line.
#[derive(Debug)]
pub enum CliError {
    /// Compiling failed.
    CompilationError(CompilerError),
    /// The configuration could not be written.
    ConfigurationSetError(ConfigurationError),
}

/// The underlying error of a `CliError`.
#[derive(Debug)]
pub enum ErrorCause<'a> {
    Compiler(&'a CompilerError),
    Configuration(&'a toml::ser::Error),
}

/// The description of an error: the remediation text for an unsupported
/// compiler, else the underlying error's own description.
pub open spec fn description_of(e: CliError) -> Seq<char> {
    match e {
        CliError::CompilationError(c) => if c.unsupported_strategy {
            UNSUPPORTED_COMPILER_HELP@
        } else {
            c.description@
        },
        CliError::ConfigurationSetError(c) => c.description@,
    }
}

/// The one line shown to the user for an error.
pub open spec fn message_of(e: CliError) -> Seq<char> {
    match e {
        CliError::CompilationError(_) => description_of(e),
        CliError::ConfigurationSetError(c) => CONFIGURATION_SET_PREFIX@ + c.description@,
    }
}

impl CliError {
    /// The error's description (see `description_of`).
    pub fn description(&self) -> (r: String)
        ensures
            r@ == description_of(*self),
    {
        match self {
            CliError::CompilationError(c) => if c.unsupported_strategy {
                UNSUPPORTED_COMPILER_HELP.to_owned()
            } else {
                c.description.clone()
            },
            CliError::ConfigurationSetError(c) => c.description.clone(),
        }
    }

    /// The underlying error, which is always kept.
    pub fn cause(&self) -> (r: Option<ErrorCause<'_>>)
        ensures
            r == Some(
                match *self {
                    CliError::CompilationError(c) => ErrorCause::Compiler(&c),
                    CliError::ConfigurationSetError(c) => ErrorCause::Configuration(&c.source),
                },
            ),
    {
        match self {
            CliError::CompilationError(c) => Some(ErrorCause::Compiler(c)),
            CliError::ConfigurationSetError(c) => Some(ErrorCause::Configuration(&c.source)),
        }
    }

    /// The one line shown to the user (see `message_of`).
    pub fn to_string(&self) -> (r: String)
        ensures
            r@ == message_of(*self),
    {
        match self {
            CliError::CompilationError(_) => self.description(),
            CliError::ConfigurationSetError(c) => {
                let mut r = String::new();
                r.append(CONFIGURATION_SET_PREFIX);
                r.append(c.description.as_str());
                r
            },
        }
    }
}

} // verus!
