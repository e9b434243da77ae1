//! The closed error families of the control plane.

use vstd::prelude::*;

verus! {

/// Why an actuator refused or failed a mode change.
#[derive(Clone, Copy, Debug, PartialEq, Eq, Structural)]
pub enum ActuatorError {
    /// The mode named in the request is not one the backend knows.
    UnsupportedMode,
    /// The request document does not fit the backend's schema.
    InvalidParameters,
    /// The backend could not be reached or refused the command.
    BackendUnavailable,
    /// Anything else that went wrong inside the backend.
    Internal,
}

/// Why a console operation failed.
#[derive(Clone, Copy, Debug, PartialEq, Eq, Structural)]
pub enum ConsoleError {
    /// The requested direction does not exist or has been closed.
    Closed,
    /// The configuration document does not fit the backend's schema.
    InvalidParameters,
    /// The backend could not be reached.
    BackendUnavailable,
    /// Anything else that went wrong inside the backend.
    Internal,
}

/// Why a provider's bootstrap was abandoned. Other providers are unaffected.
#[derive(Clone, Copy, Debug, PartialEq, Eq, Structural)]
pub enum ProviderConfigError {
    /// The configuration document could not be read as this provider's schema.
    MalformedDocument,
    /// A port field is neither a count nor a list of labels, or it names a
    /// port twice.
    InvalidPortSpec,
}

/// Why the credential middleware could not be built.
#[derive(Clone, Copy, Debug, PartialEq, Eq, Structural)]
pub enum AuthConfigError {
    /// The credential holds a byte that a header value may not carry.
    InvalidCredential,
}

/// Why the registry refused a registration.
#[derive(Clone, Copy, Debug, PartialEq, Eq, Structural)]
pub enum RegistryError {
    /// A resource of the same name is already registered.
    Conflict,
}

/// Why a request left the middleware without its credential.
#[derive(Clone, Copy, Debug, PartialEq, Eq, Structural)]
pub enum AttachError {
    /// The request's header table is full and took no further header.
    HeaderTableFull,
}

/// Why a provider registered nothing.
#[derive(Clone, Copy, Debug, PartialEq, Eq, Structural)]
pub enum BootstrapError {
    /// The provider's configuration was refused.
    Config(ProviderConfigError),
    /// The registry refused one of the provider's resources.
    Registry(RegistryError),
}

} // verus!
