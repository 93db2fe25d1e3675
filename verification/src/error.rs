//! Runtime errors, their classes, and the fixed credential-free values that may
//! leave the host.

use vstd::prelude::*;

use crate::text;
use crate::text::{decimal_text, joined, same_text};

verus! {

pub const CODEX_RUNTIME_UNAVAILABLE: &'static str = "codex_runtime_unavailable";

pub const CODEX_PROTOCOL_ERROR: &'static str = "codex_protocol_error";

pub const CODEX_CATALOG_UNAVAILABLE: &'static str = "codex_catalog_unavailable";

pub const CODEX_MODEL_UNAVAILABLE: &'static str = "codex_model_unavailable";

pub const KUN_SHARED_RUNTIME_UNAVAILABLE: &'static str = "kun_shared_runtime_unavailable";

pub const KUN_RUNTIME_IDENTITY_MISMATCH: &'static str = "kun_runtime_identity_mismatch";

pub const KUN_CATALOG_UNAVAILABLE: &'static str = "kun_catalog_unavailable";

pub const KUN_MODEL_UNAVAILABLE: &'static str = "kun_model_unavailable";

pub const KUN_PROVIDER_AUTHENTICATION_FAILED: &'static str = "kun_provider_authentication_failed";

/// Why a runtime operation failed.
#[derive(Debug, PartialEq, Eq)]
pub enum RuntimeError {
    NotConfigured,
    InvalidWorkspace,
    Cancelled,
    Timeout,
    Permission,
    Protocol(String),
    InvalidStreamCapacity,
    StreamBufferFull { capacity: usize },
    StreamTerminal,
    StreamTerminalMissing,
    TransportClosed,
    Transport(String),
    Authentication,
    Provider(String),
    Unsupported,
}

/// A runtime error with its texts as sequences of characters.
pub enum ErrorView {
    NotConfigured,
    InvalidWorkspace,
    Cancelled,
    Timeout,
    Permission,
    Protocol(Seq<char>),
    InvalidStreamCapacity,
    StreamBufferFull(usize),
    StreamTerminal,
    StreamTerminalMissing,
    TransportClosed,
    Transport(Seq<char>),
    Authentication,
    Provider(Seq<char>),
    Unsupported,
}

impl View for RuntimeError {
    type V = ErrorView;

    open spec fn view(&self) -> ErrorView {
        match self {
            RuntimeError::NotConfigured => ErrorView::NotConfigured,
            RuntimeError::InvalidWorkspace => ErrorView::InvalidWorkspace,
            RuntimeError::Cancelled => ErrorView::Cancelled,
            RuntimeError::Timeout => ErrorView::Timeout,
            RuntimeError::Permission => ErrorView::Permission,
            RuntimeError::Protocol(s) => ErrorView::Protocol(s@),
            RuntimeError::InvalidStreamCapacity => ErrorView::InvalidStreamCapacity,
            RuntimeError::StreamBufferFull { capacity } => ErrorView::StreamBufferFull(*capacity),
            RuntimeError::StreamTerminal => ErrorView::StreamTerminal,
            RuntimeError::StreamTerminalMissing => ErrorView::StreamTerminalMissing,
            RuntimeError::TransportClosed => ErrorView::TransportClosed,
            RuntimeError::Transport(s) => ErrorView::Transport(s@),
            RuntimeError::Authentication => ErrorView::Authentication,
            RuntimeError::Provider(s) => ErrorView::Provider(s@),
            RuntimeError::Unsupported => ErrorView::Unsupported,
        }
    }
}

impl Clone for RuntimeError {
    fn clone(&self) -> (r: Self)
        ensures
            r@ == self@,
    {
        match self {
            RuntimeError::NotConfigured => RuntimeError::NotConfigured,
            RuntimeError::InvalidWorkspace => RuntimeError::InvalidWorkspace,
            RuntimeError::Cancelled => RuntimeError::Cancelled,
            RuntimeError::Timeout => RuntimeError::Timeout,
            RuntimeError::Permission => RuntimeError::Permission,
            RuntimeError::Protocol(s) => RuntimeError::Protocol(s.clone()),
            RuntimeError::InvalidStreamCapacity => RuntimeError::InvalidStreamCapacity,
            RuntimeError::StreamBufferFull { capacity } => RuntimeError::StreamBufferFull {
                capacity: *capacity,
            },
            RuntimeError::StreamTerminal => RuntimeError::StreamTerminal,
            RuntimeError::StreamTerminalMissing => RuntimeError::StreamTerminalMissing,
            RuntimeError::TransportClosed => RuntimeError::TransportClosed,
            RuntimeError::Transport(s) => RuntimeError::Transport(s.clone()),
            RuntimeError::Authentication => RuntimeError::Authentication,
            RuntimeError::Provider(s) => RuntimeError::Provider(s.clone()),
            RuntimeError::Unsupported => RuntimeError::Unsupported,
        }
    }
}

/// How an error is displayed.
pub open spec fn error_text(error: ErrorView) -> Seq<char> {
    match error {
        ErrorView::NotConfigured => "runtime is not configured"@,
        ErrorView::InvalidWorkspace => "workspace access and cwd are inconsistent"@,
        ErrorView::Cancelled => "runtime is cancelled"@,
        ErrorView::Timeout => "runtime deadline elapsed"@,
        ErrorView::Permission => "runtime permission does not allow this operation"@,
        ErrorView::Protocol(s) => "runtime protocol error: "@ + s,
        ErrorView::InvalidStreamCapacity => "runtime stream capacity must be greater than zero"@,
        ErrorView::StreamBufferFull(capacity) => "runtime stream buffer is full (capacity "@
            + text::decimal(capacity as nat) + ")"@,
        ErrorView::StreamTerminal => "runtime stream already has a terminal event"@,
        ErrorView::StreamTerminalMissing => "runtime stream ended without a terminal event"@,
        ErrorView::TransportClosed => "runtime transport closed before a terminal event"@,
        ErrorView::Transport(s) => "runtime transport error: "@ + s,
        ErrorView::Authentication => "runtime authentication failed"@,
        ErrorView::Provider(s) => "provider rejected the runtime request: "@ + s,
        ErrorView::Unsupported => "runtime adapter operation is not implemented"@,
    }
}

impl RuntimeError {
    /// A protocol error with the given code.
    pub fn protocol(code: &str) -> (r: Self)
        ensures
            r@ == ErrorView::Protocol(code@),
    {
        RuntimeError::Protocol(code.to_owned())
    }

    /// A transport error with the given code.
    pub fn transport(code: &str) -> (r: Self)
        ensures
            r@ == ErrorView::Transport(code@),
    {
        RuntimeError::Transport(code.to_owned())
    }

    /// A provider error with the given code.
    pub fn provider(code: &str) -> (r: Self)
        ensures
            r@ == ErrorView::Provider(code@),
    {
        RuntimeError::Provider(code.to_owned())
    }

    /// How the error is displayed.
    pub fn describe(&self) -> (r: String)
        ensures
            r@ == error_text(self@),
    {
        match self {
            RuntimeError::NotConfigured => "runtime is not configured".to_owned(),
            RuntimeError::InvalidWorkspace => "workspace access and cwd are inconsistent".to_owned(),
            RuntimeError::Cancelled => "runtime is cancelled".to_owned(),
            RuntimeError::Timeout => "runtime deadline elapsed".to_owned(),
            RuntimeError::Permission =>
                "runtime permission does not allow this operation".to_owned(),
            RuntimeError::Protocol(s) => joined("runtime protocol error: ", s.as_str()),
            RuntimeError::InvalidStreamCapacity =>
                "runtime stream capacity must be greater than zero".to_owned(),
            RuntimeError::StreamBufferFull { capacity } => joined(
                joined(
                    "runtime stream buffer is full (capacity ",
                    decimal_text(*capacity as u64).as_str(),
                ).as_str(),
                ")",
            ),
            RuntimeError::StreamTerminal =>
                "runtime stream already has a terminal event".to_owned(),
            RuntimeError::StreamTerminalMissing =>
                "runtime stream ended without a terminal event".to_owned(),
            RuntimeError::TransportClosed =>
                "runtime transport closed before a terminal event".to_owned(),
            RuntimeError::Transport(s) => joined("runtime transport error: ", s.as_str()),
            RuntimeError::Authentication => "runtime authentication failed".to_owned(),
            RuntimeError::Provider(s) => joined(
                "provider rejected the runtime request: ",
                s.as_str(),
            ),
            RuntimeError::Unsupported => "runtime adapter operation is not implemented".to_owned(),
        }
    }
}

/// The class of an error, for callers that decide by class.
#[derive(Clone, Copy, Debug, PartialEq, Eq, Structural)]
pub enum RuntimeErrorClass {
    Authentication,
    Permission,
    Timeout,
    Cancelled,
    Transport,
    Provider,
    Protocol,
    Unknown,
}

pub open spec fn error_class(error: ErrorView) -> RuntimeErrorClass {
    match error {
        ErrorView::Authentication => RuntimeErrorClass::Authentication,
        ErrorView::InvalidWorkspace | ErrorView::Permission => RuntimeErrorClass::Permission,
        ErrorView::Timeout => RuntimeErrorClass::Timeout,
        ErrorView::Cancelled => RuntimeErrorClass::Cancelled,
        ErrorView::Protocol(_) => RuntimeErrorClass::Protocol,
        ErrorView::TransportClosed | ErrorView::Transport(_) => RuntimeErrorClass::Transport,
        ErrorView::Provider(_) => RuntimeErrorClass::Provider,
        ErrorView::InvalidStreamCapacity
        | ErrorView::StreamBufferFull(_)
        | ErrorView::StreamTerminal
        | ErrorView::StreamTerminalMissing => RuntimeErrorClass::Protocol,
        ErrorView::NotConfigured | ErrorView::Unsupported => RuntimeErrorClass::Unknown,
    }
}

/// The class of an error.
pub fn class_of_error(error: &RuntimeError) -> (r: RuntimeErrorClass)
    ensures
        r == error_class(error@),
{
    match error {
        RuntimeError::Authentication => RuntimeErrorClass::Authentication,
        RuntimeError::InvalidWorkspace | RuntimeError::Permission => RuntimeErrorClass::Permission,
        RuntimeError::Timeout => RuntimeErrorClass::Timeout,
        RuntimeError::Cancelled => RuntimeErrorClass::Cancelled,
        RuntimeError::Protocol(_) => RuntimeErrorClass::Protocol,
        RuntimeError::TransportClosed | RuntimeError::Transport(_) => RuntimeErrorClass::Transport,
        RuntimeError::Provider(_) => RuntimeErrorClass::Provider,
        RuntimeError::InvalidStreamCapacity
        | RuntimeError::StreamBufferFull { .. }
        | RuntimeError::StreamTerminal
        | RuntimeError::StreamTerminalMissing => RuntimeErrorClass::Protocol,
        RuntimeError::NotConfigured | RuntimeError::Unsupported => RuntimeErrorClass::Unknown,
    }
}

/// Stable, credential-free classifications of failures that may leave the host.
/// Raw bodies and credentials stay private; callers show only these fixed values.
#[derive(Clone, Copy, Debug, PartialEq, Eq, Structural)]
pub enum ConnectorRuntimeFailure {
    RuntimeUnavailable,
    SharedRuntimeUnavailable,
    RuntimeAuthenticationFailed,
    RuntimeIdentityMismatch,
    CatalogUnavailable,
    ProviderAuthenticationFailed,
}

impl ConnectorRuntimeFailure {
    pub open spec fn ipc_code_text(self) -> Seq<char> {
        match self {
            ConnectorRuntimeFailure::RuntimeUnavailable => "CONNECTOR_RUNTIME_UNAVAILABLE"@,
            ConnectorRuntimeFailure::SharedRuntimeUnavailable =>
                "CONNECTOR_SHARED_RUNTIME_UNAVAILABLE"@,
            ConnectorRuntimeFailure::RuntimeAuthenticationFailed =>
                "CONNECTOR_RUNTIME_AUTHENTICATION_FAILED"@,
            ConnectorRuntimeFailure::RuntimeIdentityMismatch =>
                "CONNECTOR_RUNTIME_IDENTITY_MISMATCH"@,
            ConnectorRuntimeFailure::CatalogUnavailable => "CONNECTOR_CATALOG_UNAVAILABLE"@,
            ConnectorRuntimeFailure::ProviderAuthenticationFailed =>
                "CONNECTOR_PROVIDER_AUTHENTICATION_FAILED"@,
        }
    }

    pub open spec fn category_text(self) -> Seq<char> {
        match self {
            ConnectorRuntimeFailure::RuntimeUnavailable => "connector_runtime_unavailable"@,
            ConnectorRuntimeFailure::SharedRuntimeUnavailable => "shared_runtime_unavailable"@,
            ConnectorRuntimeFailure::RuntimeAuthenticationFailed =>
                "runtime_authentication_failed"@,
            ConnectorRuntimeFailure::RuntimeIdentityMismatch => "runtime_identity_mismatch"@,
            ConnectorRuntimeFailure::CatalogUnavailable => "connector_catalog_unavailable"@,
            ConnectorRuntimeFailure::ProviderAuthenticationFailed =>
                "provider_authentication_failed"@,
        }
    }

    pub open spec fn message_text(self) -> Seq<char> {
        match self {
            ConnectorRuntimeFailure::RuntimeUnavailable => "connector Runtime is unavailable"@,
            ConnectorRuntimeFailure::SharedRuntimeUnavailable => "shared Runtime is unavailable"@,
            ConnectorRuntimeFailure::RuntimeAuthenticationFailed =>
                "connector Runtime authentication failed"@,
            ConnectorRuntimeFailure::RuntimeIdentityMismatch =>
                "connector Runtime identity does not match"@,
            ConnectorRuntimeFailure::CatalogUnavailable =>
                "connector Runtime catalog is unavailable"@,
            ConnectorRuntimeFailure::ProviderAuthenticationFailed =>
                "provider authentication failed"@,
        }
    }

    pub fn ipc_code(self) -> (r: &'static str)
        ensures
            r@ == self.ipc_code_text(),
    {
        match self {
            ConnectorRuntimeFailure::RuntimeUnavailable => "CONNECTOR_RUNTIME_UNAVAILABLE",
            ConnectorRuntimeFailure::SharedRuntimeUnavailable =>
                "CONNECTOR_SHARED_RUNTIME_UNAVAILABLE",
            ConnectorRuntimeFailure::RuntimeAuthenticationFailed =>
                "CONNECTOR_RUNTIME_AUTHENTICATION_FAILED",
            ConnectorRuntimeFailure::RuntimeIdentityMismatch =>
                "CONNECTOR_RUNTIME_IDENTITY_MISMATCH",
            ConnectorRuntimeFailure::CatalogUnavailable => "CONNECTOR_CATALOG_UNAVAILABLE",
            ConnectorRuntimeFailure::ProviderAuthenticationFailed =>
                "CONNECTOR_PROVIDER_AUTHENTICATION_FAILED",
        }
    }

    pub fn category(self) -> (r: &'static str)
        ensures
            r@ == self.category_text(),
    {
        match self {
            ConnectorRuntimeFailure::RuntimeUnavailable => "connector_runtime_unavailable",
            ConnectorRuntimeFailure::SharedRuntimeUnavailable => "shared_runtime_unavailable",
            ConnectorRuntimeFailure::RuntimeAuthenticationFailed =>
                "runtime_authentication_failed",
            ConnectorRuntimeFailure::RuntimeIdentityMismatch => "runtime_identity_mismatch",
            ConnectorRuntimeFailure::CatalogUnavailable => "connector_catalog_unavailable",
            ConnectorRuntimeFailure::ProviderAuthenticationFailed =>
                "provider_authentication_failed",
        }
    }

    pub fn message(self) -> (r: &'static str)
        ensures
            r@ == self.message_text(),
    {
        match self {
            ConnectorRuntimeFailure::RuntimeUnavailable => "connector Runtime is unavailable",
            ConnectorRuntimeFailure::SharedRuntimeUnavailable => "shared Runtime is unavailable",
            ConnectorRuntimeFailure::RuntimeAuthenticationFailed =>
                "connector Runtime authentication failed",
            ConnectorRuntimeFailure::RuntimeIdentityMismatch =>
                "connector Runtime identity does not match",
            ConnectorRuntimeFailure::CatalogUnavailable =>
                "connector Runtime catalog is unavailable",
            ConnectorRuntimeFailure::ProviderAuthenticationFailed =>
                "provider authentication failed",
        }
    }

    pub fn event_reason(self) -> (r: &'static str)
        ensures
            r@ == self.category_text(),
    {
        self.category()
    }
}

/// The public classification of an error, where it has one.
pub open spec fn failure_of(error: ErrorView) -> Option<ConnectorRuntimeFailure> {
    match error {
        ErrorView::Authentication => Some(ConnectorRuntimeFailure::RuntimeAuthenticationFailed),
        ErrorView::Transport(code) => if code == KUN_SHARED_RUNTIME_UNAVAILABLE@ {
            Some(ConnectorRuntimeFailure::SharedRuntimeUnavailable)
        } else if code == CODEX_RUNTIME_UNAVAILABLE@ {
            Some(ConnectorRuntimeFailure::RuntimeUnavailable)
        } else if code == KUN_CATALOG_UNAVAILABLE@ || code == CODEX_CATALOG_UNAVAILABLE@ {
            Some(ConnectorRuntimeFailure::CatalogUnavailable)
        } else {
            None
        },
        ErrorView::Protocol(code) => if code == KUN_RUNTIME_IDENTITY_MISMATCH@ {
            Some(ConnectorRuntimeFailure::RuntimeIdentityMismatch)
        } else {
            None
        },
        ErrorView::Provider(code) => if code == KUN_PROVIDER_AUTHENTICATION_FAILED@ {
            Some(ConnectorRuntimeFailure::ProviderAuthenticationFailed)
        } else {
            None
        },
        _ => None,
    }
}

/// Converts an error to the narrow public classification, only where that is
/// safe and meaningful. No free-form text reaches the result.
pub fn connector_runtime_failure(error: &RuntimeError) -> (r: Option<ConnectorRuntimeFailure>)
    ensures
        r == failure_of(error@),
{
    match error {
        RuntimeError::Authentication => Some(ConnectorRuntimeFailure::RuntimeAuthenticationFailed),
        RuntimeError::Transport(code) => {
            if same_text(code.as_str(), KUN_SHARED_RUNTIME_UNAVAILABLE) {
                Some(ConnectorRuntimeFailure::SharedRuntimeUnavailable)
            } else if same_text(code.as_str(), CODEX_RUNTIME_UNAVAILABLE) {
                Some(ConnectorRuntimeFailure::RuntimeUnavailable)
            } else if same_text(code.as_str(), KUN_CATALOG_UNAVAILABLE) || same_text(
                code.as_str(),
                CODEX_CATALOG_UNAVAILABLE,
            ) {
                Some(ConnectorRuntimeFailure::CatalogUnavailable)
            } else {
                None
            }
        },
        RuntimeError::Protocol(code) => {
            if same_text(code.as_str(), KUN_RUNTIME_IDENTITY_MISMATCH) {
                Some(ConnectorRuntimeFailure::RuntimeIdentityMismatch)
            } else {
                None
            }
        },
        RuntimeError::Provider(code) => {
            if same_text(code.as_str(), KUN_PROVIDER_AUTHENTICATION_FAILED) {
                Some(ConnectorRuntimeFailure::ProviderAuthenticationFailed)
            } else {
                None
            }
        },
        _ => None,
    }
}

/// The fixed code by which an error is reported in a health record.
pub open spec fn safe_error_code(error: ErrorView) -> Seq<char> {
    match error {
        ErrorView::Authentication => "runtime_authentication_failed"@,
        ErrorView::Permission => "runtime_permission_denied"@,
        ErrorView::Timeout => "runtime_timeout"@,
        ErrorView::Cancelled => "runtime_cancelled"@,
        ErrorView::Transport(code) => if code == KUN_SHARED_RUNTIME_UNAVAILABLE@ || code
            == KUN_CATALOG_UNAVAILABLE@ || code == CODEX_CATALOG_UNAVAILABLE@ || code
            == CODEX_RUNTIME_UNAVAILABLE@ {
            code
        } else {
            "runtime_transport_error"@
        },
        ErrorView::Protocol(code) => if code == KUN_RUNTIME_IDENTITY_MISMATCH@ || code
            == KUN_MODEL_UNAVAILABLE@ || code == CODEX_MODEL_UNAVAILABLE@ {
            code
        } else {
            "runtime_protocol_error"@
        },
        ErrorView::Provider(code) => if code == KUN_PROVIDER_AUTHENTICATION_FAILED@ {
            code
        } else {
            "provider_rejected"@
        },
        ErrorView::TransportClosed => "runtime_transport_closed"@,
        ErrorView::NotConfigured => "runtime_not_configured"@,
        ErrorView::InvalidWorkspace => "invalid_workspace"@,
        ErrorView::InvalidStreamCapacity
        | ErrorView::StreamBufferFull(_)
        | ErrorView::StreamTerminal
        | ErrorView::StreamTerminalMissing
        | ErrorView::Unsupported => "runtime_unavailable"@,
    }
}

/// The fixed code by which an error is reported. It is one of the host's own
/// texts whatever text the error carries.
pub fn safe_runtime_error_code(error: &RuntimeError) -> (r: &'static str)
    ensures
        r@ == safe_error_code(error@),
{
    match error {
        RuntimeError::Authentication => "runtime_authentication_failed",
        RuntimeError::Permission => "runtime_permission_denied",
        RuntimeError::Timeout => "runtime_timeout",
        RuntimeError::Cancelled => "runtime_cancelled",
        RuntimeError::Transport(code) => {
            if same_text(code.as_str(), KUN_SHARED_RUNTIME_UNAVAILABLE) {
                KUN_SHARED_RUNTIME_UNAVAILABLE
            } else if same_text(code.as_str(), KUN_CATALOG_UNAVAILABLE) {
                KUN_CATALOG_UNAVAILABLE
            } else if same_text(code.as_str(), CODEX_CATALOG_UNAVAILABLE) {
                CODEX_CATALOG_UNAVAILABLE
            } else if same_text(code.as_str(), CODEX_RUNTIME_UNAVAILABLE) {
                CODEX_RUNTIME_UNAVAILABLE
            } else {
                "runtime_transport_error"
            }
        },
        RuntimeError::Protocol(code) => {
            if same_text(code.as_str(), KUN_RUNTIME_IDENTITY_MISMATCH) {
                KUN_RUNTIME_IDENTITY_MISMATCH
            } else if same_text(code.as_str(), KUN_MODEL_UNAVAILABLE) {
                KUN_MODEL_UNAVAILABLE
            } else if same_text(code.as_str(), CODEX_MODEL_UNAVAILABLE) {
                CODEX_MODEL_UNAVAILABLE
            } else {
                "runtime_protocol_error"
            }
        },
        RuntimeError::Provider(code) => {
            if same_text(code.as_str(), KUN_PROVIDER_AUTHENTICATION_FAILED) {
                KUN_PROVIDER_AUTHENTICATION_FAILED
            } else {
                "provider_rejected"
            }
        },
        RuntimeError::TransportClosed => "runtime_transport_closed",
        RuntimeError::NotConfigured => "runtime_not_configured",
        RuntimeError::InvalidWorkspace => "invalid_workspace",
        RuntimeError::InvalidStreamCapacity
        | RuntimeError::StreamBufferFull { .. }
        | RuntimeError::StreamTerminal
        | RuntimeError::StreamTerminalMissing
        | RuntimeError::Unsupported => "runtime_unavailable",
    }
}

/// The codes that [`safe_runtime_error_code`] can give.
pub open spec fn fixed_codes() -> Set<Seq<char>> {
    set![
        "runtime_authentication_failed"@,
        "runtime_permission_denied"@,
        "runtime_timeout"@,
        "runtime_cancelled"@,
        "runtime_transport_error"@,
        "runtime_protocol_error"@,
        "provider_rejected"@,
        "runtime_transport_closed"@,
        "runtime_not_configured"@,
        "invalid_workspace"@,
        "runtime_unavailable"@,
        KUN_SHARED_RUNTIME_UNAVAILABLE@,
        KUN_CATALOG_UNAVAILABLE@,
        CODEX_CATALOG_UNAVAILABLE@,
        CODEX_RUNTIME_UNAVAILABLE@,
        KUN_RUNTIME_IDENTITY_MISMATCH@,
        KUN_MODEL_UNAVAILABLE@,
        CODEX_MODEL_UNAVAILABLE@,
        KUN_PROVIDER_AUTHENTICATION_FAILED@,
    ]
}

/// No text that an error carries reaches a health record: what is reported of
/// any error is one of a fixed set of codes.
pub proof fn law_error_codes_are_fixed(error: ErrorView)
    ensures
        fixed_codes().contains(safe_error_code(error)),
{
}

} // verus!
