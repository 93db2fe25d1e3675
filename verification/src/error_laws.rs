//! What holds of every error: what class it is of, what failure of a connector it is,
//! and what is told of it.

use vstd::prelude::*;
use vstd::string::*;

use crate::error;
use crate::error::{ConnectorRuntimeFailure, RuntimeErrorClass};
use crate::text;

verus! {

/// The codes of errors are different.
proof fn lemma_codes_differ()
    ensures
        "codex_runtime_unavailable"@.len() == 25,
        "codex_protocol_error"@.len() == 20,
        "codex_catalog_unavailable"@.len() == 25,
        "codex_model_unavailable"@.len() == 23,
        "kun_shared_runtime_unavailable"@.len() == 30,
        "kun_runtime_identity_mismatch"@.len() == 29,
        "kun_catalog_unavailable"@.len() == 23,
        "kun_model_unavailable"@.len() == 21,
        "kun_provider_authentication_failed"@.len() == 34,
        "runtime_authentication_failed"@.len() == 29,
        "runtime_permission_denied"@.len() == 25,
        "runtime_timeout"@.len() == 15,
        "runtime_cancelled"@.len() == 17,
        "runtime_transport_error"@.len() == 23,
        "runtime_protocol_error"@.len() == 22,
        "provider_rejected"@.len() == 17,
        "runtime_transport_closed"@.len() == 24,
        "runtime_not_configured"@.len() == 22,
        "invalid_workspace"@.len() == 17,
        "runtime_unavailable"@.len() == 19,
        "codex_runtime_unavailable"@[6] != "codex_catalog_unavailable"@[6],
        "codex_runtime_unavailable"@[0] != "runtime_permission_denied"@[0],
        "codex_catalog_unavailable"@[0] != "runtime_permission_denied"@[0],
        "codex_model_unavailable"@[0] != "kun_catalog_unavailable"@[0],
        "codex_model_unavailable"@[0] != "runtime_transport_error"@[0],
        "kun_runtime_identity_mismatch"@[0] != "runtime_authentication_failed"@[0],
        "kun_catalog_unavailable"@[0] != "runtime_transport_error"@[0],
        "runtime_cancelled"@[0] != "provider_rejected"@[0],
        "runtime_cancelled"@[0] != "invalid_workspace"@[0],
        "runtime_protocol_error"@[8] != "runtime_not_configured"@[8],
        "provider_rejected"@[0] != "invalid_workspace"@[0],
{
    reveal_strlit("codex_runtime_unavailable");
    reveal_strlit("codex_protocol_error");
    reveal_strlit("codex_catalog_unavailable");
    reveal_strlit("codex_model_unavailable");
    reveal_strlit("kun_shared_runtime_unavailable");
    reveal_strlit("kun_runtime_identity_mismatch");
    reveal_strlit("kun_catalog_unavailable");
    reveal_strlit("kun_model_unavailable");
    reveal_strlit("kun_provider_authentication_failed");
    reveal_strlit("runtime_authentication_failed");
    reveal_strlit("runtime_permission_denied");
    reveal_strlit("runtime_timeout");
    reveal_strlit("runtime_cancelled");
    reveal_strlit("runtime_transport_error");
    reveal_strlit("runtime_protocol_error");
    reveal_strlit("provider_rejected");
    reveal_strlit("runtime_transport_closed");
    reveal_strlit("runtime_not_configured");
    reveal_strlit("invalid_workspace");
    reveal_strlit("runtime_unavailable");
}

/// The categories of failures are different.
proof fn lemma_categories_differ()
    ensures
        "connector_runtime_unavailable"@.len() == 29,
        "shared_runtime_unavailable"@.len() == 26,
        "runtime_authentication_failed"@.len() == 29,
        "runtime_identity_mismatch"@.len() == 25,
        "connector_catalog_unavailable"@.len() == 29,
        "provider_authentication_failed"@.len() == 30,
        "connector_runtime_unavailable"@[0] != "runtime_authentication_failed"@[0],
        "connector_runtime_unavailable"@[10] != "connector_catalog_unavailable"@[10],
        "runtime_authentication_failed"@[0] != "connector_catalog_unavailable"@[0],
{
    reveal_strlit("connector_runtime_unavailable");
    reveal_strlit("shared_runtime_unavailable");
    reveal_strlit("runtime_authentication_failed");
    reveal_strlit("runtime_identity_mismatch");
    reveal_strlit("connector_catalog_unavailable");
    reveal_strlit("provider_authentication_failed");
}

/// The codes of failures are different.
proof fn lemma_ipc_codes_differ()
    ensures
        "CONNECTOR_RUNTIME_UNAVAILABLE"@.len() == 29,
        "CONNECTOR_SHARED_RUNTIME_UNAVAILABLE"@.len() == 36,
        "CONNECTOR_RUNTIME_AUTHENTICATION_FAILED"@.len() == 39,
        "CONNECTOR_RUNTIME_IDENTITY_MISMATCH"@.len() == 35,
        "CONNECTOR_CATALOG_UNAVAILABLE"@.len() == 29,
        "CONNECTOR_PROVIDER_AUTHENTICATION_FAILED"@.len() == 40,
        "CONNECTOR_RUNTIME_UNAVAILABLE"@[10] != "CONNECTOR_CATALOG_UNAVAILABLE"@[10],
{
    reveal_strlit("CONNECTOR_RUNTIME_UNAVAILABLE");
    reveal_strlit("CONNECTOR_SHARED_RUNTIME_UNAVAILABLE");
    reveal_strlit("CONNECTOR_RUNTIME_AUTHENTICATION_FAILED");
    reveal_strlit("CONNECTOR_RUNTIME_IDENTITY_MISMATCH");
    reveal_strlit("CONNECTOR_CATALOG_UNAVAILABLE");
    reveal_strlit("CONNECTOR_PROVIDER_AUTHENTICATION_FAILED");
}

/// A class holds the errors that are of its kind, and no other: what was cancelled is
/// never told as a failure of the provider, and no error is told as a refused sign-in
/// but a refused sign-in.
pub proof fn law_errors_are_classed_by_their_kind(e: error::ErrorView)
    ensures
        error::error_class(e) == RuntimeErrorClass::Authentication <==> e is Authentication,
        error::error_class(e) == RuntimeErrorClass::Timeout <==> e is Timeout,
        error::error_class(e) == RuntimeErrorClass::Cancelled <==> e is Cancelled,
        error::error_class(e) == RuntimeErrorClass::Provider <==> e is Provider,
        error::error_class(e) == RuntimeErrorClass::Permission <==> e is Permission
            || e is InvalidWorkspace,
        error::error_class(e) == RuntimeErrorClass::Transport <==> e is Transport
            || e is TransportClosed,
        error::error_class(e) == RuntimeErrorClass::Unknown <==> e is NotConfigured
            || e is Unsupported,
        error::error_class(e) == RuntimeErrorClass::Protocol <==> e is Protocol
            || e is InvalidStreamCapacity || e is StreamBufferFull || e is StreamTerminal
            || e is StreamTerminalMissing,
{
}

/// A failure of a connector is told exactly of the errors with its own code.
pub proof fn law_failures_are_told_by_their_code(e: error::ErrorView)
    ensures
        error::failure_of(e) == Some(ConnectorRuntimeFailure::RuntimeAuthenticationFailed)
            <==> e is Authentication,
        error::failure_of(e) == Some(ConnectorRuntimeFailure::SharedRuntimeUnavailable) <==> e
            == error::ErrorView::Transport("kun_shared_runtime_unavailable"@),
        error::failure_of(e) == Some(ConnectorRuntimeFailure::RuntimeUnavailable) <==> e
            == error::ErrorView::Transport("codex_runtime_unavailable"@),
        error::failure_of(e) == Some(ConnectorRuntimeFailure::CatalogUnavailable) <==> e
            == error::ErrorView::Transport("kun_catalog_unavailable"@) || e
            == error::ErrorView::Transport("codex_catalog_unavailable"@),
        error::failure_of(e) == Some(ConnectorRuntimeFailure::RuntimeIdentityMismatch) <==> e
            == error::ErrorView::Protocol("kun_runtime_identity_mismatch"@),
        error::failure_of(e) == Some(ConnectorRuntimeFailure::ProviderAuthenticationFailed) <==> e
            == error::ErrorView::Provider("kun_provider_authentication_failed"@),
        e is Timeout || e is Cancelled || e is Permission ==> error::failure_of(e) is None,
{
    lemma_codes_differ();
}

/// The code that is told of an error names its kind, and nothing of its own wording but
/// a known code.
pub proof fn law_codes_name_the_kind(e: error::ErrorView)
    ensures
        error::safe_error_code(e) == "runtime_authentication_failed"@ <==> e is Authentication,
        error::safe_error_code(e) == "runtime_permission_denied"@ <==> e is Permission,
        error::safe_error_code(e) == "runtime_timeout"@ <==> e is Timeout,
        error::safe_error_code(e) == "runtime_cancelled"@ <==> e is Cancelled,
        error::safe_error_code(e) == "runtime_transport_closed"@ <==> e is TransportClosed,
        error::safe_error_code(e) == "runtime_not_configured"@ <==> e is NotConfigured,
        error::safe_error_code(e) == "invalid_workspace"@ <==> e is InvalidWorkspace,
        error::safe_error_code(e) == "runtime_unavailable"@ <==> e is InvalidStreamCapacity
            || e is StreamBufferFull || e is StreamTerminal || e is StreamTerminalMissing
            || e is Unsupported,
        e matches error::ErrorView::Transport(code) ==> error::safe_error_code(e) == if code
            == "kun_shared_runtime_unavailable"@ || code == "kun_catalog_unavailable"@ || code
            == "codex_catalog_unavailable"@ || code == "codex_runtime_unavailable"@ {
            code
        } else {
            "runtime_transport_error"@
        },
        e matches error::ErrorView::Protocol(code) ==> error::safe_error_code(e) == if code
            == "kun_runtime_identity_mismatch"@ || code == "kun_model_unavailable"@ || code
            == "codex_model_unavailable"@ {
            code
        } else {
            "runtime_protocol_error"@
        },
        e matches error::ErrorView::Provider(code) ==> error::safe_error_code(e) == if code
            == "kun_provider_authentication_failed"@ {
            code
        } else {
            "provider_rejected"@
        },
{
    lemma_codes_differ();
}

/// Two failures are never told by the same code or as the same category.
pub proof fn law_failures_are_told_apart(a: ConnectorRuntimeFailure, b: ConnectorRuntimeFailure)
    ensures
        a.ipc_code_text() == b.ipc_code_text() ==> a == b,
        a.category_text() == b.category_text() ==> a == b,
        a is RuntimeUnavailable ==> a.ipc_code_text() == "CONNECTOR_RUNTIME_UNAVAILABLE"@
            && a.category_text() == "connector_runtime_unavailable"@,
        a is SharedRuntimeUnavailable ==> a.ipc_code_text()
            == "CONNECTOR_SHARED_RUNTIME_UNAVAILABLE"@ && a.category_text()
            == "shared_runtime_unavailable"@,
        a is RuntimeAuthenticationFailed ==> a.ipc_code_text()
            == "CONNECTOR_RUNTIME_AUTHENTICATION_FAILED"@ && a.category_text()
            == "runtime_authentication_failed"@,
        a is RuntimeIdentityMismatch ==> a.ipc_code_text() == "CONNECTOR_RUNTIME_IDENTITY_MISMATCH"@
            && a.category_text() == "runtime_identity_mismatch"@,
        a is CatalogUnavailable ==> a.ipc_code_text() == "CONNECTOR_CATALOG_UNAVAILABLE"@
            && a.category_text() == "connector_catalog_unavailable"@,
        a is ProviderAuthenticationFailed ==> a.ipc_code_text()
            == "CONNECTOR_PROVIDER_AUTHENTICATION_FAILED"@ && a.category_text()
            == "provider_authentication_failed"@,
{
    lemma_categories_differ();
    lemma_ipc_codes_differ();
}

/// The text of an error says what went wrong, and ends in the wording that came with it.
pub proof fn law_errors_say_what_went_wrong(e: error::ErrorView, s: Seq<char>)
    ensures
        e == error::ErrorView::Protocol(s) ==> error::error_text(e) == "runtime protocol error: "@
            + s,
        e == error::ErrorView::Transport(s) ==> error::error_text(e) == "runtime transport error: "@
            + s,
        e == error::ErrorView::Provider(s) ==> error::error_text(e)
            == "provider rejected the runtime request: "@ + s,
        e is Cancelled ==> error::error_text(e) == "runtime is cancelled"@,
        e is Timeout ==> error::error_text(e) == "runtime deadline elapsed"@,
        e is Authentication ==> error::error_text(e) == "runtime authentication failed"@,
        e is Permission ==> error::error_text(e)
            == "runtime permission does not allow this operation"@,
        e is NotConfigured ==> error::error_text(e) == "runtime is not configured"@,
        e is InvalidWorkspace ==> error::error_text(e)
            == "workspace access and cwd are inconsistent"@,
        e is TransportClosed ==> error::error_text(e)
            == "runtime transport closed before a terminal event"@,
        e is StreamTerminal ==> error::error_text(e)
            == "runtime stream already has a terminal event"@,
        e is StreamTerminalMissing ==> error::error_text(e)
            == "runtime stream ended without a terminal event"@,
        e is InvalidStreamCapacity ==> error::error_text(e)
            == "runtime stream capacity must be greater than zero"@,
        e is Unsupported ==> error::error_text(e) == "runtime adapter operation is not implemented"@,
        forall|n: usize|
            e == error::ErrorView::StreamBufferFull(n) ==> error::error_text(e)
                == "runtime stream buffer is full (capacity "@ + #[trigger] text::decimal(n as nat)
                + ")"@,
{
}

} // verus!
