use ledgerr_mcp::mcp_adapter::tool_names;
use ledgerr_mcp::rpc::{needs_authorization, rpc_method, rpc_method_answered, tool_route, RpcMethod, ToolRoute};

#[test]
fn rpc_methods_and_answers() {
    assert_eq!(rpc_method("initialize"), RpcMethod::Initialize);
    assert_eq!(rpc_method("notifications/initialized"), RpcMethod::InitializedNotification);
    assert_eq!(rpc_method("tools/list"), RpcMethod::ToolsList);
    assert_eq!(rpc_method("tools/call"), RpcMethod::ToolsCall);
    assert_eq!(rpc_method("resources/list"), RpcMethod::NotFound);
    assert_eq!(rpc_method(""), RpcMethod::NotFound);
    assert!(!rpc_method_answered(RpcMethod::InitializedNotification));
    assert!(rpc_method_answered(RpcMethod::NotFound));
    assert!(rpc_method_answered(RpcMethod::ToolsCall));
}

#[test]
fn tool_routes_of_families_and_aliases() {
    assert_eq!(tool_route("ledgerr_documents"), ToolRoute::Documents);
    assert_eq!(tool_route("ledgerr_focus"), ToolRoute::Focus);
    assert_eq!(tool_route("l3dg3rr_commit_guarded"), ToolRoute::CommitGuarded);
    assert_eq!(tool_route("l3dg3rr_hsm_resume"), ToolRoute::HsmResume);
    assert_eq!(tool_route("proxy_docling_ingest_pdf"), ToolRoute::IngestPdf);
    assert_eq!(tool_route("l3dg3rr_plugin_info"), ToolRoute::PluginInfo);
    assert_eq!(tool_route("ledgerr_schema"), ToolRoute::Unknown);
    assert_eq!(tool_route("LEDGERR_DOCUMENTS"), ToolRoute::Unknown);
}

#[test]
fn every_published_tool_is_routed() {
    for name in tool_names() {
        assert_ne!(tool_route(&name), ToolRoute::Unknown, "{name}");
    }
}

#[test]
fn only_named_agents_calling_families_are_gated() {
    assert!(needs_authorization(true, "ledgerr_review"));
    assert!(needs_authorization(true, "ledgerr_evidence"));
    assert!(!needs_authorization(false, "ledgerr_review"));
    assert!(!needs_authorization(true, "ledgerr_schema"));
    assert!(!needs_authorization(true, "l3dg3rr_classify_transaction"));
}
