use codex_usage_limiter::json::{parse_json, Json};
use codex_usage_limiter::protocol::build_initialize_params;
use codex_usage_limiter::threads::{
    extract_related_thread_ids, extract_review_thread_id,
    extract_thread_entries_from_thread_list_result, extract_thread_id, extract_turn_id,
    is_global_workspace_notification, normalize_root_path, normalize_subagent_kind,
    resolve_workspace_for_cwd, should_broadcast_global_workspace_notification,
    should_suppress_hidden_thread_event, source_subagent_kind,
    thread_started_is_memory_consolidation,
};

fn json(text: &str) -> Json {
    parse_json(text).expect("valid JSON")
}

#[test]
fn extract_thread_id_reads_camel_case() {
    let value = json(r#"{ "params": { "threadId": "thread-123" } }"#);
    assert_eq!(extract_thread_id(&value), Some("thread-123".to_string()));
}

#[test]
fn extract_thread_id_reads_snake_case() {
    let value = json(r#"{ "params": { "thread_id": "thread-456" } }"#);
    assert_eq!(extract_thread_id(&value), Some("thread-456".to_string()));
}

#[test]
fn extract_thread_id_reads_hook_notification_thread_id() {
    let value = json(
        r#"{
            "method": "hook/started",
            "params": {
                "threadId": "thread-hook-1",
                "run": { "id": "hook-1" }
            }
        }"#,
    );
    assert_eq!(extract_thread_id(&value), Some("thread-hook-1".to_string()));
}

#[test]
fn extract_thread_id_returns_none_when_missing() {
    let value = json(r#"{ "params": {} }"#);
    assert_eq!(extract_thread_id(&value), None);
}

#[test]
fn extract_turn_id_accepts_nested_turn() {
    let value = json(r#"{ "params": { "turn": { "id": "turn-123" } } }"#);
    assert_eq!(extract_turn_id(&value), Some("turn-123".to_string()));
}

#[test]
fn build_initialize_params_enables_experimental_api() {
    let params = build_initialize_params("1.2.3");
    assert_eq!(
        params
            .get("capabilities")
            .and_then(|caps| caps.get("experimentalApi"))
            .and_then(|value| match value {
                Json::Bool(enabled) => Some(*enabled),
                _ => None,
            }),
        Some(true)
    );
}

#[test]
fn extract_thread_entries_reads_result_data_items() {
    let value = json(
        r#"{
            "result": {
                "data": [
                    { "id": "thread-a", "cwd": "/tmp/a" },
                    {
                        "threadId": "thread-b",
                        "cwd": "/tmp/b",
                        "source": { "subAgent": "memory_consolidation" }
                    }
                ]
            }
        }"#,
    );
    let entries = extract_thread_entries_from_thread_list_result(&value);
    assert_eq!(entries.len(), 2);
    assert_eq!(entries[0].thread_id, "thread-a");
    assert_eq!(entries[0].cwd.as_deref(), Some("/tmp/a"));
    assert!(!entries[0].is_memory_consolidation);
    assert_eq!(entries[1].thread_id, "thread-b");
    assert_eq!(entries[1].cwd.as_deref(), Some("/tmp/b"));
    assert!(entries[1].is_memory_consolidation);
}

#[test]
fn extract_related_thread_ids_reads_spawn_hints_from_item_payloads() {
    let value = json(
        r#"{
            "method": "item/completed",
            "params": {
                "threadId": "thread-parent",
                "item": {
                    "type": "mcpToolCall",
                    "new_thread_id": "thread-child"
                }
            }
        }"#,
    );
    let ids = extract_related_thread_ids(&value);
    assert!(ids.contains(&"thread-parent".to_string()));
    assert!(ids.contains(&"thread-child".to_string()));
}

#[test]
fn extract_related_thread_ids_reads_receiver_agent_references() {
    let value = json(
        r#"{
            "method": "item/completed",
            "params": {
                "threadId": "thread-parent",
                "item": {
                    "type": "collabToolCall",
                    "receiver_agents": [
                        { "thread_id": "thread-child-a" },
                        { "thread": { "id": "thread-child-b" } }
                    ],
                    "statuses": {
                        "thread-child-c": { "status": "running" }
                    }
                }
            }
        }"#,
    );
    let ids = extract_related_thread_ids(&value);
    assert!(ids.contains(&"thread-parent".to_string()));
    assert!(ids.contains(&"thread-child-a".to_string()));
    assert!(ids.contains(&"thread-child-b".to_string()));
    assert!(ids.contains(&"thread-child-c".to_string()));
}

#[test]
fn extract_related_thread_ids_reads_singular_receiver_agent_reference() {
    let value = json(
        r#"{
            "method": "item/completed",
            "params": {
                "threadId": "thread-parent",
                "item": {
                    "type": "mcpToolCall",
                    "receiver_agent": { "thread_id": "thread-child-single" }
                }
            }
        }"#,
    );
    let ids = extract_related_thread_ids(&value);
    assert!(ids.contains(&"thread-parent".to_string()));
    assert!(ids.contains(&"thread-child-single".to_string()));
}

#[test]
fn related_thread_ids_hold_nothing_twice() {
    let value = json(
        r#"{
            "params": {
                "threadId": "thread-parent",
                "thread": { "id": "thread-parent" },
                "item": { "new_thread_id": "thread-child", "newThreadId": "thread-child" }
            }
        }"#,
    );
    let ids = extract_related_thread_ids(&value);
    for (at, id) in ids.iter().enumerate() {
        assert!(!ids[..at].contains(id), "{id} is named twice");
    }
    assert!(ids.contains(&"thread-parent".to_string()));
    assert!(ids.contains(&"thread-child".to_string()));
}

#[test]
fn resolve_workspace_for_cwd_normalizes_windows_paths() {
    let roots = vec![("ws-1".to_string(), normalize_root_path("C:\\Dev\\Codex"))];
    assert_eq!(
        resolve_workspace_for_cwd("c:/dev/codex", &roots),
        Some("ws-1".to_string())
    );
}

#[test]
fn resolve_workspace_for_cwd_normalizes_windows_namespace_paths() {
    let roots = vec![("ws-1".to_string(), normalize_root_path("C:\\Dev\\Codex"))];
    assert_eq!(
        resolve_workspace_for_cwd("\\\\?\\C:\\Dev\\Codex", &roots),
        Some("ws-1".to_string())
    );
}

#[test]
fn roots_are_compared_without_their_slashes_at_the_end() {
    for root in ["/tmp/codex", "C:/Dev/Codex", "//server/share", "//?/C:/x", "//./pipe", "a/b"] {
        let plain = normalize_root_path(root);
        assert!(!plain.contains('\\'));
        assert!(!plain.ends_with('/'));
        assert_eq!(normalize_root_path(&format!("{root}/")), plain);
        assert_eq!(normalize_root_path(&root.replace('/', "\\")), plain);
    }
    assert_eq!(normalize_root_path("/\\//"), "");
    assert_eq!(normalize_root_path(""), "");
}

#[test]
fn normalize_root_path_normalizes_windows_namespace_unc_paths() {
    assert_eq!(
        normalize_root_path("\\\\?\\UNC\\SERVER\\Share\\Repo\\"),
        "//server/share/repo"
    );
}

#[test]
fn resolve_workspace_for_cwd_matches_nested_paths() {
    let roots = vec![("ws-1".to_string(), normalize_root_path("/tmp/codex"))];
    assert_eq!(
        resolve_workspace_for_cwd("/tmp/codex/subdir/project", &roots),
        Some("ws-1".to_string())
    );
}

#[test]
fn resolve_workspace_for_cwd_prefers_longest_matching_root() {
    let roots = vec![
        ("ws-parent".to_string(), normalize_root_path("/tmp/codex")),
        ("ws-child".to_string(), normalize_root_path("/tmp/codex/subdir")),
    ];
    assert_eq!(
        resolve_workspace_for_cwd("/tmp/codex/subdir/project", &roots),
        Some("ws-child".to_string())
    );
}

#[test]
fn a_sibling_with_the_same_prefix_is_not_matched() {
    let roots = vec![("ws-1".to_string(), normalize_root_path("/tmp/codex"))];
    assert_eq!(resolve_workspace_for_cwd("/tmp/codex-other", &roots), None);
}

#[test]
fn source_subagent_kind_reads_string_variants() {
    assert_eq!(
        source_subagent_kind(&json(r#""subagent-memory-consolidation""#)),
        Some("memory_consolidation".to_string())
    );
    assert_eq!(
        source_subagent_kind(&json(r#""sub_agent_memory_consolidation""#)),
        Some("memory_consolidation".to_string())
    );
}

#[test]
fn source_subagent_kind_reads_nested_subagent_object_keys() {
    let source = json(
        r#"{
            "subAgent": {
                "memory_consolidation": {
                    "thread_spawn": { "parent_thread_id": "thread-parent" }
                }
            }
        }"#,
    );
    assert_eq!(
        source_subagent_kind(&source),
        Some("memory_consolidation".to_string())
    );
}

#[test]
fn subagent_kinds_are_normalized() {
    assert_eq!(normalize_subagent_kind("Memory-Consolidation"), "memory_consolidation");
}

#[test]
fn thread_started_memory_consolidation_detects_thread_source() {
    let value = json(
        r#"{
            "method": "thread/started",
            "params": {
                "thread": {
                    "id": "thread-1",
                    "source": {
                        "subagent": "memory_consolidation"
                    }
                }
            }
        }"#,
    );
    assert!(thread_started_is_memory_consolidation(&value));
}

#[test]
fn thread_started_memory_consolidation_detects_params_source_fallback() {
    let value = json(
        r#"{
            "method": "thread/started",
            "params": {
                "threadId": "thread-1",
                "source": {
                    "subAgent": "memory_consolidation"
                }
            }
        }"#,
    );
    assert!(thread_started_is_memory_consolidation(&value));
}

#[test]
fn thread_started_memory_consolidation_rejects_non_memory_subagent() {
    let value = json(
        r#"{
            "method": "thread/started",
            "params": {
                "thread": {
                    "id": "thread-1",
                    "source": {
                        "subAgent": "review"
                    }
                }
            }
        }"#,
    );
    assert!(!thread_started_is_memory_consolidation(&value));
}

#[test]
fn hidden_thread_suppression_allows_rpc_responses() {
    assert!(!should_suppress_hidden_thread_event(Some("thread/archived"), true));
    assert!(!should_suppress_hidden_thread_event(Some("thread/updated"), true));
    assert!(!should_suppress_hidden_thread_event(None, true));
}

#[test]
fn hidden_thread_suppression_still_blocks_non_exempt_notifications() {
    assert!(should_suppress_hidden_thread_event(Some("thread/updated"), false));
    assert!(!should_suppress_hidden_thread_event(Some("thread/archived"), false));
    assert!(!should_suppress_hidden_thread_event(Some("codex/backgroundThread"), false));
}

#[test]
fn review_threads_are_read_from_the_result() {
    assert_eq!(
        extract_review_thread_id(&json(r#"{ "result": { "reviewThreadId": "review-1" } }"#)),
        Some("review-1".to_string())
    );
}

#[test]
fn global_notifications_go_to_every_workspace_unless_they_name_one() {
    assert!(is_global_workspace_notification("account/rateLimits/updated"));
    assert!(should_broadcast_global_workspace_notification(
        Some("account/rateLimits/updated"),
        None,
        None
    ));
    assert!(!should_broadcast_global_workspace_notification(
        Some("account/rateLimits/updated"),
        Some(&"thread-1".to_string()),
        None
    ));
    assert!(!should_broadcast_global_workspace_notification(
        Some("account/rateLimits/updated"),
        None,
        Some("workspace-1")
    ));
    assert!(!should_broadcast_global_workspace_notification(Some("turn/started"), None, None));
}
