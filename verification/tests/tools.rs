use lethe::tools::host::HostHandle;
use lethe::tools::hosted_plugins::{HostedPluginClient, RemoteTool, RemoteToolExposure};
use lethe::tools::registry::dispatch::ToolCall;
use lethe::tools::registry::{
    ActorToolContext, ToolContextShape, ToolPolicy, ToolRegistry, ToolRuntime, requestable_tools_directory_for,
    requestable_tools_directory_for_shape,
};
use lethe::tools::spec::{Catalog, HostCapabilities, ToolCategory, ToolDef, ToolExecution};

fn def(name: &str, category: ToolCategory, execution: ToolExecution) -> ToolDef {
    ToolDef {
        name: name.to_string(),
        description: format!("about {name}"),
        category,
        execution,
    }
}

fn catalog(browser_tools: bool) -> Catalog {
    Catalog {
        defs: vec![
            def("request_tool", ToolCategory::Requestable, ToolExecution::Sync),
            def("memory_read", ToolCategory::Initial, ToolExecution::Sync),
            def("shell_run", ToolCategory::Initial, ToolExecution::Async),
            def("web_search", ToolCategory::Requestable, ToolExecution::Async),
            def("note_search", ToolCategory::Requestable, ToolExecution::Sync),
            def("spawn_actor", ToolCategory::Actor, ToolExecution::Async),
            def("terminate", ToolCategory::ActorSubagent, ToolExecution::Sync),
            def("telegram_send", ToolCategory::Transport, ToolExecution::Async),
            def("chat_send_message", ToolCategory::TransportClient, ToolExecution::Async),
            def("browser_open", ToolCategory::BrowserBuiltin, ToolExecution::Async),
            def("browser_click", ToolCategory::BrowserBuiltin, ToolExecution::Async),
            def("vault_get", ToolCategory::AgentId, ToolExecution::Async),
            def("agent_id_show", ToolCategory::AgentId, ToolExecution::Async),
            def("alien_browser_open", ToolCategory::AgentIdBrowser, ToolExecution::Async),
            def("alien_browser_act", ToolCategory::AgentIdBrowser, ToolExecution::Async),
            def("kg_query", ToolCategory::KnowledgeGraph, ToolExecution::Sync),
            def("todo_list", ToolCategory::Requestable, ToolExecution::Sync),
            def("conversation_export", ToolCategory::CortexOnly, ToolExecution::Sync),
        ],
        host: HostCapabilities {
            vault_tools: true,
            browser_tools,
            knowledge_graph: false,
        },
    }
}

fn plugins() -> HostedPluginClient {
    HostedPluginClient {
        tools: vec![
            RemoteTool {
                name: "todo_list".to_string(),
                description: "remote todos".to_string(),
                exposure: RemoteToolExposure::Initial,
                siblings: Vec::new(),
            },
            RemoteTool {
                name: "mail_read".to_string(),
                description: "mail".to_string(),
                exposure: RemoteToolExposure::Requestable,
                siblings: vec!["mail_send".to_string()],
            },
        ],
        replaced: vec!["todo_list".to_string(), "note_search".to_string()],
        directory: "- mail_read — mail\n".to_string(),
    }
}

fn registry<'a>(runtime: ToolRuntime, catalog: &'a Catalog) -> ToolRegistry<'a> {
    ToolRegistry::with_runtime(
        HostHandle { id: 1 },
        "/work",
        "/cache",
        HostHandle { id: 2 },
        runtime,
        catalog,
    )
}

fn hosted() -> ToolRuntime {
    ToolRuntime {
        policy: ToolPolicy::HostedSafe,
        ..ToolRuntime::default()
    }
}

fn reply(call: ToolCall) -> String {
    match call {
        ToolCall::Reply(answer) => answer,
        other => panic!("not a reply: {other:?}"),
    }
}

#[test]
fn a_bare_registry_has_the_full_catalog() {
    let catalog = catalog(false);
    let registry = ToolRegistry::new(HostHandle { id: 1 }, "/work", "/cache", HostHandle { id: 2 }, &catalog);
    assert_eq!(registry.runtime.policy, ToolPolicy::Full);
    assert_eq!(registry.turn_observer(), None);
    assert_eq!(registry.files.workspace_dir, "/work");
    assert_eq!(registry.web.cache_dir, "/cache");
    assert!(!registry.files.sandboxed && !registry.image.sandboxed && !registry.browser.hosted);
    assert_eq!(registry.memory, HostHandle { id: 1 });
    assert_eq!(registry.shell, HostHandle { id: 2 });
    assert_eq!(
        registry.requestable_tool_names(),
        vec![
            "agent_id_show",
            "browser_click",
            "browser_open",
            "note_search",
            "todo_list",
            "vault_get",
            "web_search"
        ]
    );
}

#[test]
fn hosted_tools_are_confined() {
    let catalog = catalog(true);
    let mut runtime = hosted();
    runtime.observer = Some(HostHandle { id: 5 });
    let registry = registry(runtime, &catalog);
    assert!(registry.files.sandboxed);
    assert!(registry.image.sandboxed);
    assert!(registry.browser.hosted);
    assert_eq!(registry.turn_observer(), Some(HostHandle { id: 5 }));
}

#[test]
fn hosted_policy_is_an_allowlist() {
    let catalog = catalog(true);
    for name in [
        "request_tool",
        "chat_send_message",
        "memory_x",
        "archival_x",
        "conversation_x",
        "note_x",
        "todo_x",
        "agent_id_x",
        "vault_x",
        "alien_browser_x",
        "read_file",
        "write_file",
        "edit_file",
        "list_directory",
        "glob_search",
        "grep_search",
        "view_image",
        "spawn_actor",
        "terminate",
    ] {
        assert!(ToolPolicy::HostedSafe.allows_builtin(name, &catalog), "{name}");
    }
    for name in [
        "shell_run", "web_search", "browser_open", "browser_x", "telegram_send", "read_files", "memory", "", "xmemory_",
    ] {
        assert!(!ToolPolicy::HostedSafe.allows_builtin(name, &catalog), "{name}");
        assert!(ToolPolicy::Full.allows_builtin(name, &catalog), "{name}");
    }
    assert_eq!(ToolPolicy::default(), ToolPolicy::Full);
}

#[test]
fn hosted_browsing_is_the_sealed_browser_with_tenant_state() {
    let catalog = catalog(true);
    let registry_without = registry(hosted(), &catalog);
    for name in ["browser_open", "alien_browser_open", "vault_get", "shell_run"] {
        assert!(!registry_without.tool_is_available(name), "{name}");
    }
    assert!(registry_without.tool_is_available("memory_read"));
    let mut runtime = hosted();
    runtime.agent_id_state_dir = Some("/tenant".to_string());
    let with = registry(runtime, &catalog);
    assert!(with.tool_is_available("alien_browser_open"));
    assert!(with.tool_is_available("vault_get"));
    assert!(!with.tool_is_available("browser_open"));
}

#[test]
fn never_two_browsers() {
    for sealed in [false, true] {
        let catalog = catalog(sealed);
        let registry = registry(ToolRuntime::default(), &catalog);
        assert_eq!(registry.tool_is_available("browser_open"), !sealed);
        assert_eq!(registry.tool_is_available("alien_browser_open"), sealed);
    }
}

#[test]
fn transports_and_actors_decide_their_tools() {
    let catalog = catalog(false);
    let mut runtime = ToolRuntime::default();
    runtime.client = Some(HostHandle { id: 3 });
    let registry_client = registry(runtime, &catalog);
    assert!(registry_client.tool_is_available("chat_send_message"));
    assert!(!registry_client.tool_is_available("telegram_send"));
    assert!(!registry_client.tool_is_available("spawn_actor"));
    let mut runtime = ToolRuntime::default();
    runtime.client = Some(HostHandle { id: 3 });
    runtime.telegram = Some(HostHandle { id: 4 });
    runtime.actor = Some(ActorToolContext {
        runtime: HostHandle { id: 9 },
        actor_id: "actor-1".to_string(),
        is_subagent: true,
    });
    let registry_both = registry(runtime, &catalog);
    assert!(!registry_both.tool_is_available("chat_send_message"));
    assert!(registry_both.tool_is_available("telegram_send"));
    assert!(registry_both.tool_is_available("spawn_actor"));
    assert!(registry_both.tool_is_available("terminate"));
    assert!(registry_both.is_initial_tool("terminate"));
    // A subagent asks for what the cortex starts with.
    assert!(!registry_both.is_initial_tool("conversation_export"));
    assert!(registry_client.is_initial_tool("conversation_export"));
    assert!(registry_both
        .requestable_tool_names()
        .contains(&"conversation_export".to_string()));
    assert!(!registry_client.tool_is_available("kg_query"));
}

#[test]
fn remote_tools_take_over() {
    let catalog = catalog(false);
    let mut runtime = ToolRuntime::default();
    runtime.hosted_plugins = Some(plugins());
    let registry = registry(runtime, &catalog);
    assert!(registry.tool_is_available(" mail_read "));
    assert!(registry.tool_is_available("todo_list"));
    assert!(!registry.tool_is_available("note_search"));
    assert!(registry.is_initial_tool("todo_list"));
    assert!(!registry.is_initial_tool("mail_read"));
    assert!(registry.tool_is_active("mail_read", &vec!["mail_read".to_string()]));
    assert!(!registry.tool_is_active("mail_read", &Vec::new()));
    assert_eq!(
        registry.requestable_tool_names(),
        vec![
            "agent_id_show",
            "browser_click",
            "browser_open",
            "mail_read",
            "vault_get",
            "web_search"
        ]
    );
    assert_eq!(registry.group_siblings(" mail_read"), vec!["mail_send"]);
    let loaded: Vec<String> = registry
        .tools_for_active(&vec!["web_search".to_string(), "nope".to_string()])
        .into_iter()
        .map(|tool| tool.name)
        .collect();
    assert_eq!(
        loaded,
        vec!["memory_read", "shell_run", "web_search", "conversation_export", "todo_list"]
    );
    assert!(registry.tools().iter().all(|tool| registry.tool_is_available(&tool.name)));
}

#[test]
fn calls_are_decided() {
    let catalog = catalog(false);
    let mut runtime = ToolRuntime::default();
    runtime.hosted_plugins = Some(plugins());
    let registry = registry(runtime, &catalog);
    match registry.execute_async_with_call_id(" mail_read ", Some("c1".to_string())) {
        ToolCall::Invoke { name, call_id } => {
            assert_eq!(name, "mail_read");
            assert_eq!(call_id.as_deref(), Some("c1"));
        }
        other => panic!("{other:?}"),
    }
    match registry.execute_async("todo_list") {
        ToolCall::Invoke { call_id, .. } => assert_eq!(call_id, None),
        other => panic!("{other:?}"),
    }
    assert_eq!(
        reply(registry.execute("mail_read")),
        "Error: hosted plugin tool 'mail_read' requires async tool execution."
    );
    let gone = "Error: hosted replacement for tool 'note_search' is unavailable; local fallback is disabled.";
    assert_eq!(reply(registry.execute("note_search")), gone);
    assert_eq!(reply(registry.execute_async(" note_search\n")), gone);
    assert_eq!(reply(registry.execute(" nope ")), "Unknown tool: nope");
    assert_eq!(reply(registry.execute_async("nope")), "Unknown tool: nope");
    assert_eq!(
        reply(registry.execute("web_search")),
        "Error: tool 'web_search' requires async tool execution."
    );
    assert!(matches!(
        registry.execute_async("web_search"),
        ToolCall::Run { execution: ToolExecution::Async, .. }
    ));
    match registry.execute(" memory_read ") {
        ToolCall::Run { name, execution } => {
            assert_eq!(name, "memory_read");
            assert_eq!(execution, ToolExecution::Sync);
        }
        other => panic!("{other:?}"),
    }
}

#[test]
fn hidden_tools_cannot_be_called_by_name() {
    let catalog = catalog(true);
    let registry = registry(hosted(), &catalog);
    for name in ["shell_run", "browser_open"] {
        let answer = format!("Error: tool '{name}' is disabled by the active capability policy.");
        assert_eq!(reply(registry.execute_async(name)), answer);
        assert_eq!(reply(registry.execute(name)), answer);
    }
    assert!(matches!(registry.execute_async("spawn_actor"), ToolCall::Run { .. }));
}

#[test]
fn families_load_as_a_whole() {
    let catalog = catalog(true);
    let registry = registry(ToolRuntime::default(), &catalog);
    assert_eq!(registry.group_siblings("alien_browser_open"), vec!["alien_browser_act"]);
    assert_eq!(registry.group_siblings(" alien_browser_act "), vec!["alien_browser_open"]);
    assert_eq!(registry.group_siblings("vault_get"), vec!["agent_id_show"]);
    assert!(registry.group_siblings("browser_open").is_empty());
    assert!(registry.group_siblings("web_search").is_empty());
    assert!(registry.group_siblings("nope").is_empty());
}

#[test]
fn the_directory_lists_what_can_be_asked_for() {
    let catalog = catalog(false);
    let shape = ToolContextShape::default();
    assert_eq!(
        requestable_tools_directory_for_shape(shape, &catalog),
        "- agent_id_show — about agent_id_show\n- browser_click — about browser_click\n- browser_open — about browser_open\n- note_search — about note_search\n- todo_list — about todo_list\n- vault_get — about vault_get\n- web_search — about web_search"
    );
    let hosted_shape = ToolContextShape {
        policy: ToolPolicy::HostedSafe,
        ..shape
    };
    assert_eq!(
        requestable_tools_directory_for_shape(hosted_shape, &catalog),
        "- note_search — about note_search\n- todo_list — about todo_list"
    );
    let mut runtime = hosted();
    runtime.hosted_plugins = Some(plugins());
    assert_eq!(requestable_tools_directory_for(&runtime, &catalog), "- mail_read — mail");
    let registry = registry(runtime, &catalog);
    assert_eq!(registry.requestable_tools_directory(), "- mail_read — mail");
    assert_eq!(
        requestable_tools_directory_for(&hosted(), &catalog),
        requestable_tools_directory_for_shape(hosted_shape, &catalog)
    );
}

#[test]
fn the_directory_names_what_can_be_asked_for() {
    for sealed in [false, true] {
        let catalog = catalog(sealed);
        for runtime in [ToolRuntime::default(), hosted()] {
            let registry = registry(runtime, &catalog);
            let directory = registry.requestable_tools_directory();
            let names: Vec<&str> = directory
                .lines()
                .map(|line| line.strip_prefix("- ").unwrap().split_once(" — ").unwrap().0)
                .collect();
            assert_eq!(names, registry.requestable_tool_names());
        }
    }
}

#[test]
fn names_with_dashes_stay_readable() {
    let name_in = |line: &str| line.strip_prefix("- ").unwrap().split_once(" — ").unwrap().0.to_string();
    let listed = |name: &str| {
        let catalog = Catalog {
            defs: vec![def(name, ToolCategory::Requestable, ToolExecution::Sync)],
            host: HostCapabilities {
                vault_tools: false,
                browser_tools: false,
                knowledge_graph: false,
            },
        };
        let directory = requestable_tools_directory_for_shape(ToolContextShape::default(), &catalog);
        assert_eq!(directory, format!("- {name} — about {name}"));
        directory
    };
    for name in ["a—b", "—", "a— b", "a —b", "a ", "a—"] {
        assert_eq!(name_in(&listed(name)), name);
    }
    // A dash between spaces ends the name early, and so does one behind a space
    // at its end.
    assert_eq!(name_in(&listed("a — b")), "a");
    assert_eq!(name_in(&listed("a —")), "a");
}

#[test]
fn a_copied_registry_holds_the_same() {
    let catalog = catalog(false);
    let mut runtime = hosted();
    runtime.actor = Some(ActorToolContext {
        runtime: HostHandle { id: 7 },
        actor_id: "actor-1".to_string(),
        is_subagent: true,
    });
    runtime.hosted_plugins = Some(plugins());
    runtime.requested_tools = vec!["mail_read".to_string()];
    let mut registry = registry(runtime, &catalog);
    let copy = registry.clone();
    registry.runtime.requested_tools.clear();
    registry.runtime.hosted_plugins = None;
    registry.runtime.actor = None;
    assert_eq!(copy.runtime.requested_tools, vec!["mail_read".to_string()]);
    assert_eq!(
        copy.requestable_tools_directory(),
        "- conversation_export — about conversation_export\n- mail_read — mail"
    );
    let actor = copy.runtime.actor.as_ref().unwrap().clone();
    assert_eq!((actor.runtime, actor.actor_id.as_str(), actor.is_subagent), (HostHandle { id: 7 }, "actor-1", true));
    assert_eq!(copy.runtime.policy, ToolPolicy::HostedSafe);
    assert_eq!(copy.files.workspace_dir, "/work");
    assert_eq!(copy.image.workspace_dir, "/work");
    assert_eq!(copy.web.cache_dir, "/cache");
    assert_eq!(copy.browser.cache_dir, "/cache");
    assert!(copy.files.sandboxed && copy.image.sandboxed && copy.browser.hosted);
    assert_eq!((copy.memory, copy.shell), (HostHandle { id: 1 }, HostHandle { id: 2 }));
}
