use tool_call_ui::menu::{build_context_menu, sort_by_name, Command, Menu};
use tool_call_ui::profiles::{resolve, Profile};
use tool_call_ui::registry::{SourceTools, ToolRegistry, ToolSource};
use tool_call_ui::selector::ToolSelector;

fn tools(list: &[(&str, bool)]) -> Vec<(String, bool)> {
    list.iter().map(|(n, e)| (n.to_string(), *e)).collect()
}

fn ctx(id: &str) -> ToolSource {
    ToolSource::ContextServer { id: id.to_string() }
}

fn sample_registry() -> ToolRegistry {
    ToolRegistry {
        sources: vec![
            SourceTools {
                source: ToolSource::Native,
                tools: tools(&[("c", true), ("a", true), ("b", true)]),
            },
            SourceTools { source: ctx("X"), tools: tools(&[("d", false)]) },
        ],
        scripting_enabled: false,
    }
}

fn labels(m: &Menu, section: usize) -> Vec<String> {
    m.sections[section].tools.iter().map(|t| t.label.clone()).collect()
}

#[test]
fn menu_sections_for_native_and_context_server() {
    let registry = sample_registry();
    let profiles = resolve(Vec::new());
    let m = build_context_menu(&profiles, &registry);
    assert_eq!(m.profiles_header, "Profiles");
    assert_eq!(m.profiles.len(), 2);
    assert_eq!(m.all_tools.label, "All Tools");
    assert!(!m.all_tools.checked);
    assert_eq!(m.sections.len(), 2);
    assert_eq!(m.sections[0].header, "Zed Tools");
    assert!(m.sections[0].source_toggle.is_none());
    assert_eq!(labels(&m, 0), vec!["a", "b", "c", "lua-interpreter"]);
    let flags: Vec<bool> = m.sections[0].tools.iter().map(|t| t.checked).collect();
    assert_eq!(flags, vec![true, true, true, false]);
    assert_eq!(m.sections[1].header, "X");
    let all_x = m.sections[1].source_toggle.as_ref().unwrap();
    assert_eq!(all_x.label, "All Tools");
    assert!(!all_x.checked);
    assert_eq!(labels(&m, 1), vec!["d"]);
}

#[test]
fn profile_entries_are_unchecked_and_ordered_by_id() {
    let m = build_context_menu(&resolve(Vec::new()), &sample_registry());
    assert_eq!(m.profiles[0].label, "Code Writer");
    assert_eq!(m.profiles[1].label, "Read-only");
    assert!(m.profiles.iter().all(|t| !t.checked));
    match &m.profiles[0].command {
        Command::ActivateProfile { id } => assert_eq!(id, "code-writer"),
        other => panic!("unexpected command {:?}", other),
    }
}

#[test]
fn context_server_tools_keep_registry_order() {
    let registry = ToolRegistry {
        sources: vec![
            SourceTools { source: ToolSource::Native, tools: tools(&[("zeta", true)]) },
            SourceTools { source: ctx("srv"), tools: tools(&[("z", true), ("a", false), ("m", true)]) },
        ],
        scripting_enabled: true,
    };
    let m = build_context_menu(&resolve(Vec::new()), &registry);
    assert_eq!(labels(&m, 0), vec!["lua-interpreter", "zeta"]);
    assert_eq!(labels(&m, 1), vec!["z", "a", "m"]);
    assert_eq!(
        m.sections[0].tools.iter().filter(|t| t.label == "lua-interpreter").count(),
        1
    );
}

#[test]
fn tool_toggle_commands_flip_the_shown_state() {
    let m = build_context_menu(&resolve(Vec::new()), &sample_registry());
    match &m.sections[0].tools[3].command {
        Command::SetScriptingTool { enabled } => assert!(*enabled),
        other => panic!("unexpected command {:?}", other),
    }
    match &m.sections[0].tools[0].command {
        Command::SetTool { source: ToolSource::Native, name, enabled } => {
            assert_eq!(name, "a");
            assert!(!*enabled);
        }
        other => panic!("unexpected command {:?}", other),
    }
    match &m.sections[1].tools[0].command {
        Command::SetTool { source: ToolSource::ContextServer { id }, name, enabled } => {
            assert_eq!(id, "X");
            assert_eq!(name, "d");
            assert!(*enabled);
        }
        other => panic!("unexpected command {:?}", other),
    }
}

#[test]
fn all_tools_toggle_enables_then_disables_everything() {
    let mut selector = ToolSelector::new(sample_registry(), Vec::new());
    let m = selector.build_context_menu();
    assert!(!m.all_tools.checked);
    selector.run(&m.all_tools.command);
    assert!(selector.tools.are_all_tools_enabled());
    assert!(selector.tools.is_scripting_tool_enabled());
    let m = selector.build_context_menu();
    assert!(m.all_tools.checked);
    selector.run(&m.all_tools.command);
    assert!(!selector.tools.is_scripting_tool_enabled());
    for s in &selector.tools.sources {
        assert!(s.tools.iter().all(|(_, on)| !on));
    }
    assert!(!selector.build_context_menu().all_tools.checked);
}

#[test]
fn source_toggle_changes_only_that_source() {
    let mut selector = ToolSelector::new(sample_registry(), Vec::new());
    let m = selector.build_context_menu();
    let toggle = m.sections[1].source_toggle.clone().unwrap();
    selector.run(&toggle.command);
    assert!(selector.tools.are_all_tools_from_source_enabled(&ctx("X")));
    assert!(selector.tools.are_all_tools_from_source_enabled(&ToolSource::Native));
    assert!(!selector.tools.is_scripting_tool_enabled());
    let m = selector.build_context_menu();
    assert!(m.sections[1].source_toggle.as_ref().unwrap().checked);
}

#[test]
fn single_tool_toggle_changes_one_tool() {
    let mut selector = ToolSelector::new(sample_registry(), Vec::new());
    let m = selector.build_context_menu();
    selector.run(&m.sections[0].tools[1].command);
    assert!(!selector.tools.is_enabled(&ToolSource::Native, &"b".to_string()));
    assert!(selector.tools.is_enabled(&ToolSource::Native, &"a".to_string()));
    assert!(selector.tools.is_enabled(&ToolSource::Native, &"c".to_string()));
    selector.run(&m.sections[0].tools[3].command);
    assert!(selector.tools.is_scripting_tool_enabled());
}

#[test]
fn activating_profile_replaces_native_selection() {
    let mut registry = ToolRegistry {
        sources: vec![
            SourceTools {
                source: ToolSource::Native,
                tools: tools(&[("bash", true), ("read-file", false), ("now", false)]),
            },
            SourceTools { source: ctx("X"), tools: tools(&[("d", true), ("e", false)]) },
        ],
        scripting_enabled: true,
    };
    let user = vec![(
        "mine".to_string(),
        Profile { name: "Mine".to_string(), tools: tools(&[("read-file", true), ("now", false)]) },
    )];
    let profiles = resolve(user);
    tool_call_ui::menu::perform(
        &mut registry,
        &profiles,
        &Command::ActivateProfile { id: "mine".to_string() },
    );
    assert_eq!(registry.sources[0].tools, tools(&[("bash", false), ("read-file", true), ("now", false)]));
    assert_eq!(registry.sources[1].tools, tools(&[("d", true), ("e", false)]));
    assert!(!registry.scripting_enabled);
}

#[test]
fn activating_profile_that_lists_scripting_enables_it() {
    let mut registry = sample_registry();
    let profiles = resolve(Vec::new());
    tool_call_ui::menu::perform(
        &mut registry,
        &profiles,
        &Command::ActivateProfile { id: "code-writer".to_string() },
    );
    assert!(registry.scripting_enabled);
    assert_eq!(registry.sources[0].tools, tools(&[("c", false), ("a", false), ("b", false)]));
    assert_eq!(registry.sources[1].tools, tools(&[("d", false)]));
    tool_call_ui::menu::perform(
        &mut registry,
        &profiles,
        &Command::ActivateProfile { id: "read-only".to_string() },
    );
    assert!(!registry.scripting_enabled);
}

#[test]
fn activating_unknown_profile_changes_nothing() {
    let mut registry = sample_registry();
    let profiles = resolve(Vec::new());
    tool_call_ui::menu::perform(
        &mut registry,
        &profiles,
        &Command::ActivateProfile { id: "nope".to_string() },
    );
    assert_eq!(registry.sources[0].tools, sample_registry().sources[0].tools);
    assert!(!registry.scripting_enabled);
}

#[test]
fn sort_by_name_is_stable_and_ordered() {
    let sorted = sort_by_name(tools(&[("b", true), ("a", false), ("b", false), ("ab", true), ("B", true)]));
    assert_eq!(sorted, tools(&[("B", true), ("a", false), ("ab", true), ("b", true), ("b", false)]));
    assert!(sort_by_name(Vec::new()).is_empty());
}
