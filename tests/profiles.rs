use tool_call_ui::profiles::{resolve, Profile, ProfileSet};
use tool_call_ui::text::name_less;

fn ids(set: &ProfileSet) -> Vec<String> {
    set.entries.iter().map(|(id, _)| id.clone()).collect()
}

#[test]
fn resolve_adds_both_builtins() {
    let user = vec![(
        "writer".to_string(),
        Profile { name: "Writer".to_string(), tools: vec![("bash".to_string(), true)] },
    )];
    let set = resolve(user);
    assert_eq!(ids(&set), vec!["code-writer", "read-only", "writer"]);
    let ro = set.get(&"read-only".to_string()).unwrap();
    assert_eq!(ro.name, "Read-only");
    assert!(ro.tools.iter().all(|(_, on)| *on));
    assert_eq!(set.get(&"code-writer".to_string()).unwrap().name, "Code Writer");
}

#[test]
fn resolve_keeps_user_profile_under_builtin_id() {
    let mine = Profile { name: "My Read".to_string(), tools: vec![("fetch".to_string(), false)] };
    let set = resolve(vec![("read-only".to_string(), mine.clone())]);
    assert_eq!(ids(&set), vec!["code-writer", "read-only"]);
    let ro = set.get(&"read-only".to_string()).unwrap();
    assert_eq!(ro.name, "My Read");
    assert_eq!(ro.tools, mine.tools);
}

#[test]
fn resolve_of_nothing_gives_the_builtins() {
    let set = resolve(Vec::new());
    assert_eq!(ids(&set), vec!["code-writer", "read-only"]);
    assert!(set.contains_id(&"read-only".to_string()));
    assert!(!set.contains_id(&"other".to_string()));
    assert!(set.get(&"other".to_string()).is_none());
}

#[test]
fn later_user_entry_wins() {
    let a = Profile { name: "First".to_string(), tools: Vec::new() };
    let b = Profile { name: "Second".to_string(), tools: Vec::new() };
    let set = resolve(vec![("p".to_string(), a), ("p".to_string(), b)]);
    assert_eq!(ids(&set), vec!["code-writer", "p", "read-only"]);
    assert_eq!(set.get(&"p".to_string()).unwrap().name, "Second");
}

#[test]
fn enabled_tool_names_skip_disabled() {
    let p = Profile {
        name: "P".to_string(),
        tools: vec![("a".to_string(), true), ("b".to_string(), false), ("c".to_string(), true)],
    };
    assert_eq!(p.enabled_tool_names(), vec!["a", "c"]);
    assert!(p.declares_tool(&"b".to_string()));
    assert!(!p.declares_tool(&"d".to_string()));
}

#[test]
fn name_order_is_code_point_order() {
    assert!(name_less("a", "b"));
    assert!(!name_less("b", "a"));
    assert!(name_less("ab", "abc"));
    assert!(!name_less("abc", "ab"));
    assert!(!name_less("same", "same"));
    assert!(name_less("Z", "a"));
    assert!(name_less("", "a"));
    assert!(!name_less("", ""));
}
