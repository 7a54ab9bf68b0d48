//! The tool menu: a declarative description built from the profiles and a
//! snapshot of the registry, and the commands that its toggles carry.
use vstd::prelude::*;
use vstd::string::*;
use crate::text::{name_lt, name_less, lemma_name_lt_transitive};
use crate::profiles::{
    declares, enables, scripting_tool_name, scripting_tool_name_string, Profile, ProfileSet,
    ProfileView,
};
use crate::registry::{names_view, pairs_view, SourceView, ToolRegistry, ToolSource};

verus! {

/// What a toggle does when the user picks it.
#[derive(Clone, Debug)]
pub enum Command {
    /// Replace the native tool selection with the profile's.
    ActivateProfile { id: String },
    SetAllTools { enabled: bool },
    SetSourceTools { source: ToolSource, enabled: bool },
    SetTool { source: ToolSource, name: String, enabled: bool },
    SetScriptingTool { enabled: bool },
}

/// A command as a mathematical value.
pub enum CommandView {
    ActivateProfile { id: Seq<char> },
    SetAllTools { enabled: bool },
    SetSourceTools { source: SourceView, enabled: bool },
    SetTool { source: SourceView, name: Seq<char>, enabled: bool },
    SetScriptingTool { enabled: bool },
}

impl View for Command {
    type V = CommandView;

    open spec fn view(&self) -> CommandView {
        match self {
            Command::ActivateProfile { id } => CommandView::ActivateProfile { id: id@ },
            Command::SetAllTools { enabled } => CommandView::SetAllTools { enabled: *enabled },
            Command::SetSourceTools { source, enabled } => CommandView::SetSourceTools {
                source: source@,
                enabled: *enabled,
            },
            Command::SetTool { source, name, enabled } => CommandView::SetTool {
                source: source@,
                name: name@,
                enabled: *enabled,
            },
            Command::SetScriptingTool { enabled } => CommandView::SetScriptingTool {
                enabled: *enabled,
            },
        }
    }
}

/// The command of the toggle of tool `name` of `source` that shows `checked`:
/// it flips that tool, and the scripting pseudo-tool through its own operation.
pub open spec fn tool_command(source: SourceView, name: Seq<char>, checked: bool) -> CommandView {
    if name == scripting_tool_name() {
        CommandView::SetScriptingTool { enabled: !checked }
    } else {
        CommandView::SetTool { source, name, enabled: !checked }
    }
}

/// The registry after activating profile `p` on `old`: each native tool is
/// enabled exactly when `p` enables it, the scripting pseudo-tool exactly when
/// `p` lists it, and the tools of every other source keep their flags.
pub open spec fn activated(old: ToolRegistry, new: ToolRegistry, p: ProfileView) -> bool {
    &&& new.same_tools(&old)
    &&& new.scripting_enabled == declares(p, scripting_tool_name())
    &&& forall|i: int, j: int|
        0 <= i < old.n_sources() && 0 <= j < old.n_tools(i) ==> #[trigger] new.enabled_at(i, j)
            == if old.source_at(i) is Native {
            enables(p, old.name_at(i, j))
        } else {
            old.enabled_at(i, j)
        }
}

/// Replaces the native tool selection with profile `p`'s.
pub fn activate_profile(registry: &mut ToolRegistry, p: &Profile)
    ensures
        activated(*old(registry), *final(registry), p@),
{
    let ghost start = *registry;
    let native = ToolSource::Native;
    registry.disable_scripting_tool();
    let ghost first = *registry;
    registry.disable_source(&native);
    let names = p.enabled_tool_names();
    let ghost mid = *registry;
    proof {
        first.lemma_same_sources(&start);
        mid.lemma_same_tools_trans(&first, &start);
    }
    registry.enable(&native, &names);
    proof {
        registry.lemma_same_tools_trans(&mid, &start);
        assert forall|i: int, j: int|
            0 <= i < start.n_sources() && 0 <= j < start.n_tools(i) implies #[trigger] registry.enabled_at(
            i,
            j,
        ) == if start.source_at(i) is Native {
            enables(p@, start.name_at(i, j))
        } else {
            start.enabled_at(i, j)
        } by {
            assert(mid.sources@[i] == mid.sources@[i]);
            assert(first.sources@[i] == start.sources@[i]);
            assert(mid.name_at(i, j) == start.name_at(i, j));
            assert(mid.enabled_at(i, j) == (start.source_at(i) != SourceView::Native
                && start.enabled_at(i, j)));
        }
    }
    let script = scripting_tool_name_string();
    let ghost after = *registry;
    if p.declares_tool(&script) {
        registry.enable_scripting_tool();
        proof {
            registry.lemma_same_sources(&after);
            registry.lemma_same_tools_trans(&after, &start);
            assert forall|i: int, j: int|
                0 <= i < start.n_sources() && 0 <= j < start.n_tools(i) implies #[trigger] registry.enabled_at(
                i,
                j,
            ) == after.enabled_at(i, j) by {
                assert(registry.sources@[i] == after.sources@[i]);
            }
        }
    }
}

/// A menu entry that shows a check mark and runs a command when picked.
#[derive(Clone, Debug)]
pub struct Toggle {
    pub label: String,
    pub checked: bool,
    pub command: Command,
}

/// The part of the menu for one tool source.
#[derive(Clone, Debug)]
pub struct Section {
    pub header: String,
    pub source: ToolSource,
    /// The toggle for all tools of the source; context servers only.
    pub source_toggle: Option<Toggle>,
    pub tools: Vec<Toggle>,
}

/// The tool menu: the profiles, the toggle for all tools, then one section
/// per tool source in registry order.
#[derive(Clone, Debug)]
pub struct Menu {
    pub profiles_header: String,
    pub profiles: Vec<Toggle>,
    pub all_tools: Toggle,
    pub sections: Vec<Section>,
}

/// The (label, checked) pairs of a list of toggles.
pub open spec fn toggle_pairs(t: Seq<Toggle>) -> Seq<(Seq<char>, bool)> {
    t.map_values(|x: Toggle| (x.label@, x.checked))
}

/// Names never decrease along the list.
pub open spec fn names_sorted(s: Seq<(Seq<char>, bool)>) -> bool {
    forall|a: int, b: int| 0 <= a < b < s.len() ==> !name_lt(#[trigger] s[b].0, #[trigger] s[a].0)
}

/// The label of the section of a source.
pub open spec fn section_header(source: SourceView) -> Seq<char> {
    match source {
        SourceView::Native => "Zed Tools"@,
        SourceView::ContextServer { id } => id,
    }
}

/// Section `s` describes the `i`-th source of `r`. Native tools, with the
/// scripting pseudo-tool added, are sorted by name; the tools of a context
/// server keep registry order, under a toggle for all of them.
pub open spec fn section_of(s: Section, r: ToolRegistry, i: int) -> bool {
    let src = r.source_at(i);
    &&& s.source@ == src
    &&& s.header@ == section_header(src)
    &&& forall|j: int|
        0 <= j < s.tools@.len() ==> (#[trigger] s.tools@[j]).command@ == tool_command(
            src,
            s.tools@[j].label@,
            s.tools@[j].checked,
        )
    &&& if src is Native {
        &&& s.source_toggle is None
        &&& names_sorted(toggle_pairs(s.tools@))
        &&& toggle_pairs(s.tools@).to_multiset() == r.tools_view(i).push(
            (scripting_tool_name(), r.scripting_enabled),
        ).to_multiset()
    } else {
        &&& s.source_toggle is Some
        &&& s.source_toggle->0.label@ == "All Tools"@
        &&& s.source_toggle->0.checked == r.source_all_enabled(src)
        &&& s.source_toggle->0.command@ == (CommandView::SetSourceTools {
            source: src,
            enabled: !r.source_all_enabled(src),
        })
        &&& toggle_pairs(s.tools@) == r.tools_view(i)
    }
}

/// `m` is the menu for `profiles` and `r`.
pub open spec fn menu_of(m: Menu, profiles: ProfileSet, r: ToolRegistry) -> bool {
    let all = r.scripting_enabled && r.all_listed_enabled();
    &&& m.profiles_header@ == "Profiles"@
    &&& m.profiles@.len() == profiles.entries@.len()
    &&& forall|k: int|
        0 <= k < m.profiles@.len() ==> {
            &&& (#[trigger] m.profiles@[k]).label@ == profiles.entries@[k].1.name@
            &&& !m.profiles@[k].checked
            &&& m.profiles@[k].command@ == (CommandView::ActivateProfile {
                id: profiles.entries@[k].0@,
            })
        }
    &&& m.all_tools.label@ == "All Tools"@
    &&& m.all_tools.checked == all
    &&& m.all_tools.command@ == (CommandView::SetAllTools { enabled: !all })
    &&& m.sections@.len() == r.n_sources()
    &&& forall|i: int| 0 <= i < r.n_sources() ==> section_of(#[trigger] m.sections@[i], r, i)
}

/// The (name, enabled) pairs of the `i`-th source of `r`, copied.
fn source_pairs(r: &ToolRegistry, i: usize) -> (out: Vec<(String, bool)>)
    requires
        i < r.n_sources(),
    ensures
        pairs_view(out@) == r.tools_view(i as int),
{
    let tools = &r.sources[i].tools;
    let mut out: Vec<(String, bool)> = Vec::new();
    let mut j: usize = 0;
    while j < tools.len()
        invariant
            j <= tools@.len(),
            pairs_view(out@) == pairs_view(tools@.subrange(0, j as int)),
        decreases tools@.len() - j,
    {
        out.push((tools[j].0.clone(), tools[j].1));
        assert(pairs_view(tools@.subrange(0, j as int + 1)) =~= pairs_view(tools@.subrange(0, j as int)).push(
            (tools@[j as int].0@, tools@[j as int].1),
        ));
        assert(pairs_view(out@) =~= pairs_view(tools@.subrange(0, j as int + 1)));
        j = j + 1;
    }
    assert(tools@.subrange(0, j as int) =~= tools@);
    out
}

/// Sorts (name, enabled) pairs by name.
pub fn sort_by_name(items: Vec<(String, bool)>) -> (r: Vec<(String, bool)>)
    ensures
        names_sorted(pairs_view(r@)),
        pairs_view(r@).to_multiset() == pairs_view(items@).to_multiset(),
{
    let mut out: Vec<(String, bool)> = Vec::new();
    let mut items = items;
    let ghost all = items@;
    proof {
        let e = pairs_view(out@);
        e.to_multiset_ensures();
        assert(e.to_multiset() =~= vstd::multiset::Multiset::empty());
        assert(e.to_multiset().add(pairs_view(items@).to_multiset()) =~= pairs_view(all).to_multiset());
    }
    // Drain from the back; the multiset does not care about the order taken.
    while items.len() > 0
        invariant
            names_sorted(pairs_view(out@)),
            pairs_view(out@).to_multiset().add(pairs_view(items@).to_multiset())
                == pairs_view(all).to_multiset(),
        decreases items@.len(),
    {
        let ghost before_items = items@;
        let ghost before_out = out@;
        let item = items.pop().unwrap();
        assert(before_items =~= items@.push(item));
        assert(pairs_view(before_items) =~= pairs_view(items@).push((item.0@, item.1)));
        proof {
            vstd::seq_lib::to_multiset_build(pairs_view(items@), (item.0@, item.1));
        }
        // Items come last first: going before every name not below the
        // item's keeps equal names in their original order.
        let mut p: usize = 0;
        while p < out.len() && name_less(out[p].0.as_str(), item.0.as_str())
            invariant
                p <= out@.len(),
                out@ == before_out,
                forall|q: int| 0 <= q < p ==> name_lt(#[trigger] out@[q].0@, item.0@),
            decreases out@.len() - p,
        {
            p = p + 1;
        }
        let ghost iv = (item.0@, item.1);
        out.insert(p, item);
        proof {
            let ov = pairs_view(before_out);
            assert(pairs_view(out@) =~= ov.insert(p as int, iv));
            vstd::seq_lib::to_multiset_insert(ov, p as int, iv);
            let nv = pairs_view(out@);
            assert forall|a: int, b: int| 0 <= a < b < nv.len() implies !name_lt(
                #[trigger] nv[b].0,
                #[trigger] nv[a].0,
            ) by {
                if a < p && b == p {
                    assert(nv[a] == ov[a]);
                    crate::text::lemma_name_lt_asymmetric(ov[a].0, iv.0);
                } else if a < p && b > p {
                    assert(nv[a] == ov[a]);
                    assert(nv[b] == ov[b - 1]);
                } else if a == p && b > p {
                    assert(nv[b] == ov[b - 1]);
                    assert(p < ov.len());
                    assert(!name_lt(ov[p as int].0, iv.0));
                    if name_lt(ov[b - 1].0, iv.0) {
                        if ov[p as int].0 != iv.0 {
                            crate::text::lemma_name_lt_total(ov[p as int].0, iv.0);
                            lemma_name_lt_transitive(ov[b - 1].0, iv.0, ov[p as int].0);
                        }
                        if b - 1 > p {
                            assert(!name_lt(ov[b - 1].0, ov[p as int].0));
                        } else {
                            crate::text::lemma_name_lt_irreflexive(ov[p as int].0);
                        }
                    }
                } else if b < p {
                    assert(nv[a] == ov[a]);
                    assert(nv[b] == ov[b]);
                } else {
                    assert(nv[a] == ov[a - 1]);
                    assert(nv[b] == ov[b - 1]);
                }
            }
        }
    }
    proof {
        assert(pairs_view(items@) =~= Seq::<(Seq<char>, bool)>::empty());
        pairs_view(items@).to_multiset_ensures();
        assert(pairs_view(items@).to_multiset() =~= vstd::multiset::Multiset::empty());
        assert(pairs_view(out@).to_multiset().add(vstd::multiset::Multiset::empty()) =~= pairs_view(out@).to_multiset());
    }
    out
}

/// The toggle of tool `name` of `source`, showing `checked`.
fn tool_toggle(source: &ToolSource, name: String, checked: bool) -> (t: Toggle)
    ensures
        t.label@ == name@,
        t.checked == checked,
        t.command@ == tool_command(source@, name@, checked),
{
    let script = scripting_tool_name_string();
    let command = if name == script {
        Command::SetScriptingTool { enabled: !checked }
    } else {
        Command::SetTool { source: source.duplicate(), name: name.clone(), enabled: !checked }
    };
    Toggle { label: name, checked, command }
}

/// One toggle per pair, in order.
fn tool_toggles(source: &ToolSource, pairs: Vec<(String, bool)>) -> (r: Vec<Toggle>)
    ensures
        toggle_pairs(r@) == pairs_view(pairs@),
        forall|j: int|
            0 <= j < r@.len() ==> (#[trigger] r@[j]).command@ == tool_command(
                source@,
                r@[j].label@,
                r@[j].checked,
            ),
{
    let mut r: Vec<Toggle> = Vec::new();
    let mut j: usize = 0;
    while j < pairs.len()
        invariant
            j <= pairs@.len(),
            toggle_pairs(r@) == pairs_view(pairs@.subrange(0, j as int)),
            forall|q: int|
                0 <= q < r@.len() ==> (#[trigger] r@[q]).command@ == tool_command(
                    source@,
                    r@[q].label@,
                    r@[q].checked,
                ),
        decreases pairs@.len() - j,
    {
        let t = tool_toggle(source, pairs[j].0.clone(), pairs[j].1);
        r.push(t);
        assert(pairs_view(pairs@.subrange(0, j as int + 1)) =~= pairs_view(
            pairs@.subrange(0, j as int),
        ).push((pairs@[j as int].0@, pairs@[j as int].1)));
        assert(toggle_pairs(r@) =~= pairs_view(pairs@.subrange(0, j as int + 1)));
        j = j + 1;
    }
    assert(pairs@.subrange(0, j as int) =~= pairs@);
    r
}

/// The section for the `i`-th source of `registry`.
fn build_section(registry: &ToolRegistry, i: usize) -> (s: Section)
    requires
        i < registry.n_sources(),
    ensures
        section_of(s, *registry, i as int),
{
    let source = &registry.sources[i].source;
    let mut pairs = source_pairs(registry, i);
    if source.is_native() {
        let ghost listed = pairs_view(pairs@);
        pairs.push((scripting_tool_name_string(), registry.is_scripting_tool_enabled()));
        assert(pairs_view(pairs@) =~= listed.push((scripting_tool_name(), registry.scripting_enabled)));
        let sorted = sort_by_name(pairs);
        let tools = tool_toggles(source, sorted);
        Section {
            header: String::from_str("Zed Tools"),
            source: source.duplicate(),
            source_toggle: None,
            tools,
        }
    } else {
        let all = registry.are_all_tools_from_source_enabled(source);
        let header = match source {
            ToolSource::ContextServer { id } => id.clone(),
            ToolSource::Native => String::new(),
        };
        let toggle = Toggle {
            label: String::from_str("All Tools"),
            checked: all,
            command: Command::SetSourceTools { source: source.duplicate(), enabled: !all },
        };
        let tools = tool_toggles(source, pairs);
        Section { header, source: source.duplicate(), source_toggle: Some(toggle), tools }
    }
}

/// Builds the tool menu for `profiles` and the current state of `registry`.
/// Building changes nothing; the toggles' commands do, once run.
pub fn build_context_menu(profiles: &ProfileSet, registry: &ToolRegistry) -> (m: Menu)
    ensures
        menu_of(m, *profiles, *registry),
{
    let mut entries: Vec<Toggle> = Vec::new();
    let mut k: usize = 0;
    while k < profiles.entries.len()
        invariant
            k <= profiles.entries@.len(),
            entries@.len() == k,
            forall|q: int|
                0 <= q < k ==> {
                    &&& (#[trigger] entries@[q]).label@ == profiles.entries@[q].1.name@
                    &&& !entries@[q].checked
                    &&& entries@[q].command@ == (CommandView::ActivateProfile {
                        id: profiles.entries@[q].0@,
                    })
                },
        decreases profiles.entries@.len() - k,
    {
        let entry = &profiles.entries[k];
        entries.push(
            Toggle {
                label: entry.1.name.clone(),
                checked: false,
                command: Command::ActivateProfile { id: entry.0.clone() },
            },
        );
        k = k + 1;
    }
    let all = registry.are_all_tools_enabled();
    let all_tools = Toggle {
        label: String::from_str("All Tools"),
        checked: all,
        command: Command::SetAllTools { enabled: !all },
    };
    let mut sections: Vec<Section> = Vec::new();
    let mut i: usize = 0;
    while i < registry.sources.len()
        invariant
            i <= registry.n_sources(),
            sections@.len() == i,
            forall|q: int| 0 <= q < i ==> section_of(#[trigger] sections@[q], *registry, q),
        decreases registry.n_sources() - i,
    {
        sections.push(build_section(registry, i));
        i = i + 1;
    }
    Menu { profiles_header: String::from_str("Profiles"), profiles: entries, all_tools, sections }
}

/// `new` is `old` after running command `c`, with `profiles` the profiles by id.
pub open spec fn command_done(
    old: ToolRegistry,
    new: ToolRegistry,
    profiles: Map<Seq<char>, ProfileView>,
    c: CommandView,
) -> bool {
    match c {
        CommandView::ActivateProfile { id } => if profiles.contains_key(id) {
            activated(old, new, profiles[id])
        } else {
            new == old
        },
        CommandView::SetAllTools { enabled } => {
            &&& new.same_tools(&old)
            &&& new.scripting_enabled == enabled
            &&& forall|i: int, j: int|
                0 <= i < old.n_sources() && 0 <= j < old.n_tools(i) ==> #[trigger] new.enabled_at(
                    i,
                    j,
                ) == enabled
        },
        CommandView::SetSourceTools { source, enabled } => {
            &&& new.same_tools(&old)
            &&& new.scripting_enabled == old.scripting_enabled
            &&& forall|i: int, j: int|
                0 <= i < old.n_sources() && 0 <= j < old.n_tools(i) ==> #[trigger] new.enabled_at(
                    i,
                    j,
                ) == if old.source_at(i) == source {
                    enabled
                } else {
                    old.enabled_at(i, j)
                }
        },
        CommandView::SetTool { source, name, enabled } => {
            &&& new.same_tools(&old)
            &&& new.scripting_enabled == old.scripting_enabled
            &&& forall|i: int, j: int|
                0 <= i < old.n_sources() && 0 <= j < old.n_tools(i) ==> #[trigger] new.enabled_at(
                    i,
                    j,
                ) == if old.source_at(i) == source && old.name_at(i, j) == name {
                    enabled
                } else {
                    old.enabled_at(i, j)
                }
        },
        CommandView::SetScriptingTool { enabled } => {
            &&& new.sources == old.sources
            &&& new.scripting_enabled == enabled
        },
    }
}

/// Runs `command` against `registry`; `profiles` gives the profile that an
/// activation names. An activation of an unknown id changes nothing.
pub fn perform(registry: &mut ToolRegistry, profiles: &ProfileSet, command: &Command)
    requires
        profiles.wf(),
    ensures
        command_done(*old(registry), *final(registry), profiles.map(), command@),
{
    match command {
        Command::ActivateProfile { id } => {
            if let Some(p) = profiles.get(id) {
                activate_profile(registry, p);
            }
        },
        Command::SetAllTools { enabled } => {
            if *enabled {
                registry.enable_all_tools();
            } else {
                registry.disable_all_tools();
            }
        },
        Command::SetSourceTools { source, enabled } => {
            if *enabled {
                registry.enable_source(source);
            } else {
                registry.disable_source(source);
            }
        },
        Command::SetTool { source, name, enabled } => {
            let names = vec![name.clone()];
            assert forall|n: Seq<char>| names_view(names@).contains(n) <==> n == name@ by {
                if n == name@ {
                    assert(names_view(names@)[0] == n);
                }
            }
            if *enabled {
                registry.enable(source, &names);
            } else {
                registry.disable(source, &names);
            }
        },
        Command::SetScriptingTool { enabled } => {
            if *enabled {
                registry.enable_scripting_tool();
            } else {
                registry.disable_scripting_tool();
            }
        },
    }
}

/// The menu's toggle for all tools is on exactly when every tool of every
/// source and the scripting pseudo-tool are enabled; running its command
/// leaves every one of them in the one state opposite to what it showed.
pub proof fn lemma_all_tools_toggle(
    profiles: ProfileSet,
    r: ToolRegistry,
    m: Menu,
    after: ToolRegistry,
)
    requires
        menu_of(m, profiles, r),
        command_done(r, after, profiles.map(), m.all_tools.command@),
    ensures
        m.all_tools.checked == (r.scripting_enabled && r.all_listed_enabled()),
        after.scripting_enabled == !m.all_tools.checked,
        forall|i: int, j: int|
            0 <= i < after.n_sources() && 0 <= j < after.n_tools(i) ==> #[trigger] after.enabled_at(
                i,
                j,
            ) == !m.all_tools.checked,
{
    assert forall|i: int, j: int|
        0 <= i < after.n_sources() && 0 <= j < after.n_tools(i) implies #[trigger] after.enabled_at(
        i,
        j,
    ) == !m.all_tools.checked by {
        assert(after.sources@[i] == after.sources@[i]);
    }
}

/// In the native section the tools are sorted by name and the scripting
/// pseudo-tool shows up exactly once, with its current flag, when no
/// registered native tool bears its name; a context server's section lists
/// its tools in registry order.
pub proof fn lemma_section_order(profiles: ProfileSet, r: ToolRegistry, m: Menu, i: int)
    requires
        menu_of(m, profiles, r),
        0 <= i < r.n_sources(),
        r.source_at(i) is Native ==> forall|j: int|
            0 <= j < r.n_tools(i) ==> #[trigger] r.name_at(i, j) != scripting_tool_name(),
    ensures
        r.source_at(i) is Native ==> {
            &&& names_sorted(toggle_pairs(m.sections@[i].tools@))
            &&& forall|b: bool|
                #[trigger] toggle_pairs(m.sections@[i].tools@).to_multiset().count(
                    (scripting_tool_name(), b),
                ) == if b == r.scripting_enabled {
                    1nat
                } else {
                    0nat
                }
        },
        !(r.source_at(i) is Native) ==> toggle_pairs(m.sections@[i].tools@) == r.tools_view(i),
{
    assert(section_of(m.sections@[i], r, i));
    if r.source_at(i) is Native {
        let listed = r.tools_view(i);
        listed.to_multiset_ensures();
        assert forall|b: bool| #[trigger] listed.to_multiset().count((scripting_tool_name(), b))
            == 0 by {
            if listed.contains((scripting_tool_name(), b)) {
                let j = choose|j: int| 0 <= j < listed.len() && listed[j] == (scripting_tool_name(), b);
                assert(r.name_at(i, j) == scripting_tool_name());
            }
        }
    }
}

/// Running the command of the toggle of the `k`-th profile activates that
/// profile.
pub proof fn lemma_profile_toggle_activates(
    profiles: ProfileSet,
    r: ToolRegistry,
    m: Menu,
    k: int,
    after: ToolRegistry,
)
    requires
        profiles.wf(),
        menu_of(m, profiles, r),
        0 <= k < m.profiles@.len(),
        command_done(r, after, profiles.map(), m.profiles@[k].command@),
    ensures
        activated(r, after, profiles.entries@[k].1@),
{
    assert(m.profiles@[k].command@ == (CommandView::ActivateProfile {
        id: profiles.entries@[k].0@,
    }));
    crate::profiles::lemma_entries_map_at(profiles.entries@, k);
}

} // verus!
