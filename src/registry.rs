//! The tool registry: per tool source, the tools it offers and whether each is
//! enabled, plus the flag of the scripting pseudo-tool, which is no entry of
//! any source.
use vstd::prelude::*;

verus! {

/// Where a tool comes from: built in, or offered by a context server.
#[derive(Clone, Debug)]
pub enum ToolSource {
    Native,
    ContextServer { id: String },
}

/// A tool source as a mathematical value.
pub enum SourceView {
    Native,
    ContextServer { id: Seq<char> },
}

impl View for ToolSource {
    type V = SourceView;

    open spec fn view(&self) -> SourceView {
        match self {
            ToolSource::Native => SourceView::Native,
            ToolSource::ContextServer { id } => SourceView::ContextServer { id: id@ },
        }
    }
}

impl ToolSource {
    /// Whether both name the same source.
    pub fn same_as(&self, other: &ToolSource) -> (r: bool)
        ensures
            r == (self@ == other@),
    {
        match (self, other) {
            (ToolSource::Native, ToolSource::Native) => true,
            (ToolSource::ContextServer { id: a }, ToolSource::ContextServer { id: b }) => *a == *b,
            _ => false,
        }
    }

    pub fn is_native(&self) -> (r: bool)
        ensures
            r == (self@ is Native),
    {
        match self {
            ToolSource::Native => true,
            _ => false,
        }
    }

    /// A copy of this source.
    pub fn duplicate(&self) -> (r: ToolSource)
        ensures
            r@ == self@,
    {
        match self {
            ToolSource::Native => ToolSource::Native,
            ToolSource::ContextServer { id } => ToolSource::ContextServer { id: id.clone() },
        }
    }
}

/// The tools of one source, in registry order, each with its enabled flag.
#[derive(Clone, Debug)]
pub struct SourceTools {
    pub source: ToolSource,
    pub tools: Vec<(String, bool)>,
}

/// A list of (name, enabled) pairs as mathematical values.
pub open spec fn pairs_view(v: Seq<(String, bool)>) -> Seq<(Seq<char>, bool)> {
    v.map_values(|p: (String, bool)| (p.0@, p.1))
}

/// A list of names as mathematical values.
pub open spec fn names_view(v: Seq<String>) -> Seq<Seq<char>> {
    v.map_values(|s: String| s@)
}

/// The source that a bulk operation is limited to, if any.
pub open spec fn source_filter(source: Option<&ToolSource>) -> Option<SourceView> {
    match source {
        Some(s) => Some(s@),
        None => None,
    }
}

/// The names that a bulk operation is limited to, if any.
pub open spec fn names_filter(names: Option<&Vec<String>>) -> Option<Seq<Seq<char>>> {
    match names {
        Some(n) => Some(names_view(n@)),
        None => None,
    }
}

/// Which tools a bulk operation reaches: those of `source` (every source when
/// `None`) whose name is in `names` (every name when `None`).
pub open spec fn selects(
    source: Option<SourceView>,
    names: Option<Seq<Seq<char>>>,
    src: SourceView,
    name: Seq<char>,
) -> bool {
    (source is None || source->0 == src) && (names is None || names->0.contains(name))
}

/// The registry of tools, grouped by source in iteration order.
#[derive(Clone, Debug)]
pub struct ToolRegistry {
    pub sources: Vec<SourceTools>,
    pub scripting_enabled: bool,
}

impl ToolRegistry {
    pub open spec fn n_sources(&self) -> int {
        self.sources@.len() as int
    }

    pub open spec fn source_at(&self, i: int) -> SourceView {
        self.sources@[i].source@
    }

    pub open spec fn n_tools(&self, i: int) -> int {
        self.sources@[i].tools@.len() as int
    }

    pub open spec fn name_at(&self, i: int, j: int) -> Seq<char> {
        self.sources@[i].tools@[j].0@
    }

    pub open spec fn enabled_at(&self, i: int, j: int) -> bool {
        self.sources@[i].tools@[j].1
    }

    /// The tools of the `i`-th source as (name, enabled) pairs.
    pub open spec fn tools_view(&self, i: int) -> Seq<(Seq<char>, bool)> {
        pairs_view(self.sources@[i].tools@)
    }

    /// Both registries hold the same sources with the same tools, in the same
    /// order; only the flags may differ.
    pub open spec fn same_tools(&self, other: &ToolRegistry) -> bool {
        &&& self.n_sources() == other.n_sources()
        &&& forall|i: int|
            #![trigger self.sources@[i]]
            #![trigger other.sources@[i]]
            0 <= i < self.n_sources() ==> {
                &&& self.source_at(i) == other.source_at(i)
                &&& self.n_tools(i) == other.n_tools(i)
                &&& forall|j: int|
                    0 <= j < self.n_tools(i) ==> #[trigger] self.name_at(i, j) == other.name_at(
                        i,
                        j,
                    )
            }
    }

    /// Every tool of every source is enabled.
    pub open spec fn all_listed_enabled(&self) -> bool {
        forall|i: int, j: int|
            0 <= i < self.n_sources() && 0 <= j < self.n_tools(i) ==> #[trigger] self.enabled_at(
                i,
                j,
            )
    }

    /// Every tool of every source whose view is `src` is enabled.
    pub open spec fn source_all_enabled(&self, src: SourceView) -> bool {
        forall|i: int, j: int|
            0 <= i < self.n_sources() && self.source_at(i) == src && 0 <= j < self.n_tools(i)
                ==> #[trigger] self.enabled_at(i, j)
    }

    /// Whether the tool `name` of `src` is listed and enabled.
    pub open spec fn tool_enabled(&self, src: SourceView, name: Seq<char>) -> bool {
        exists|i: int, j: int|
            0 <= i < self.n_sources() && 0 <= j < self.n_tools(i) && self.source_at(i) == src
                && #[trigger] self.name_at(i, j) == name && self.enabled_at(i, j)
    }

    /// An empty registry; the scripting pseudo-tool starts enabled.
    pub fn new() -> (r: ToolRegistry)
        ensures
            r.n_sources() == 0,
            r.scripting_enabled,
    {
        ToolRegistry { sources: Vec::new(), scripting_enabled: true }
    }

    pub proof fn lemma_same_tools_trans(&self, mid: &ToolRegistry, last: &ToolRegistry)
        requires
            self.same_tools(mid),
            mid.same_tools(last),
        ensures
            self.same_tools(last),
    {
        assert forall|i: int| 0 <= i < self.n_sources() implies {
            &&& self.source_at(i) == last.source_at(i)
            &&& self.n_tools(i) == last.n_tools(i)
            &&& forall|j: int|
                0 <= j < self.n_tools(i) ==> #[trigger] self.name_at(i, j) == last.name_at(i, j)
        } by {
            assert(self.sources@[i] == self.sources@[i]);
            assert(mid.sources@[i] == mid.sources@[i]);
            assert forall|j: int| 0 <= j < self.n_tools(i) implies #[trigger] self.name_at(i, j)
                == last.name_at(i, j) by {
                assert(self.name_at(i, j) == mid.name_at(i, j));
            }
        }
    }

    pub proof fn lemma_same_sources(&self, other: &ToolRegistry)
        requires
            self.sources@ == other.sources@,
        ensures
            self.same_tools(other),
    {
        assert forall|i: int| 0 <= i < self.n_sources() implies {
            &&& self.source_at(i) == other.source_at(i)
            &&& self.n_tools(i) == other.n_tools(i)
            &&& forall|j: int|
                0 <= j < self.n_tools(i) ==> #[trigger] self.name_at(i, j) == other.name_at(i, j)
        } by {
            assert(self.sources@[i] == other.sources@[i]);
        }
    }

    /// Sets the flag of the `j`-th tool of the `i`-th source to `v`.
    fn set_flag(&mut self, i: usize, j: usize, v: bool)
        requires
            i < old(self).n_sources(),
            j < old(self).n_tools(i as int),
        ensures
            final(self).same_tools(old(self)),
            final(self).scripting_enabled == old(self).scripting_enabled,
            forall|a: int, b: int|
                0 <= a < old(self).n_sources() && 0 <= b < old(self).n_tools(a)
                    ==> #[trigger] final(self).enabled_at(a, b) == if a == i && b == j {
                    v
                } else {
                    old(self).enabled_at(a, b)
                },
    {
        let ghost before = self.sources@;
        let mut tools: Vec<(String, bool)> = Vec::new();
        std::mem::swap(&mut tools, &mut self.sources[i].tools);
        set_flag_in(&mut tools, j, v);
        std::mem::swap(&mut tools, &mut self.sources[i].tools);
        assert(self.sources@[i as int].source == before[i as int].source);
        assert forall|a: int| 0 <= a < before.len() && a != i implies self.sources@[a] == before[a] by {}
    }

    /// Sets to `enabled` the flag of every tool that `selects` picks by
    /// `source` and `names`; leaves every other flag, and the scripting
    /// pseudo-tool, as they were.
    fn set_selected(&mut self, source: Option<&ToolSource>, names: Option<&Vec<String>>, enabled: bool)
        ensures
            final(self).same_tools(old(self)),
            final(self).scripting_enabled == old(self).scripting_enabled,
            forall|i: int, j: int|
                0 <= i < old(self).n_sources() && 0 <= j < old(self).n_tools(i)
                    ==> #[trigger] final(self).enabled_at(i, j) == if selects(
                    source_filter(source),
                    names_filter(names),
                    old(self).source_at(i),
                    old(self).name_at(i, j),
                ) {
                    enabled
                } else {
                    old(self).enabled_at(i, j)
                },
    {
        let ghost sel_source = source_filter(source);
        let ghost sel_names = names_filter(names);
        let ghost start = *self;
        let n = self.sources.len();
        let mut i: usize = 0;
        while i < n
            invariant
                n == start.n_sources(),
                i <= n,
                sel_source == source_filter(source),
                sel_names == names_filter(names),
                self.same_tools(&start),
                self.scripting_enabled == start.scripting_enabled,
                forall|a: int, j: int|
                    0 <= a < n && 0 <= j < start.n_tools(a) ==> #[trigger] self.enabled_at(a, j)
                        == if a < i && selects(
                        sel_source,
                        sel_names,
                        start.source_at(a),
                        start.name_at(a, j),
                    ) {
                        enabled
                    } else {
                        start.enabled_at(a, j)
                    },
            decreases n - i,
        {
            assert(self.source_at(i as int) == start.source_at(i as int));
            assert(self.n_tools(i as int) == start.n_tools(i as int));
            let in_source = match source {
                Some(s) => {
                    s.same_as(&self.sources[i].source)
                },
                None => true,
            };
            assert(in_source == (sel_source is None || sel_source->0 == start.source_at(i as int)));
            if in_source {
                let m = self.sources[i].tools.len();
                let mut j: usize = 0;
                while j < m
                    invariant
                        n == start.n_sources(),
                        i < n,
                        sel_source == source_filter(source),
                        sel_names == names_filter(names),
                        j <= m,
                        m == start.n_tools(i as int),
                        self.n_tools(i as int) == m,
                        in_source,
                        in_source == (sel_source is None || sel_source->0 == start.source_at(
                            i as int,
                        )),
                        self.same_tools(&start),
                        self.scripting_enabled == start.scripting_enabled,
                        forall|a: int, b: int|
                            0 <= a < n && 0 <= b < start.n_tools(a) ==> #[trigger] self.enabled_at(
                                a,
                                b,
                            ) == if (a < i || (a == i && b < j)) && selects(
                                sel_source,
                                sel_names,
                                start.source_at(a),
                                start.name_at(a, b),
                            ) {
                                enabled
                            } else {
                                start.enabled_at(a, b)
                            },
                    decreases m - j,
                {
                    assert(self.n_tools(i as int) == start.n_tools(i as int));
                    assert(self.name_at(i as int, j as int) == start.name_at(i as int, j as int));
                    let hit = match names {
                        Some(list) => {
                            contains_name(list, &self.sources[i].tools[j].0)
                        },
                        None => true,
                    };
                    let ghost want = selects(
                        sel_source,
                        sel_names,
                        start.source_at(i as int),
                        start.name_at(i as int, j as int),
                    );
                    assert(hit == want);
                    if hit {
                        let ghost prev = *self;
                        self.set_flag(i, j, enabled);
                        proof {
                            self.lemma_same_tools_trans(&prev, &start);
                            assert forall|a: int, b: int|
                                0 <= a < n && 0 <= b < start.n_tools(a) implies #[trigger] self.enabled_at(a, b)
                                    == if a == i && b == j {
                                    enabled
                                } else {
                                    prev.enabled_at(a, b)
                                } by {
                                assert(prev.sources@[a] == prev.sources@[a]);
                            }
                        }
                    }
                    assert forall|a: int, b: int|
                        0 <= a < n && 0 <= b < start.n_tools(a) implies #[trigger] self.enabled_at(a, b)
                            == if (a < i || (a == i && b < j + 1)) && selects(
                            sel_source,
                            sel_names,
                            start.source_at(a),
                            start.name_at(a, b),
                        ) {
                            enabled
                        } else {
                            start.enabled_at(a, b)
                        } by {
                        if a == i && b == j {
                            assert(hit == want);
                        }
                    }
                    j = j + 1;
                }
            }
            i = i + 1;
        }
    }

    /// Enables the tools of `source` whose name is in `names`.
    pub fn enable(&mut self, source: &ToolSource, names: &Vec<String>)
        ensures
            final(self).same_tools(old(self)),
            final(self).scripting_enabled == old(self).scripting_enabled,
            forall|i: int, j: int|
                0 <= i < old(self).n_sources() && 0 <= j < old(self).n_tools(i)
                    ==> #[trigger] final(self).enabled_at(i, j) == ((old(self).source_at(i)
                    == source@ && names_view(names@).contains(old(self).name_at(i, j)))
                    || old(self).enabled_at(i, j)),
    {
        self.set_selected(Some(source), Some(names), true);
    }

    /// Disables the tools of `source` whose name is in `names`.
    pub fn disable(&mut self, source: &ToolSource, names: &Vec<String>)
        ensures
            final(self).same_tools(old(self)),
            final(self).scripting_enabled == old(self).scripting_enabled,
            forall|i: int, j: int|
                0 <= i < old(self).n_sources() && 0 <= j < old(self).n_tools(i)
                    ==> #[trigger] final(self).enabled_at(i, j) == (!(old(self).source_at(i)
                    == source@ && names_view(names@).contains(old(self).name_at(i, j)))
                    && old(self).enabled_at(i, j)),
    {
        self.set_selected(Some(source), Some(names), false);
    }

    /// Enables every tool of `source`.
    pub fn enable_source(&mut self, source: &ToolSource)
        ensures
            final(self).same_tools(old(self)),
            final(self).scripting_enabled == old(self).scripting_enabled,
            forall|i: int, j: int|
                0 <= i < old(self).n_sources() && 0 <= j < old(self).n_tools(i)
                    ==> #[trigger] final(self).enabled_at(i, j) == (old(self).source_at(i)
                    == source@ || old(self).enabled_at(i, j)),
    {
        self.set_selected(Some(source), None, true);
    }

    /// Disables every tool of `source`.
    pub fn disable_source(&mut self, source: &ToolSource)
        ensures
            final(self).same_tools(old(self)),
            final(self).scripting_enabled == old(self).scripting_enabled,
            forall|i: int, j: int|
                0 <= i < old(self).n_sources() && 0 <= j < old(self).n_tools(i)
                    ==> #[trigger] final(self).enabled_at(i, j) == (old(self).source_at(i)
                    != source@ && old(self).enabled_at(i, j)),
    {
        self.set_selected(Some(source), None, false);
    }

    /// Enables every tool of every source and the scripting pseudo-tool.
    pub fn enable_all_tools(&mut self)
        ensures
            final(self).same_tools(old(self)),
            final(self).scripting_enabled,
            final(self).all_listed_enabled(),
    {
        self.scripting_enabled = true;
        self.set_selected(None, None, true);
    }

    /// Disables every tool of every source and the scripting pseudo-tool.
    pub fn disable_all_tools(&mut self)
        ensures
            final(self).same_tools(old(self)),
            !final(self).scripting_enabled,
            forall|i: int, j: int|
                0 <= i < old(self).n_sources() && 0 <= j < old(self).n_tools(i)
                    ==> !#[trigger] final(self).enabled_at(i, j),
    {
        self.scripting_enabled = false;
        self.set_selected(None, None, false);
    }

    pub fn enable_scripting_tool(&mut self)
        ensures
            final(self).sources == old(self).sources,
            final(self).scripting_enabled,
    {
        self.scripting_enabled = true;
    }

    pub fn disable_scripting_tool(&mut self)
        ensures
            final(self).sources == old(self).sources,
            !final(self).scripting_enabled,
    {
        self.scripting_enabled = false;
    }

    pub fn is_scripting_tool_enabled(&self) -> (r: bool)
        ensures
            r == self.scripting_enabled,
    {
        self.scripting_enabled
    }

    /// Whether every tool of every source, and the scripting pseudo-tool, is
    /// enabled.
    pub fn are_all_tools_enabled(&self) -> (r: bool)
        ensures
            r == (self.scripting_enabled && self.all_listed_enabled()),
    {
        if !self.scripting_enabled {
            return false;
        }
        let mut i: usize = 0;
        while i < self.sources.len()
            invariant
                i <= self.n_sources(),
                forall|a: int, b: int|
                    0 <= a < i && 0 <= b < self.n_tools(a) ==> #[trigger] self.enabled_at(a, b),
            decreases self.n_sources() - i,
        {
            let mut j: usize = 0;
            while j < self.sources[i].tools.len()
                invariant
                    i < self.n_sources(),
                    j <= self.n_tools(i as int),
                    forall|a: int, b: int|
                        (0 <= a < i && 0 <= b < self.n_tools(a)) || (a == i && 0 <= b < j)
                            ==> #[trigger] self.enabled_at(a, b),
                decreases self.n_tools(i as int) - j,
            {
                if !self.sources[i].tools[j].1 {
                    assert(!self.enabled_at(i as int, j as int));
                    return false;
                }
                j = j + 1;
            }
            i = i + 1;
        }
        true
    }

    /// Whether every tool of `source` is enabled.
    pub fn are_all_tools_from_source_enabled(&self, source: &ToolSource) -> (r: bool)
        ensures
            r == self.source_all_enabled(source@),
    {
        let mut i: usize = 0;
        while i < self.sources.len()
            invariant
                i <= self.n_sources(),
                forall|a: int, b: int|
                    0 <= a < i && self.source_at(a) == source@ && 0 <= b < self.n_tools(a)
                        ==> #[trigger] self.enabled_at(a, b),
            decreases self.n_sources() - i,
        {
            if source.same_as(&self.sources[i].source) {
                let mut j: usize = 0;
                while j < self.sources[i].tools.len()
                    invariant
                        i < self.n_sources(),
                        self.source_at(i as int) == source@,
                        j <= self.n_tools(i as int),
                        forall|a: int, b: int|
                            (0 <= a < i && self.source_at(a) == source@ && 0 <= b < self.n_tools(a))
                                || (a == i && 0 <= b < j) ==> #[trigger] self.enabled_at(a, b),
                    decreases self.n_tools(i as int) - j,
                {
                    if !self.sources[i].tools[j].1 {
                        assert(!self.enabled_at(i as int, j as int));
                        return false;
                    }
                    j = j + 1;
                }
            }
            i = i + 1;
        }
        true
    }

    /// Whether the tool `name` of `source` is listed and enabled.
    pub fn is_enabled(&self, source: &ToolSource, name: &String) -> (r: bool)
        ensures
            r == self.tool_enabled(source@, name@),
    {
        let mut i: usize = 0;
        while i < self.sources.len()
            invariant
                i <= self.n_sources(),
                forall|a: int, b: int|
                    0 <= a < i && 0 <= b < self.n_tools(a) && self.source_at(a) == source@
                        && #[trigger] self.name_at(a, b) == name@ ==> !self.enabled_at(a, b),
            decreases self.n_sources() - i,
        {
            if source.same_as(&self.sources[i].source) {
                let mut j: usize = 0;
                while j < self.sources[i].tools.len()
                    invariant
                        i < self.n_sources(),
                        self.source_at(i as int) == source@,
                        j <= self.n_tools(i as int),
                        forall|a: int, b: int|
                            ((0 <= a < i && 0 <= b < self.n_tools(a) && self.source_at(a) == source@)
                                || (a == i && 0 <= b < j)) && #[trigger] self.name_at(a, b) == name@
                                ==> !self.enabled_at(a, b),
                    decreases self.n_tools(i as int) - j,
                {
                    if self.sources[i].tools[j].1 && self.sources[i].tools[j].0 == *name {
                        assert(self.name_at(i as int, j as int) == name@);
                        return true;
                    }
                    j = j + 1;
                }
            }
            i = i + 1;
        }
        false
    }
}

/// Sets the flag of the `j`-th pair of `tools` to `v`.
fn set_flag_in(tools: &mut Vec<(String, bool)>, j: usize, v: bool)
    requires
        j < old(tools)@.len(),
    ensures
        final(tools)@ == old(tools)@.update(j as int, (old(tools)@[j as int].0, v)),
{
    tools[j].1 = v;
}

/// Whether `name` is among `list`.
pub fn contains_name(list: &Vec<String>, name: &String) -> (r: bool)
    ensures
        r == names_view(list@).contains(name@),
{
    let mut k: usize = 0;
    while k < list.len()
        invariant
            k <= list@.len(),
            forall|q: int| 0 <= q < k ==> list@[q]@ != name@,
        decreases list@.len() - k,
    {
        if list[k] == *name {
            assert(names_view(list@)[k as int] == name@);
            return true;
        }
        k = k + 1;
    }
    assert forall|q: int| 0 <= q < names_view(list@).len() implies names_view(list@)[q] != name@ by {
        assert(list@[q]@ != name@);
    }
    false
}

} // verus!
