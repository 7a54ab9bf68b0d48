//! Tool profiles: named bundles of tool flags, and their resolution from the
//! user's settings with the two built-in profiles.
use vstd::prelude::*;
use vstd::string::*;
use crate::registry::{names_view, pairs_view};
use crate::text::{
    name_lt, name_less, lemma_name_lt_irreflexive, lemma_name_lt_total, lemma_name_lt_transitive,
};

verus! {

/// A profile: a display name and, per tool name, whether the profile enables it.
#[derive(Clone, Debug)]
pub struct Profile {
    pub name: String,
    pub tools: Vec<(String, bool)>,
}

/// A profile as a mathematical value.
pub struct ProfileView {
    pub name: Seq<char>,
    pub tools: Seq<(Seq<char>, bool)>,
}

impl View for Profile {
    type V = ProfileView;

    open spec fn view(&self) -> ProfileView {
        ProfileView { name: self.name@, tools: pairs_view(self.tools@) }
    }
}

/// The name under which a profile's tool map refers to the scripting pseudo-tool.
pub open spec fn scripting_tool_name() -> Seq<char> {
    "lua-interpreter"@
}

pub fn scripting_tool_name_string() -> (r: String)
    ensures
        r@ == scripting_tool_name(),
{
    String::from_str("lua-interpreter")
}

pub open spec fn read_only_id() -> Seq<char> {
    "read-only"@
}

pub open spec fn code_writer_id() -> Seq<char> {
    "code-writer"@
}

/// The built-in profile that enables only tools that read.
pub open spec fn read_only_view() -> ProfileView {
    ProfileView {
        name: "Read-only"@,
        tools: seq![
            ("diagnostics"@, true),
            ("fetch"@, true),
            ("list-directory"@, true),
            ("now"@, true),
            ("path-search"@, true),
            ("read-file"@, true),
            ("regex-search"@, true),
            ("thinking"@, true),
        ],
    }
}

/// The built-in profile that also enables the tools that write.
pub open spec fn code_writer_view() -> ProfileView {
    ProfileView {
        name: "Code Writer"@,
        tools: seq![
            ("bash"@, true),
            ("copy-path"@, true),
            ("create-directory"@, true),
            ("create-file"@, true),
            ("delete-path"@, true),
            ("diagnostics"@, true),
            ("edit-file"@, true),
            ("fetch"@, true),
            ("list-directory"@, true),
            ("lua-interpreter"@, true),
            ("move-path"@, true),
            ("now"@, true),
            ("path-search"@, true),
            ("read-file"@, true),
            ("regex-search"@, true),
            ("thinking"@, true),
        ],
    }
}

/// The profile lists `name` in its tool map, whatever its flag.
pub open spec fn declares(p: ProfileView, name: Seq<char>) -> bool {
    exists|k: int| 0 <= k < p.tools.len() && #[trigger] p.tools[k].0 == name
}

/// The profile lists `name` with the flag set.
pub open spec fn enables(p: ProfileView, name: Seq<char>) -> bool {
    exists|k: int| 0 <= k < p.tools.len() && #[trigger] p.tools[k] == (name, true)
}

/// The names of `tools` whose flag is set, in order.
pub open spec fn enabled_names(tools: Seq<(Seq<char>, bool)>) -> Seq<Seq<char>>
    decreases tools.len(),
{
    if tools.len() == 0 {
        Seq::empty()
    } else {
        let rest = enabled_names(tools.drop_last());
        if tools.last().1 {
            rest.push(tools.last().0)
        } else {
            rest
        }
    }
}

fn flagged(name: &str, on: bool) -> (r: (String, bool))
    ensures
        r.0@ == name@,
        r.1 == on,
{
    (String::from_str(name), on)
}

impl Profile {
    pub fn read_only() -> (r: Profile)
        ensures
            r@ == read_only_view(),
    {
        let tools = vec![
            flagged("diagnostics", true),
            flagged("fetch", true),
            flagged("list-directory", true),
            flagged("now", true),
            flagged("path-search", true),
            flagged("read-file", true),
            flagged("regex-search", true),
            flagged("thinking", true),
        ];
        let r = Profile { name: String::from_str("Read-only"), tools };
        assert(r@.tools =~= read_only_view().tools);
        r
    }

    pub fn code_writer() -> (r: Profile)
        ensures
            r@ == code_writer_view(),
    {
        let tools = vec![
            flagged("bash", true),
            flagged("copy-path", true),
            flagged("create-directory", true),
            flagged("create-file", true),
            flagged("delete-path", true),
            flagged("diagnostics", true),
            flagged("edit-file", true),
            flagged("fetch", true),
            flagged("list-directory", true),
            flagged("lua-interpreter", true),
            flagged("move-path", true),
            flagged("now", true),
            flagged("path-search", true),
            flagged("read-file", true),
            flagged("regex-search", true),
            flagged("thinking", true),
        ];
        let r = Profile { name: String::from_str("Code Writer"), tools };
        assert(r@.tools =~= code_writer_view().tools);
        r
    }

    /// Whether the tool map lists `name`.
    pub fn declares_tool(&self, name: &String) -> (r: bool)
        ensures
            r == declares(self@, name@),
    {
        let mut k: usize = 0;
        while k < self.tools.len()
            invariant
                k <= self.tools@.len(),
                forall|q: int| 0 <= q < k ==> self.tools@[q].0@ != name@,
            decreases self.tools@.len() - k,
        {
            if self.tools[k].0 == *name {
                assert(self@.tools[k as int].0 == name@);
                return true;
            }
            k = k + 1;
        }
        assert forall|q: int| 0 <= q < self@.tools.len() implies #[trigger] self@.tools[q].0
            != name@ by {
            assert(self.tools@[q].0@ != name@);
        }
        false
    }

    /// The names that the tool map lists with the flag set, in map order.
    pub fn enabled_tool_names(&self) -> (r: Vec<String>)
        ensures
            names_view(r@) == enabled_names(self@.tools),
            forall|n: Seq<char>| names_view(r@).contains(n) <==> enables(self@, n),
    {
        let mut r: Vec<String> = Vec::new();
        let mut k: usize = 0;
        while k < self.tools.len()
            invariant
                k <= self.tools@.len(),
                names_view(r@) == enabled_names(self@.tools.take(k as int)),
                forall|n: Seq<char>|
                    names_view(r@).contains(n) <==> exists|q: int|
                        0 <= q < k && #[trigger] self@.tools[q] == (n, true),
            decreases self.tools@.len() - k,
        {
            let ghost before = r@;
            assert(self@.tools.take(k as int + 1).drop_last() =~= self@.tools.take(k as int));
            if self.tools[k].1 {
                r.push(self.tools[k].0.clone());
                assert(names_view(r@) =~= names_view(before).push(self@.tools[k as int].0));
            } else {
                assert(names_view(r@) =~= names_view(before));
            }
            assert forall|n: Seq<char>| names_view(r@).contains(n) <==> exists|q: int|
                0 <= q < k + 1 && #[trigger] self@.tools[q] == (n, true) by {
                if names_view(r@).contains(n) && !names_view(before).contains(n) {
                    assert(self@.tools[k as int] == (n, true));
                }
                if exists|q: int| 0 <= q < k + 1 && #[trigger] self@.tools[q] == (n, true) {
                    let q = choose|q: int| 0 <= q < k + 1 && #[trigger] self@.tools[q] == (n, true);
                    if q == k {
                        assert(names_view(r@)[names_view(r@).len() - 1] == n);
                    } else {
                        assert(names_view(before).contains(n));
                        let w = choose|w: int| 0 <= w < names_view(before).len() && names_view(before)[w] == n;
                        assert(names_view(r@)[w] == n);
                    }
                }
            }
            k = k + 1;
        }
        assert(self@.tools.take(k as int) =~= self@.tools);
        r
    }
}

/// Ids are strictly increasing, hence unique.
pub open spec fn ids_sorted(s: Seq<(String, Profile)>) -> bool {
    forall|i: int, j: int| 0 <= i < j < s.len() ==> name_lt(#[trigger] s[i].0@, #[trigger] s[j].0@)
}

/// What a list of (id, profile) entries maps each id to; a later entry for
/// an id overrides an earlier one.
pub open spec fn entries_map(s: Seq<(String, Profile)>) -> Map<Seq<char>, ProfileView>
    decreases s.len(),
{
    if s.len() == 0 {
        Map::empty()
    } else {
        entries_map(s.drop_last()).insert(s.last().0@, s.last().1@)
    }
}

/// The user's profiles, with each built-in profile added under its id where
/// the user has none; a user profile under a built-in id wins as it is.
pub open spec fn with_builtins(m: Map<Seq<char>, ProfileView>) -> Map<Seq<char>, ProfileView> {
    let m1 = if m.contains_key(read_only_id()) {
        m
    } else {
        m.insert(read_only_id(), read_only_view())
    };
    if m1.contains_key(code_writer_id()) {
        m1
    } else {
        m1.insert(code_writer_id(), code_writer_view())
    }
}

pub proof fn lemma_entries_map_domain(s: Seq<(String, Profile)>, k: Seq<char>)
    ensures
        entries_map(s).contains_key(k) <==> exists|i: int| 0 <= i < s.len() && #[trigger] s[i].0@ == k,
    decreases s.len(),
{
    if s.len() > 0 {
        let t = s.drop_last();
        lemma_entries_map_domain(t, k);
        if exists|i: int| 0 <= i < t.len() && #[trigger] t[i].0@ == k {
            let i = choose|i: int| 0 <= i < t.len() && #[trigger] t[i].0@ == k;
            assert(s[i].0@ == k);
        }
        if exists|i: int| 0 <= i < s.len() && #[trigger] s[i].0@ == k {
            let i = choose|i: int| 0 <= i < s.len() && #[trigger] s[i].0@ == k;
            if i < s.len() - 1 {
                assert(t[i].0@ == k);
            }
        }
    }
}

pub proof fn lemma_entries_map_at(s: Seq<(String, Profile)>, i: int)
    requires
        ids_sorted(s),
        0 <= i < s.len(),
    ensures
        entries_map(s).contains_key(s[i].0@),
        entries_map(s)[s[i].0@] == s[i].1@,
    decreases s.len(),
{
    if i < s.len() - 1 {
        let t = s.drop_last();
        assert(ids_sorted(t)) by {
            assert forall|a: int, b: int| 0 <= a < b < t.len() implies name_lt(
                #[trigger] t[a].0@,
                #[trigger] t[b].0@,
            ) by {
                assert(name_lt(s[a].0@, s[b].0@));
            }
        }
        lemma_entries_map_at(t, i);
        assert(name_lt(s[i].0@, s[s.len() - 1].0@));
        lemma_name_lt_irreflexive(s[i].0@);
        assert(t[i] == s[i]);
    }
}

/// Profiles keyed by id, in increasing order of id.
#[derive(Clone, Debug)]
pub struct ProfileSet {
    pub entries: Vec<(String, Profile)>,
}

impl ProfileSet {
    pub open spec fn wf(&self) -> bool {
        ids_sorted(self.entries@)
    }

    pub open spec fn map(&self) -> Map<Seq<char>, ProfileView> {
        entries_map(self.entries@)
    }

    pub fn new() -> (r: ProfileSet)
        ensures
            r.wf(),
            r.map() == Map::<Seq<char>, ProfileView>::empty(),
            r.entries@.len() == 0,
    {
        ProfileSet { entries: Vec::new() }
    }

    /// The position of the first entry whose id does not come before `id`.
    fn position(&self, id: &String) -> (p: usize)
        ensures
            p <= self.entries@.len(),
            forall|i: int| 0 <= i < p ==> name_lt(#[trigger] self.entries@[i].0@, id@),
            p < self.entries@.len() ==> !name_lt(self.entries@[p as int].0@, id@),
    {
        let mut p: usize = 0;
        while p < self.entries.len()
            invariant
                p <= self.entries@.len(),
                forall|i: int| 0 <= i < p ==> name_lt(#[trigger] self.entries@[i].0@, id@),
            decreases self.entries@.len() - p,
        {
            if !name_less(self.entries[p].0.as_str(), id.as_str()) {
                return p;
            }
            p = p + 1;
        }
        p
    }

    /// Whether some entry has the id `id`.
    pub fn contains_id(&self, id: &String) -> (r: bool)
        ensures
            r == self.map().contains_key(id@),
    {
        proof {
            lemma_entries_map_domain(self.entries@, id@);
        }
        let mut k: usize = 0;
        while k < self.entries.len()
            invariant
                k <= self.entries@.len(),
                forall|q: int| 0 <= q < k ==> #[trigger] self.entries@[q].0@ != id@,
            decreases self.entries@.len() - k,
        {
            if self.entries[k].0 == *id {
                assert(self.entries@[k as int].0@ == id@);
                proof {
                    lemma_entries_map_domain(self.entries@, id@);
                }
                return true;
            }
            k = k + 1;
        }
        proof {
            lemma_entries_map_domain(self.entries@, id@);
        }
        false
    }

    /// The profile with the id `id`, if any.
    pub fn get(&self, id: &String) -> (r: Option<&Profile>)
        requires
            self.wf(),
        ensures
            r is Some <==> self.map().contains_key(id@),
            r is Some ==> r->0@ == self.map()[id@],
    {
        proof {
            lemma_entries_map_domain(self.entries@, id@);
        }
        let mut k: usize = 0;
        while k < self.entries.len()
            invariant
                self.wf(),
                k <= self.entries@.len(),
                forall|q: int| 0 <= q < k ==> #[trigger] self.entries@[q].0@ != id@,
            decreases self.entries@.len() - k,
        {
            if self.entries[k].0 == *id {
                proof {
                    lemma_entries_map_at(self.entries@, k as int);
                }
                return Some(&self.entries[k].1);
            }
            k = k + 1;
        }
        None
    }

    /// Puts `profile` under `id`, replacing the profile that had that id.
    pub fn insert(&mut self, id: String, profile: Profile)
        requires
            old(self).wf(),
        ensures
            final(self).wf(),
            final(self).map() == old(self).map().insert(id@, profile@),
    {
        let ghost s = self.entries@;
        let ghost k = id@;
        let ghost v = profile@;
        let p = self.position(&id);
        let replace = p < self.entries.len() && self.entries[p].0 == id;
        if replace {
            self.entries.set(p, (id, profile));
        } else {
            self.entries.insert(p, (id, profile));
        }
        let ghost t = self.entries@;
        proof {
            // The ids stay strictly increasing.
            assert forall|a: int, b: int| 0 <= a < b < t.len() implies name_lt(
                #[trigger] t[a].0@,
                #[trigger] t[b].0@,
            ) by {
                if replace {
                    if a == p {
                        assert(name_lt(s[a].0@, s[b].0@));
                    } else if b == p {
                        assert(name_lt(s[a].0@, s[b].0@));
                    } else {
                        assert(name_lt(s[a].0@, s[b].0@));
                    }
                } else {
                    if p < s.len() {
                        lemma_name_lt_total(s[p as int].0@, k);
                    }
                    if b < p {
                        assert(name_lt(s[a].0@, s[b].0@));
                    } else if a < p && b == p {
                    } else if a < p && b > p {
                        assert(t[b] == s[b - 1]);
                        if b - 1 > a {
                            assert(name_lt(s[a].0@, s[b - 1].0@));
                        }
                    } else if a == p {
                        assert(t[b] == s[b - 1]);
                        if b - 1 > p {
                            assert(name_lt(s[p as int].0@, s[b - 1].0@));
                            lemma_name_lt_transitive(k, s[p as int].0@, s[b - 1].0@);
                        }
                    } else {
                        assert(t[a] == s[a - 1]);
                        assert(t[b] == s[b - 1]);
                        assert(name_lt(s[a - 1].0@, s[b - 1].0@));
                    }
                }
            }
            assert(ids_sorted(t));
            // Each id maps as it did, but `k`.
            let want = entries_map(s).insert(k, v);
            assert forall|key: Seq<char>| #[trigger] entries_map(t).contains_key(key)
                <==> want.contains_key(key) by {
                lemma_entries_map_domain(s, key);
                lemma_entries_map_domain(t, key);
                if key != k {
                    if exists|i: int| 0 <= i < s.len() && #[trigger] s[i].0@ == key {
                        let i = choose|i: int| 0 <= i < s.len() && #[trigger] s[i].0@ == key;
                        if replace || i < p {
                            assert(t[i].0@ == key);
                        } else {
                            assert(t[i + 1].0@ == key);
                        }
                    }
                    if exists|i: int| 0 <= i < t.len() && #[trigger] t[i].0@ == key {
                        let i = choose|i: int| 0 <= i < t.len() && #[trigger] t[i].0@ == key;
                        if replace || i < p {
                            assert(s[i].0@ == key);
                        } else {
                            assert(s[i - 1].0@ == key);
                        }
                    }
                } else {
                    assert(t[p as int].0@ == key);
                }
            }
            assert forall|key: Seq<char>| #[trigger] entries_map(t).contains_key(key)
                implies entries_map(t)[key] == want[key] by {
                lemma_entries_map_domain(t, key);
                let i = choose|i: int| 0 <= i < t.len() && #[trigger] t[i].0@ == key;
                lemma_entries_map_at(t, i);
                if key == k {
                    if i != p {
                        lemma_entries_map_at(t, p as int);
                    }
                } else {
                    if replace || i < p {
                        assert(s[i] == t[i]);
                        lemma_entries_map_at(s, i);
                    } else {
                        assert(s[i - 1] == t[i]);
                        lemma_entries_map_at(s, i - 1);
                    }
                }
            }
            assert(entries_map(t) =~= want);
        }
    }
}

/// Resolves the profiles to offer from the user's configured ones: the
/// user's profiles (a later entry for an id overriding an earlier one), plus
/// each built-in profile whose id the user does not use, ordered by id.
pub fn resolve(user: Vec<(String, Profile)>) -> (r: ProfileSet)
    ensures
        r.wf(),
        r.map() == with_builtins(entries_map(user@)),
{
    let ghost u = user@;
    let mut set = ProfileSet::new();
    let mut user = user;
    // The user's entries, last first, so that popping yields them in order.
    let mut pending: Vec<(String, Profile)> = Vec::new();
    while user.len() > 0
        invariant
            user@ + pending@.reverse() == u,
        decreases user@.len(),
    {
        let ghost before = pending@;
        let ghost ub = user@;
        let e = user.pop().unwrap();
        pending.push(e);
        assert(pending@.reverse() =~= seq![e] + before.reverse());
        assert(user@ + pending@.reverse() =~= ub + before.reverse());
    }
    assert(pending@.reverse() =~= u);
    let n = pending.len();
    let mut done: usize = 0;
    while pending.len() > 0
        invariant
            n == u.len(),
            done + pending@.len() == n,
            pending@.reverse() == u.subrange(done as int, n as int),
            set.wf(),
            set.map() == entries_map(u.subrange(0, done as int)),
        decreases pending@.len(),
    {
        let ghost before = pending@;
        let (id, profile) = pending.pop().unwrap();
        assert(before.reverse()[0] == before[before.len() - 1]);
        assert(u[done as int] == (id, profile));
        assert(pending@.reverse() =~= before.reverse().drop_first());
        assert(u.subrange(0, done as int + 1).drop_last() =~= u.subrange(0, done as int));
        set.insert(id, profile);
        done = done + 1;
        assert(pending@.reverse() =~= u.subrange(done as int, n as int));
    }
    assert(u.subrange(0, n as int) =~= u);
    let read_only = String::from_str("read-only");
    if !set.contains_id(&read_only) {
        set.insert(read_only, Profile::read_only());
    }
    let code_writer = String::from_str("code-writer");
    if !set.contains_id(&code_writer) {
        set.insert(code_writer, Profile::code_writer());
    }
    set
}

/// Resolution keeps every profile of the user as the user wrote it, also under
/// a built-in id, adds each built-in profile exactly where the user does not
/// use its id, and adds nothing else.
pub proof fn lemma_resolve_override_wins(user: Seq<(String, Profile)>, r: ProfileSet)
    requires
        r.map() == with_builtins(entries_map(user)),
    ensures
        forall|k: Seq<char>|
            #[trigger] entries_map(user).contains_key(k) ==> r.map().contains_key(k)
                && r.map()[k] == entries_map(user)[k],
        !entries_map(user).contains_key(read_only_id()) ==> r.map()[read_only_id()]
            == read_only_view(),
        !entries_map(user).contains_key(code_writer_id()) ==> r.map()[code_writer_id()]
            == code_writer_view(),
        r.map().contains_key(read_only_id()),
        r.map().contains_key(code_writer_id()),
        forall|k: Seq<char>|
            #[trigger] r.map().contains_key(k) ==> entries_map(user).contains_key(k) || k
                == read_only_id() || k == code_writer_id(),
{
    reveal_strlit("read-only");
    reveal_strlit("code-writer");
    assert(read_only_id().len() != code_writer_id().len());
}

} // verus!
