//! Plugins and their registry: unique names, declared dependencies, and an
//! initialization order that puts every plugin after those it depends on.
use vstd::prelude::*;
use crate::config::ServerConfig;
use crate::error::AeroXError;

verus! {

broadcast use vstd::string::group_string_axioms;

/// A unit of functionality added to an application.
pub trait Plugin {
    /// Sets the plugin up.
    fn build(&self) {
    }

    /// The plugin's unique name.
    fn name(&self) -> &'static str;

    /// Whether the application cannot run without it.
    fn is_required(&self) -> bool {
        false
    }

    /// Names of the plugins this one must be initialized after.
    fn dependencies(&self) -> &'static [&'static str] {
        &[]
    }
}

impl<T: Plugin + ?Sized> Plugin for Box<T> {
    fn build(&self) {
        (**self).build()
    }

    fn name(&self) -> &'static str {
        (**self).name()
    }

    fn is_required(&self) -> bool {
        (**self).is_required()
    }

    fn dependencies(&self) -> &'static [&'static str] {
        (**self).dependencies()
    }
}

/// Registered plugins in registration order, with their names and
/// dependencies.
pub struct PluginRegistry<P> {
    plugins: Vec<P>,
    names: Vec<String>,
    deps: Vec<Vec<String>>,
}

/// The texts of a list of strings.
pub open spec fn texts(v: Seq<String>) -> Seq<Seq<char>> {
    Seq::new(v.len(), |i: int| v[i]@)
}

/// Whether `order` lists each of `names` exactly once, and every plugin
/// comes after each registered plugin it depends on.
pub open spec fn is_init_order(names: Seq<Seq<char>>, deps: Seq<Seq<Seq<char>>>, order: Seq<Seq<char>>) -> bool {
    &&& order.len() == names.len()
    &&& order.no_duplicates()
    &&& forall|i: int| 0 <= i < names.len() ==> order.contains(#[trigger] names[i])
    &&& forall|i: int, j: int, d: int|
        0 <= i < names.len() && 0 <= j < names.len() && 0 <= d < deps[i].len() && #[trigger] deps[i][d]
            == #[trigger] names[j] ==> order.index_of(names[j]) < order.index_of(names[i])
}

/// Whether the plugins marked `false` in `placed` are stuck: each of them
/// depends on a registered plugin that is also unplaced. Such a set holds a
/// dependency cycle.
pub open spec fn stuck(names: Seq<Seq<char>>, deps: Seq<Seq<Seq<char>>>, placed: Seq<bool>) -> bool {
    &&& exists|i: int| 0 <= i < names.len() && !(#[trigger] placed[i])
    &&& forall|i: int|
        0 <= i < names.len() && !(#[trigger] placed[i]) ==> exists|d: int, j: int|
            0 <= d < deps[i].len() && 0 <= j < names.len() && deps[i][d] == names[j] && !placed[j]
}

/// Whether every dependency names a registered plugin.
pub open spec fn deps_registered(names: Seq<Seq<char>>, deps: Seq<Seq<Seq<char>>>) -> bool {
    forall|i: int, d: int|
        0 <= i < deps.len() && 0 <= d < deps[i].len() ==> names.contains(#[trigger] deps[i][d])
}

fn position(names: &Vec<String>, name: &String) -> (r: Option<usize>)
    ensures
        r is None ==> !texts(names@).contains(name@),
        r is Some ==> r->Some_0 < names@.len() && names@[r->Some_0 as int]@ == name@,
{
    let mut i: usize = 0;
    while i < names.len()
        invariant
            i <= names@.len(),
            forall|j: int| 0 <= j < i ==> names@[j]@ != name@,
        decreases names@.len() - i,
    {
        if names[i] == *name {
            return Some(i);
        }
        i = i + 1;
    }
    proof {
        if texts(names@).contains(name@) {
            let j = choose|j: int| 0 <= j < texts(names@).len() && texts(names@)[j] == name@;
            assert(names@[j]@ == name@);
        }
    }
    None
}

impl<P: Plugin> PluginRegistry<P> {
    /// Registered names, in registration order.
    pub closed spec fn names(&self) -> Seq<Seq<char>> {
        texts(self.names@)
    }

    /// Dependencies of each registered plugin, in registration order.
    pub closed spec fn dependency_lists(&self) -> Seq<Seq<Seq<char>>> {
        Seq::new(self.deps@.len(), |i: int| texts(self.deps@[i]@))
    }

    /// Registered plugins, in registration order.
    pub closed spec fn entries(&self) -> Seq<P> {
        self.plugins@
    }

    /// Names are unique and the three lists run in step.
    pub closed spec fn wf(&self) -> bool {
        &&& self.names@.len() == self.plugins@.len()
        &&& self.deps@.len() == self.plugins@.len()
        &&& texts(self.names@).no_duplicates()
    }

    /// An empty registry.
    pub fn new() -> (r: PluginRegistry<P>)
        ensures
            r.wf(),
            r.names() == Seq::<Seq<char>>::empty(),
            r.entries() == Seq::<P>::empty(),
    {
        let r = PluginRegistry { plugins: Vec::new(), names: Vec::new(), deps: Vec::new() };
        assert(r.names() =~= Seq::<Seq<char>>::empty());
        r
    }

    /// Registers `plugin` under `name` with dependencies `deps`; fails when
    /// the name is taken, leaving the registry as it was.
    pub fn register(&mut self, name: &str, deps: &[&str], plugin: P) -> (r: Result<(), AeroXError>)
        requires
            old(self).wf(),
        ensures
            final(self).wf(),
            r is Ok <==> !old(self).names().contains(name@),
            r is Ok ==> final(self).names() == old(self).names().push(name@)
                && final(self).entries() == old(self).entries().push(plugin)
                && final(self).dependency_lists() == old(self).dependency_lists().push(
                Seq::new(deps@.len(), |i: int| deps@[i]@),
            ),
            r is Err ==> final(self).names() == old(self).names() && final(self).entries() == old(
                self,
            ).entries() && final(self).dependency_lists() == old(self).dependency_lists()
                && (r->Err_0 matches AeroXError::Plugin(m) && m@ == "插件已存在: "@ + name@),
    {
        let owned = name.to_string();
        match position(&self.names, &owned) {
            Some(k) => {
                assert(texts(self.names@)[k as int] == name@);
                let mut m = "插件已存在: ".to_string();
                m.append(name);
                return Err(AeroXError::Plugin(m));
            },
            None => {},
        }
        let mut dep_list: Vec<String> = Vec::new();
        let mut i: usize = 0;
        while i < deps.len()
            invariant
                i <= deps@.len(),
                dep_list@.len() == i,
                forall|j: int| 0 <= j < i ==> (#[trigger] dep_list@[j])@ == deps@[j]@,
            decreases deps@.len() - i,
        {
            dep_list.push(deps[i].to_string());
            i = i + 1;
        }
        let ghost old_names = self.names@;
        let ghost old_deps = self.deps@;
        self.names.push(owned);
        self.deps.push(dep_list);
        self.plugins.push(plugin);
        proof {
            assert(texts(self.names@) =~= texts(old_names).push(name@));
            assert(texts(dep_list@) =~= Seq::new(deps@.len(), |i: int| deps@[i]@));
            assert(self.dependency_lists() =~= old(self).dependency_lists().push(
                Seq::new(deps@.len(), |i: int| deps@[i]@),
            ));
        }
        Ok(())
    }

    /// Registers `plugin` under its own name and dependencies; fails when
    /// that name is taken, leaving the registry as it was.
    pub fn add(&mut self, plugin: P) -> (r: Result<(), AeroXError>)
        requires
            old(self).wf(),
        ensures
            final(self).wf(),
            r is Ok ==> final(self).names().drop_last() == old(self).names() && final(self).names().len()
                == old(self).names().len() + 1 && !old(self).names().contains(final(self).names().last())
                && final(self).entries() == old(self).entries().push(plugin),
            r is Err ==> final(self).names() == old(self).names() && final(self).entries() == old(
                self,
            ).entries() && (r->Err_0 matches AeroXError::Plugin(m) && exists|i: int|
                0 <= i < old(self).names().len() && m@ == "插件已存在: "@ + old(self).names()[i]),
    {
        let name = plugin.name();
        let deps = plugin.dependencies();
        let r = self.register(name, deps, plugin);
        proof {
            if r is Ok {
                assert(self.names().drop_last() =~= old(self).names());
            } else {
                let i = choose|i: int| 0 <= i < old(self).names().len() && old(self).names()[i] == name@;
            }
        }
        r
    }

    /// The registered plugins, in registration order.
    pub fn plugins(&self) -> (r: &[P])
        ensures
            r@ == self.entries(),
    {
        self.plugins.as_slice()
    }

    /// Number of registered plugins.
    pub fn count(&self) -> (r: usize)
        requires
            self.wf(),
        ensures
            r == self.entries().len(),
            r == self.names().len(),
    {
        self.plugins.len()
    }

    /// Checks that every dependency names a registered plugin; the error
    /// names a plugin and a dependency of it that is missing.
    pub fn validate_dependencies(&self) -> (r: Result<(), AeroXError>)
        requires
            self.wf(),
        ensures
            r is Ok <==> deps_registered(self.names(), self.dependency_lists()),
            r is Err ==> (r->Err_0 matches AeroXError::Plugin(m) && exists|i: int, d: int|
                0 <= i < self.names().len() && 0 <= d < self.dependency_lists()[i].len()
                    && !self.names().contains(self.dependency_lists()[i][d]) && m@ == "插件 "@
                    + self.names()[i] + " 依赖的插件 "@ + self.dependency_lists()[i][d] + " 未注册"@),
    {
        let mut i: usize = 0;
        while i < self.deps.len()
            invariant
                self.wf(),
                i <= self.deps@.len(),
                forall|a: int, d: int|
                    0 <= a < i && 0 <= d < self.dependency_lists()[a].len() ==> self.names().contains(
                        #[trigger] self.dependency_lists()[a][d],
                    ),
            decreases self.deps@.len() - i,
        {
            let list = &self.deps[i];
            let mut d: usize = 0;
            while d < list.len()
                invariant
                    self.wf(),
                    i < self.deps@.len(),
                    *list == self.deps@[i as int],
                    d <= list@.len(),
                    forall|a: int, e: int|
                        0 <= a < i && 0 <= e < self.dependency_lists()[a].len() ==> self.names().contains(
                            #[trigger] self.dependency_lists()[a][e],
                        ),
                    forall|e: int| 0 <= e < d ==> self.names().contains(#[trigger] self.dependency_lists()[i as int][e]),
                decreases list@.len() - d,
            {
                match position(&self.names, &list[d]) {
                    Some(k) => {
                        assert(self.names()[k as int] == self.dependency_lists()[i as int][d as int]);
                    },
                    None => {
                        let mut m = "插件 ".to_string();
                        m.append(self.names[i].as_str());
                        m.append(" 依赖的插件 ");
                        m.append(list[d].as_str());
                        m.append(" 未注册");
                        assert(self.dependency_lists()[i as int][d as int] == list@[d as int]@);
                        return Err(AeroXError::Plugin(m));
                    },
                }
                d = d + 1;
            }
            i = i + 1;
        }
        Ok(())
    }

    /// An order in which to initialize the plugins: each exactly once, each
    /// after the registered plugins it depends on, ties broken by
    /// registration order. Dependencies on unregistered names are ignored.
    /// Fails when some plugins can never be placed because each of them
    /// waits on another of them: a dependency cycle.
    pub fn initialization_order(&self) -> (r: Result<Vec<String>, AeroXError>)
        requires
            self.wf(),
        ensures
            r is Ok ==> is_init_order(self.names(), self.dependency_lists(), texts(r->Ok_0@)),
            r is Err ==> exists|placed: Seq<bool>|
                placed.len() == self.names().len() && stuck(self.names(), self.dependency_lists(), placed),
            r is Err ==> (r->Err_0 matches AeroXError::Plugin(m) && exists|i: int|
                0 <= i < self.names().len() && m@ == "检测到循环依赖: "@ + self.names()[i]),
    {
        let n = self.names.len();
        let ghost names = self.names();
        let ghost deps = self.dependency_lists();
        let mut placed: Vec<bool> = Vec::new();
        let mut z: usize = 0;
        while z < n
            invariant
                z <= n,
                placed@.len() == z,
                forall|a: int| 0 <= a < z ==> !(#[trigger] placed@[a]),
            decreases n - z,
        {
            placed.push(false);
            z = z + 1;
        }
        let mut order: Vec<String> = Vec::new();
        let ghost mut idx: Seq<int> = Seq::empty();
        let mut progress = true;
        proof {
            lemma_index_bound(idx, n as int);
        }
        while progress
            invariant
                self.wf(),
                n == self.names@.len(),
                names == self.names(),
                deps == self.dependency_lists(),
                placed@.len() == n,
                order@.len() == idx.len(),
                order@.len() <= n,
                idx.no_duplicates(),
                forall|k: int| 0 <= k < idx.len() ==> 0 <= #[trigger] idx[k] < n,
                forall|k: int| 0 <= k < idx.len() ==> (#[trigger] order@[k])@ == names[idx[k]],
                forall|j: int| 0 <= j < n ==> (#[trigger] placed@[j] <==> idx.contains(j)),
                forall|k: int, d: int, j: int|
                    0 <= k < idx.len() && 0 <= d < deps[idx[k]].len() && 0 <= j < n && #[trigger] deps[idx[k]][d]
                        == #[trigger] names[j] ==> idx.contains(j) && idx.index_of(j) < k,
                !progress ==> forall|a: int|
                    0 <= a < n && !(#[trigger] placed@[a]) ==> exists|d: int, j: int|
                        0 <= d < deps[a].len() && 0 <= j < n && deps[a][d] == names[j] && !placed@[j],
            decreases n - order@.len() + (if progress { 1int } else { 0int }),
        {
            progress = false;
            let ghost len_before = order@.len();
            let mut i: usize = 0;
            while i < n
                invariant
                    self.wf(),
                    n == self.names@.len(),
                    names == self.names(),
                    deps == self.dependency_lists(),
                    i <= n,
                    placed@.len() == n,
                    order@.len() == idx.len(),
                    order@.len() <= n,
                    idx.no_duplicates(),
                    forall|k: int| 0 <= k < idx.len() ==> 0 <= #[trigger] idx[k] < n,
                    forall|k: int| 0 <= k < idx.len() ==> (#[trigger] order@[k])@ == names[idx[k]],
                    forall|j: int| 0 <= j < n ==> (#[trigger] placed@[j] <==> idx.contains(j)),
                    forall|k: int, d: int, j: int|
                        0 <= k < idx.len() && 0 <= d < deps[idx[k]].len() && 0 <= j < n && #[trigger] deps[idx[k]][d]
                            == #[trigger] names[j] ==> idx.contains(j) && idx.index_of(j) < k,
                    progress ==> order@.len() > len_before,
                    !progress ==> order@.len() == len_before,
                    !progress ==> forall|a: int|
                        0 <= a < i && !(#[trigger] placed@[a]) ==> exists|d: int, j: int|
                            0 <= d < deps[a].len() && 0 <= j < n && deps[a][d] == names[j] && !placed@[j],
                decreases n - i,
            {
                if !placed[i] {
                    let ready = self.deps_placed(i, &placed);
                    if ready {
                        proof {
                            assert(!idx.contains(i as int));
                            let new_idx = idx.push(i as int);
                            assert forall|k: int, d: int, j: int|
                                0 <= k < new_idx.len() && 0 <= d < deps[new_idx[k]].len() && 0 <= j < n
                                    && #[trigger] deps[new_idx[k]][d] == #[trigger] names[j] implies new_idx.contains(j)
                                    && new_idx.index_of(j) < k by {
                                lemma_index_of_push(idx, i as int, j);
                                if k < idx.len() {
                                    assert(new_idx[k] == idx[k]);
                                } else {
                                    assert(placed@[j]);
                                    assert(idx.contains(j));
                                    let w = idx.index_of(j);
                                    assert(new_idx[w] == j);
                                }
                            }
                            assert(new_idx.no_duplicates());
                            assert forall|j: int| 0 <= j < n implies (placed@.update(i as int, true)[j] <==> new_idx.contains(j)) by {
                                if j != i {
                                    if new_idx.contains(j) {
                                        let w = choose|w: int| 0 <= w < new_idx.len() && new_idx[w] == j;
                                        assert(idx[w] == j);
                                    }
                                    if idx.contains(j) {
                                        let w = choose|w: int| 0 <= w < idx.len() && idx[w] == j;
                                        assert(new_idx[w] == j);
                                    }
                                } else {
                                    assert(new_idx[idx.len() as int] == j);
                                }
                            }
                            idx = new_idx;
                            lemma_index_bound(idx, n as int);
                        }
                        placed.set(i, true);
                        order.push(self.names[i].clone());
                        progress = true;
                    }
                }
                i = i + 1;
            }
        }
        let mut a: usize = 0;
        while a < n
            invariant
                a <= n,
                placed@.len() == n,
                forall|b: int| 0 <= b < a ==> #[trigger] placed@[b],
                self.wf(),
                n == self.names@.len(),
                names == self.names(),
                deps == self.dependency_lists(),
                forall|j: int| 0 <= j < n ==> (#[trigger] placed@[j] <==> idx.contains(j)),
                forall|b: int|
                    0 <= b < n && !(#[trigger] placed@[b]) ==> exists|d: int, j: int|
                        0 <= d < deps[b].len() && 0 <= j < n && deps[b][d] == names[j] && !placed@[j],
            decreases n - a,
        {
            if !placed[a] {
                let mut m = "检测到循环依赖: ".to_string();
                m.append(self.names[a].as_str());
                proof {
                    assert(!placed@[a as int]);
                    assert(stuck(names, deps, placed@));
                    assert(names[a as int] == self.names@[a as int]@);
                }
                return Err(AeroXError::Plugin(m));
            }
            a = a + 1;
        }
        proof {
            let o = texts(order@);
            assert forall|j: int| 0 <= j < n implies idx.contains(j) by {
                assert(placed@[j]);
            }
            lemma_index_full(idx, n as int);
            assert forall|x: int, y: int| 0 <= x < o.len() && 0 <= y < o.len() && x != y implies o[x] != o[y] by {
                assert(o[x] == names[idx[x]]);
                assert(o[y] == names[idx[y]]);
            }
            assert forall|i: int| 0 <= i < names.len() implies o.contains(#[trigger] names[i]) by {
                assert(placed@[i]);
                let w = choose|w: int| 0 <= w < idx.len() && idx[w] == i;
                assert(o[w] == names[i]);
            }
            assert forall|i: int, j: int, d: int|
                0 <= i < names.len() && 0 <= j < names.len() && 0 <= d < deps[i].len() && #[trigger] deps[i][d]
                    == #[trigger] names[j] implies o.index_of(names[j]) < o.index_of(names[i]) by {
                assert(placed@[i]);
                let ki = idx.index_of(i);
                assert(idx[ki] == i);
                assert(idx.contains(j) && idx.index_of(j) < ki);
                let kj = idx.index_of(j);
                assert(o[ki] == names[i]);
                assert(o[kj] == names[j]);
                lemma_index_of_unique(o, ki);
                lemma_index_of_unique(o, kj);
            }
        }
        Ok(order)
    }

    /// Whether every registered dependency of plugin `i` is placed.
    fn deps_placed(&self, i: usize, placed: &Vec<bool>) -> (r: bool)
        requires
            self.wf(),
            i < self.deps@.len(),
            placed@.len() == self.names@.len(),
        ensures
            r <==> forall|d: int, j: int|
                0 <= d < self.dependency_lists()[i as int].len() && 0 <= j < self.names().len()
                    && self.dependency_lists()[i as int][d] == self.names()[j] ==> placed@[j],
    {
        let list = &self.deps[i];
        let mut d: usize = 0;
        while d < list.len()
            invariant
                self.wf(),
                i < self.deps@.len(),
                *list == self.deps@[i as int],
                placed@.len() == self.names@.len(),
                d <= list@.len(),
                forall|e: int, j: int|
                    0 <= e < d && 0 <= j < self.names().len() && self.dependency_lists()[i as int][e]
                        == self.names()[j] ==> placed@[j],
            decreases list@.len() - d,
        {
            match position(&self.names, &list[d]) {
                Some(k) => {
                    if !placed[k] {
                        assert(self.dependency_lists()[i as int][d as int] == self.names()[k as int]);
                        return false;
                    }
                    proof {
                        assert forall|j: int|
                            0 <= j < self.names().len() && self.dependency_lists()[i as int][d as int]
                                == self.names()[j] implies placed@[j] by {
                            assert(texts(self.names@)[j] == texts(self.names@)[k as int]);
                        }
                    }
                },
                None => {
                    proof {
                        assert forall|j: int|
                            0 <= j < self.names().len() implies self.dependency_lists()[i as int][d as int]
                                != self.names()[j] by {
                            assert(texts(self.names@)[j] == self.names()[j]);
                        }
                    }
                },
            }
            d = d + 1;
        }
        true
    }
}

/// A sequence of distinct indices below `n` has at most `n` entries.
proof fn lemma_index_bound(idx: Seq<int>, n: int)
    requires
        n >= 0,
        idx.no_duplicates(),
        forall|k: int| 0 <= k < idx.len() ==> 0 <= #[trigger] idx[k] < n,
    ensures
        idx.len() <= n,
{
    let s = idx.to_set();
    let range = vstd::set_lib::set_int_range(0, n);
    assert(s.subset_of(range));
    idx.unique_seq_to_set();
    vstd::set_lib::lemma_int_range(0, n);
    vstd::set_lib::lemma_len_subset(s, range);
}

/// A sequence of distinct indices below `n` that holds each of them has
/// exactly `n` entries.
proof fn lemma_index_full(idx: Seq<int>, n: int)
    requires
        n >= 0,
        idx.no_duplicates(),
        forall|k: int| 0 <= k < idx.len() ==> 0 <= #[trigger] idx[k] < n,
        forall|j: int| 0 <= j < n ==> idx.contains(j),
    ensures
        idx.len() == n,
{
    let s = idx.to_set();
    let range = vstd::set_lib::set_int_range(0, n);
    assert(s =~= range);
    idx.unique_seq_to_set();
    vstd::set_lib::lemma_int_range(0, n);
}

proof fn lemma_index_of_push(idx: Seq<int>, x: int, j: int)
    requires
        idx.no_duplicates(),
        !idx.contains(x),
    ensures
        idx.push(x).no_duplicates(),
        idx.contains(j) ==> idx.push(x).contains(j) && idx.push(x).index_of(j) == idx.index_of(j),
{
    let p = idx.push(x);
    assert forall|a: int, b: int| 0 <= a < p.len() && 0 <= b < p.len() && a != b implies p[a] != p[b] by {
        if a < idx.len() && b < idx.len() {
        } else if a < idx.len() {
            assert(idx.contains(p[a]));
        } else {
            assert(idx.contains(p[b]));
        }
    }
    if idx.contains(j) {
        let w = idx.index_of(j);
        assert(p[w] == j);
        lemma_index_of_unique(p, w);
    }
}

/// In a sequence without duplicates, the position of the entry at `k` is `k`.
proof fn lemma_index_of_unique<T>(s: Seq<T>, k: int)
    requires
        s.no_duplicates(),
        0 <= k < s.len(),
    ensures
        s.contains(s[k]),
        s.index_of(s[k]) == k,
{
    assert(0 <= k < s.len() && s[k] == s[k]);
    let i = s.index_of(s[k]);
    assert(0 <= i < s.len() && s[i] == s[k]);
}

impl<P: Plugin> Default for PluginRegistry<P> {
    fn default() -> (r: PluginRegistry<P>)
        ensures
            r.wf(),
            r.names() == Seq::<Seq<char>>::empty(),
            r.entries() == Seq::<P>::empty(),
    {
        PluginRegistry::new()
    }
}

/// Settings of the heartbeat plugin, in seconds.
#[derive(Debug, Clone)]
pub struct HeartbeatPlugin {
    pub interval_secs: u64,
    pub timeout_secs: u64,
}

impl Default for HeartbeatPlugin {
    fn default() -> (r: HeartbeatPlugin)
        ensures
            r.interval_secs == 30,
            r.timeout_secs == 60,
    {
        HeartbeatPlugin { interval_secs: 30, timeout_secs: 60 }
    }
}

impl Plugin for HeartbeatPlugin {
    fn name(&self) -> &'static str {
        "HeartbeatPlugin"
    }
}

/// The rate-limit plugin, configured from the server settings.
#[derive(Debug, Clone)]
pub struct RateLimitPlugin {
    pub config: ServerConfig,
}

impl RateLimitPlugin {
    /// A plugin that applies the limits of `config`.
    pub fn from_config(config: ServerConfig) -> (r: RateLimitPlugin)
        ensures
            r.config == config,
    {
        RateLimitPlugin { config }
    }
}

impl Plugin for RateLimitPlugin {
    fn name(&self) -> &'static str {
        "RateLimitPlugin"
    }
}

} // verus!
