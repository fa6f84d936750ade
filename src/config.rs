use vstd::prelude::*;

use crate::error::{ConfigurationError, ErrorView, JvmsError, Problem};
use crate::path::{absolutize, make_absolute, starts_with, JvmsPath, PathView};

verus! {

/// A registered Java installation.
#[derive(Debug, Clone, PartialEq, Eq)]
pub struct JavaToolchain {
    pub java_home: JvmsPath,
}

/// A directory pinned to a toolchain, for itself and everything below it.
#[derive(Debug, Clone, PartialEq, Eq)]
pub struct JvmsOverride {
    pub path: JvmsPath,
    pub toolchain: String,
}

/// The registered toolchains (names unique, in the order they were first
/// added), the default toolchain's name, and the overrides in order.
#[derive(Debug, Clone, PartialEq, Eq)]
pub struct JvmsConfiguration {
    toolchains: Vec<(String, JavaToolchain)>,
    default: Option<String>,
    overrides: Vec<JvmsOverride>,
}

/// The mathematical value of an override.
pub struct OverrideView {
    pub path: PathView,
    pub toolchain: Seq<char>,
}

/// The mathematical value of a configuration.
pub struct ConfigView {
    pub toolchains: Seq<(Seq<char>, PathView)>,
    pub default: Option<Seq<char>>,
    pub overrides: Seq<OverrideView>,
}

impl View for JvmsOverride {
    type V = OverrideView;

    open spec fn view(&self) -> OverrideView {
        OverrideView { path: self.path@, toolchain: self.toolchain@ }
    }
}

pub open spec fn toolchains_of(v: Seq<(String, JavaToolchain)>) -> Seq<(Seq<char>, PathView)> {
    v.map_values(|e: (String, JavaToolchain)| (e.0@, e.1.java_home@))
}

pub open spec fn overrides_of(v: Seq<JvmsOverride>) -> Seq<OverrideView> {
    v.map_values(|o: JvmsOverride| o@)
}

pub open spec fn name_of(s: Option<String>) -> Option<Seq<char>> {
    match s {
        Some(n) => Some(n@),
        None => None,
    }
}

/// The home of a looked-up toolchain, if there is one.
pub open spec fn home_of_found(r: Option<&JavaToolchain>) -> Option<PathView> {
    match r {
        Some(t) => Some(t.java_home@),
        None => None,
    }
}

impl View for JvmsConfiguration {
    type V = ConfigView;

    closed spec fn view(&self) -> ConfigView {
        ConfigView {
            toolchains: toolchains_of(self.toolchains@),
            default: name_of(self.default),
            overrides: overrides_of(self.overrides@),
        }
    }
}

/// No two toolchains share a name.
pub open spec fn names_unique(t: Seq<(Seq<char>, PathView)>) -> bool {
    forall|i: int, j: int| 0 <= i < j < t.len() ==> t[i].0 != t[j].0
}

pub open spec fn has_toolchain(c: ConfigView, name: Seq<char>) -> bool {
    exists|i: int| 0 <= i < c.toolchains.len() && c.toolchains[i].0 == name
}

/// Where the toolchain `name` stands in the list (meaningful when it is there).
pub open spec fn index_of(c: ConfigView, name: Seq<char>) -> int {
    choose|i: int| 0 <= i < c.toolchains.len() && c.toolchains[i].0 == name
}

/// The home directory of the toolchain `name`, if it is registered.
pub open spec fn home_of(c: ConfigView, name: Seq<char>) -> Option<PathView> {
    if has_toolchain(c, name) {
        Some(c.toolchains[index_of(c, name)].1)
    } else {
        None
    }
}

/// The home directory of the default toolchain, if one is set and registered.
pub open spec fn default_home(c: ConfigView) -> Option<PathView> {
    match c.default {
        Some(d) => home_of(c, d),
        None => None,
    }
}

/// The toolchain list after `add_toolchain(name, home)`: an entry of that
/// name is replaced where it stands, otherwise the entry goes at the end.
pub open spec fn toolchains_after_add(c: ConfigView, name: Seq<char>, home: PathView) -> Seq<
    (Seq<char>, PathView),
> {
    if has_toolchain(c, name) {
        c.toolchains.update(index_of(c, name), (name, home))
    } else {
        c.toolchains.push((name, home))
    }
}

/// The toolchain list after `remove_toolchain(name)`.
pub open spec fn toolchains_after_remove(c: ConfigView, name: Seq<char>) -> Seq<
    (Seq<char>, PathView),
> {
    if has_toolchain(c, name) {
        c.toolchains.remove(index_of(c, name))
    } else {
        c.toolchains
    }
}

/// The entries of `s` whose flag is set, in their order.
pub open spec fn keep_flagged<A>(s: Seq<A>, flags: Seq<bool>) -> Seq<A>
    decreases s.len(),
{
    if s.len() == 0 {
        Seq::empty()
    } else {
        let rest = keep_flagged(s.drop_last(), flags);
        if flags[s.len() - 1] {
            rest.push(s.last())
        } else {
            rest
        }
    }
}

/// The overrides that are not for exactly `path`, in their order.
pub open spec fn overrides_without(s: Seq<OverrideView>, path: PathView) -> Seq<OverrideView> {
    s.filter(|o: OverrideView| o.path != path)
}

/// `i` is the first position where `flags` is false.
pub open spec fn first_false_at(flags: Seq<bool>, i: int) -> bool {
    &&& 0 <= i < flags.len()
    &&& !flags[i]
    &&& forall|j: int| 0 <= j < i ==> flags[j]
}

/// `i` is the first override that names an unregistered toolchain.
pub open spec fn first_dangling_at(c: ConfigView, i: int) -> bool {
    &&& 0 <= i < c.overrides.len()
    &&& !has_toolchain(c, c.overrides[i].toolchain)
    &&& forall|j: int| 0 <= j < i ==> has_toolchain(c, c.overrides[j].toolchain)
}

/// The first rule that `c` breaks, checked in order: some toolchain exists;
/// every toolchain's home exists (`homes_exist[i]` for toolchain `i`); a
/// default is set; it is registered; every override names a registered
/// toolchain. `None` when all hold.
pub open spec fn validation_problem(c: ConfigView, homes_exist: Seq<bool>) -> Option<Problem> {
    if c.toolchains.len() == 0 {
        Some(Problem::NoToolchains)
    } else if exists|i: int| first_false_at(homes_exist, i) {
        let i = choose|i: int| first_false_at(homes_exist, i);
        Some(Problem::InvalidJavaHome(c.toolchains[i].0))
    } else {
        match c.default {
            None => Some(Problem::NoDefaultToolchain),
            Some(d) => {
                if !has_toolchain(c, d) {
                    Some(Problem::UnknownDefaultToolchain(d))
                } else if exists|i: int| first_dangling_at(c, i) {
                    let i = choose|i: int| first_dangling_at(c, i);
                    Some(
                        Problem::UnknownOverrideToolchain(
                            c.overrides[i].path,
                            c.overrides[i].toolchain,
                        ),
                    )
                } else {
                    None
                }
            },
        }
    }
}

/// All the rules hold.
pub open spec fn is_valid(c: ConfigView, homes_exist: Seq<bool>) -> bool {
    &&& c.toolchains.len() > 0
    &&& forall|i: int| 0 <= i < homes_exist.len() ==> homes_exist[i]
    &&& c.default matches Some(d) && has_toolchain(c, d)
    &&& forall|i: int|
        0 <= i < c.overrides.len() ==> has_toolchain(c, #[trigger] c.overrides[i].toolchain)
}

proof fn lemma_first_false_exists(flags: Seq<bool>, k: int)
    requires
        0 <= k < flags.len(),
        !flags[k],
    ensures
        exists|i: int| first_false_at(flags, i),
    decreases k,
{
    if forall|j: int| 0 <= j < k ==> flags[j] {
        assert(first_false_at(flags, k));
    } else {
        let j = choose|j: int| 0 <= j < k && !flags[j];
        lemma_first_false_exists(flags, j);
    }
}

proof fn lemma_first_dangling_exists(c: ConfigView, k: int)
    requires
        0 <= k < c.overrides.len(),
        !has_toolchain(c, c.overrides[k].toolchain),
    ensures
        exists|i: int| first_dangling_at(c, i),
    decreases k,
{
    if forall|j: int| 0 <= j < k ==> has_toolchain(c, c.overrides[j].toolchain) {
        assert(first_dangling_at(c, k));
    } else {
        let j = choose|j: int| 0 <= j < k && !has_toolchain(c, c.overrides[j].toolchain);
        lemma_first_dangling_exists(c, j);
    }
}

/// Validation fails exactly when a rule is broken: no toolchains, a missing
/// home, no default, an unknown default, or an override naming an unknown
/// toolchain; it succeeds when none is.
pub proof fn lemma_validation_fails_exactly_when_a_rule_breaks(c: ConfigView, homes_exist: Seq<bool>)
    ensures
        validation_problem(c, homes_exist) is None <==> is_valid(c, homes_exist),
{
    if exists|k: int| 0 <= k < homes_exist.len() && !homes_exist[k] {
        let k = choose|k: int| 0 <= k < homes_exist.len() && !homes_exist[k];
        lemma_first_false_exists(homes_exist, k);
    }
    if exists|k: int| 0 <= k < c.overrides.len() && !has_toolchain(c, c.overrides[k].toolchain) {
        let k = choose|k: int|
            0 <= k < c.overrides.len() && !has_toolchain(c, c.overrides[k].toolchain);
        lemma_first_dangling_exists(c, k);
    }
}

/// `target` is the directory of override `i` or lies below it.
pub open spec fn is_candidate(c: ConfigView, target: PathView, i: int) -> bool {
    0 <= i < c.overrides.len() && starts_with(target, c.overrides[i].path)
}

/// Override `i` is the one that applies to `target`: a candidate at least
/// as deep as every other, and the last of those that are as deep.
pub open spec fn is_best(c: ConfigView, target: PathView, i: int) -> bool {
    &&& is_candidate(c, target, i)
    &&& forall|j: int|
        is_candidate(c, target, j) ==> c.overrides[j].path.parts.len()
            <= c.overrides[i].path.parts.len()
    &&& forall|j: int|
        i < j && is_candidate(c, target, j) ==> c.overrides[j].path.parts.len()
            < c.overrides[i].path.parts.len()
}

/// The position of the override that applies to `target`, if any does.
pub open spec fn override_for(c: ConfigView, target: PathView) -> Option<int> {
    if exists|i: int| is_best(c, target, i) {
        Some(choose|i: int| is_best(c, target, i))
    } else {
        None
    }
}

/// The home chosen by the override that applies to `target`, if one applies
/// and names a registered toolchain.
pub open spec fn environment_home(c: ConfigView, target: PathView) -> Option<PathView> {
    match override_for(c, target) {
        Some(i) => home_of(c, c.overrides[i].toolchain),
        None => None,
    }
}

/// The home used in `target`: the override's, else the default's.
pub open spec fn directory_home(c: ConfigView, target: PathView) -> Option<PathView> {
    match environment_home(c, target) {
        Some(h) => Some(h),
        None => default_home(c),
    }
}

/// Two paths that `target` both starts with are ordered: the shorter is an
/// ancestor of the longer.
proof fn lemma_prefixes_are_nested(target: PathView, a: PathView, b: PathView)
    requires
        starts_with(target, a),
        starts_with(target, b),
        a.parts.len() <= b.parts.len(),
    ensures
        starts_with(b, a),
{
    assert(b.parts.subrange(0, a.parts.len() as int) =~= target.parts.subrange(
        0,
        a.parts.len() as int,
    ));
}

proof fn lemma_best_unique(c: ConfigView, target: PathView, i: int, k: int)
    requires
        is_best(c, target, i),
        is_best(c, target, k),
    ensures
        i == k,
{
}

/// The override that applies lies below (or at) every other override that
/// matches `target`: the deepest match wins.
pub proof fn lemma_best_is_deepest(c: ConfigView, target: PathView, i: int, j: int)
    requires
        is_best(c, target, i),
        is_candidate(c, target, j),
    ensures
        starts_with(c.overrides[i].path, c.overrides[j].path),
{
    lemma_prefixes_are_nested(target, c.overrides[j].path, c.overrides[i].path);
}

proof fn lemma_index_of(c: ConfigView, name: Seq<char>, k: int)
    requires
        names_unique(c.toolchains),
        0 <= k < c.toolchains.len(),
        c.toolchains[k].0 == name,
    ensures
        has_toolchain(c, name),
        index_of(c, name) == k,
{
}

impl JavaToolchain {
    pub fn new(java_home: JvmsPath) -> (r: JavaToolchain)
        ensures
            r.java_home@ == java_home@,
    {
        JavaToolchain { java_home }
    }

    /// A copy with the same value.
    pub fn duplicate(&self) -> (r: JavaToolchain)
        ensures
            r.java_home@ == self.java_home@,
    {
        JavaToolchain { java_home: self.java_home.duplicate() }
    }
}

impl JvmsOverride {
    /// A copy with the same value.
    pub fn duplicate(&self) -> (r: JvmsOverride)
        ensures
            r@ == self@,
    {
        JvmsOverride { path: self.path.duplicate(), toolchain: self.toolchain.clone() }
    }
}

impl JvmsConfiguration {
    /// The library's invariant: toolchain names are unique.
    pub open spec fn wf(&self) -> bool {
        names_unique(self@.toolchains)
    }

    /// An empty configuration: no toolchains, no default, no overrides.
    pub fn new() -> (r: JvmsConfiguration)
        ensures
            r.wf(),
            r@.toolchains.len() == 0,
            r@.default is None,
            r@.overrides.len() == 0,
    {
        JvmsConfiguration { toolchains: Vec::new(), default: None, overrides: Vec::new() }
    }

    fn position_of(&self, toolchain_name: &str) -> (r: Option<usize>)
        requires
            self.wf(),
        ensures
            r is None <==> !has_toolchain(self@, toolchain_name@),
            r matches Some(k) ==> k < self@.toolchains.len() && k == index_of(
                self@,
                toolchain_name@,
            ),
    {
        let key = toolchain_name.to_owned();
        let mut i: usize = 0;
        while i < self.toolchains.len()
            invariant
                0 <= i <= self.toolchains@.len(),
                key@ == toolchain_name@,
                self.wf(),
                self@.toolchains.len() == self.toolchains@.len(),
                forall|j: int| 0 <= j < i ==> self@.toolchains[j].0 != key@,
            decreases self.toolchains@.len() - i,
        {
            if self.toolchains[i].0.eq(&key) {
                proof {
                    lemma_index_of(self@, key@, i as int);
                }
                return Some(i);
            }
            i = i + 1;
        }
        None
    }

    /// The toolchain registered under `toolchain_name`.
    pub fn get_toolchain(&self, toolchain_name: &str) -> (r: Option<&JavaToolchain>)
        requires
            self.wf(),
        ensures
            home_of_found(r) == home_of(self@, toolchain_name@),
    {
        match self.position_of(toolchain_name) {
            Some(k) => Some(&self.toolchains[k].1),
            None => None,
        }
    }

    /// Whether a toolchain is registered under `toolchain_name`.
    pub fn has_toolchain(&self, toolchain_name: &str) -> (r: bool)
        requires
            self.wf(),
        ensures
            r == has_toolchain(self@, toolchain_name@),
    {
        self.position_of(toolchain_name).is_some()
    }

    /// The name of the default toolchain, if one is set.
    pub fn get_default_toolchain_name(&self) -> (r: Option<&str>)
        ensures
            match r {
                Some(n) => self@.default == Some(n@),
                None => self@.default is None,
            },
    {
        match &self.default {
            Some(n) => Some(n.as_str()),
            None => None,
        }
    }

    /// Sets the name of the default toolchain; it is not checked here.
    pub fn set_default_toolchain_name(&mut self, toolchain_name: String)
        ensures
            final(self)@.default == Some(toolchain_name@),
            final(self)@.toolchains == old(self)@.toolchains,
            final(self)@.overrides == old(self)@.overrides,
    {
        self.default = Some(toolchain_name);
    }

    /// The default toolchain, if one is set and registered.
    pub fn get_default_toolchain(&self) -> (r: Option<&JavaToolchain>)
        requires
            self.wf(),
        ensures
            home_of_found(r) == default_home(self@),
    {
        match self.get_default_toolchain_name() {
            Some(name) => self.get_toolchain(name),
            None => None,
        }
    }

    /// Registers `toolchain_name` with its home made absolute against
    /// `current_dir`; an entry of the same name is overwritten.
    pub fn add_toolchain(
        &mut self,
        toolchain_name: String,
        java_home: JvmsPath,
        current_dir: &JvmsPath,
    )
        requires
            old(self).wf(),
        ensures
            final(self).wf(),
            final(self)@.toolchains == toolchains_after_add(
                old(self)@,
                toolchain_name@,
                absolutize(java_home@, current_dir@),
            ),
            home_of(final(self)@, toolchain_name@) == Some(absolutize(java_home@, current_dir@)),
            final(self)@.default == old(self)@.default,
            final(self)@.overrides == old(self)@.overrides,
    {
        let home = make_absolute(&java_home, current_dir);
        let ghost name = toolchain_name@;
        let ghost before = self@;
        match self.position_of(toolchain_name.as_str()) {
            Some(k) => {
                self.toolchains.set(k, (toolchain_name, JavaToolchain::new(home)));
                assert(self@.toolchains =~= before.toolchains.update(k as int, (name, home@)));
                proof {
                    lemma_index_of(self@, name, k as int);
                }
            },
            None => {
                self.toolchains.push((toolchain_name, JavaToolchain::new(home)));
                assert(self@.toolchains =~= before.toolchains.push((name, home@)));
                proof {
                    lemma_index_of(self@, name, before.toolchains.len() as int);
                }
            },
        }
    }

    /// The registered toolchains, each with its name.
    pub fn get_toolchains(&self) -> (r: &[(String, JavaToolchain)])
        ensures
            toolchains_of(r@) == self@.toolchains,
    {
        self.toolchains.as_slice()
    }

    /// Removes the toolchain `toolchain_name`; nothing happens if it is absent.
    pub fn remove_toolchain(&mut self, toolchain_name: &str)
        requires
            old(self).wf(),
        ensures
            final(self).wf(),
            final(self)@.toolchains == toolchains_after_remove(old(self)@, toolchain_name@),
            final(self)@.default == old(self)@.default,
            final(self)@.overrides == old(self)@.overrides,
    {
        let ghost before = self@;
        if let Some(k) = self.position_of(toolchain_name) {
            let _ = self.toolchains.remove(k);
            assert(self@.toolchains =~= before.toolchains.remove(k as int));
        }
    }

    /// Pins the directory `path`, made absolute against `current_dir`, to
    /// `toolchain_name`. Earlier overrides for the same directory stay.
    pub fn add_override(&mut self, path: &JvmsPath, toolchain_name: String, current_dir: &JvmsPath)
        requires
            old(self).wf(),
        ensures
            final(self).wf(),
            final(self)@.overrides == old(self)@.overrides.push(
                OverrideView { path: absolutize(path@, current_dir@), toolchain: toolchain_name@ },
            ),
            final(self)@.toolchains == old(self)@.toolchains,
            final(self)@.default == old(self)@.default,
    {
        let abs = make_absolute(path, current_dir);
        let ghost before = self@;
        let o = JvmsOverride { path: abs, toolchain: toolchain_name };
        self.overrides.push(o);
        assert(self@.overrides =~= before.overrides.push(o@));
    }

    /// The overrides, in their order.
    pub fn get_overrides(&self) -> (r: &[JvmsOverride])
        ensures
            overrides_of(r@) == self@.overrides,
    {
        self.overrides.as_slice()
    }

    /// Keeps the overrides whose directory still exists, in their order:
    /// `path_exists[i]` tells whether the directory of override `i` exists.
    pub fn clean_overrides(&mut self, path_exists: &Vec<bool>)
        requires
            old(self).wf(),
            path_exists@.len() == old(self)@.overrides.len(),
        ensures
            final(self).wf(),
            final(self)@.overrides == keep_flagged(old(self)@.overrides, path_exists@),
            final(self)@.toolchains == old(self)@.toolchains,
            final(self)@.default == old(self)@.default,
    {
        let ghost src = self@.overrides;
        let mut kept: Vec<JvmsOverride> = Vec::new();
        let n = self.overrides.len();
        let mut i: usize = 0;
        while i < n
            invariant
                0 <= i <= n,
                n == self.overrides@.len(),
                n == path_exists@.len(),
                src == self@.overrides,
                overrides_of(kept@) == keep_flagged(src.take(i as int), path_exists@),
            decreases n - i,
        {
            let ghost before = kept@;
            assert(src.take(i + 1).drop_last() =~= src.take(i as int));
            if path_exists[i] {
                let o = self.overrides[i].duplicate();
                kept.push(o);
                assert(overrides_of(kept@) =~= overrides_of(before).push(o@));
            }
            i = i + 1;
        }
        assert(src.take(n as int) =~= src);
        self.overrides = kept;
    }

    /// Removes every override for exactly the directory `path`, made
    /// absolute against `current_dir`; the others keep their order.
    pub fn remove_override(&mut self, path: &JvmsPath, current_dir: &JvmsPath)
        requires
            old(self).wf(),
        ensures
            final(self).wf(),
            final(self)@.overrides == overrides_without(
                old(self)@.overrides,
                absolutize(path@, current_dir@),
            ),
            final(self)@.toolchains == old(self)@.toolchains,
            final(self)@.default == old(self)@.default,
    {
        let abs = make_absolute(path, current_dir);
        let ghost src = self@.overrides;
        let ghost pred = |o: OverrideView| o.path != abs@;
        let mut kept: Vec<JvmsOverride> = Vec::new();
        let n = self.overrides.len();
        let mut i: usize = 0;
        while i < n
            invariant
                0 <= i <= n,
                n == self.overrides@.len(),
                src == self@.overrides,
                pred == (|o: OverrideView| o.path != abs@),
                overrides_of(kept@) == src.take(i as int).filter(pred),
            decreases n - i,
        {
            let ghost before = kept@;
            assert(src.take(i + 1).drop_last() =~= src.take(i as int));
            reveal(Seq::filter);
            if !self.overrides[i].path.same_path(&abs) {
                let o = self.overrides[i].duplicate();
                kept.push(o);
                assert(overrides_of(kept@) =~= overrides_of(before).push(o@));
            }
            i = i + 1;
        }
        assert(src.take(n as int) =~= src);
        self.overrides = kept;
    }

    /// Checks the configuration's rules in order and reports the first that
    /// is broken. `homes_exist[i]` tells whether the home directory of the
    /// `i`-th toolchain of `get_toolchains` exists.
    pub fn validate_configuration(&self, homes_exist: &Vec<bool>) -> (r: Result<(), JvmsError>)
        requires
            self.wf(),
            homes_exist@.len() == self@.toolchains.len(),
        ensures
            match r {
                Ok(()) => validation_problem(self@, homes_exist@) is None,
                Err(e) => validation_problem(self@, homes_exist@) matches Some(p)
                    && e@ == ErrorView::InvalidConfiguration(p),
            },
    {
        let ghost c = self@;
        if self.toolchains.len() == 0 {
            return Err(JvmsError::InvalidConfiguration(ConfigurationError::NoToolchains));
        }
        let mut i: usize = 0;
        while i < self.toolchains.len()
            invariant
                0 <= i <= self.toolchains@.len(),
                c == self@,
                self@.toolchains.len() == self.toolchains@.len(),
                homes_exist@.len() == self@.toolchains.len(),
                forall|j: int| 0 <= j < i ==> homes_exist@[j],
            decreases self.toolchains@.len() - i,
        {
            if !homes_exist[i] {
                assert(first_false_at(homes_exist@, i as int));
                proof {
                    let k = choose|k: int| first_false_at(homes_exist@, k);
                    assert(k == i);
                }
                let name = self.toolchains[i].0.clone();
                return Err(
                    JvmsError::InvalidConfiguration(ConfigurationError::InvalidJavaHome(name)),
                );
            }
            i = i + 1;
        }
        assert(!exists|k: int| first_false_at(homes_exist@, k));
        let default = match self.get_default_toolchain_name() {
            Some(d) => d,
            None => {
                return Err(JvmsError::InvalidConfiguration(ConfigurationError::NoDefaultToolchain));
            },
        };
        if !self.has_toolchain(default) {
            return Err(
                JvmsError::InvalidConfiguration(
                    ConfigurationError::UnknownDefaultToolchain(default.to_owned()),
                ),
            );
        }
        let mut k: usize = 0;
        while k < self.overrides.len()
            invariant
                0 <= k <= self.overrides@.len(),
                c == self@,
                self.wf(),
                self@.overrides.len() == self.overrides@.len(),
                c.toolchains.len() > 0,
                !exists|m: int| first_false_at(homes_exist@, m),
                c.default matches Some(d) && has_toolchain(c, d),
                forall|j: int| 0 <= j < k ==> has_toolchain(c, c.overrides[j].toolchain),
            decreases self.overrides@.len() - k,
        {
            let o = &self.overrides[k];
            if !self.has_toolchain(o.toolchain.as_str()) {
                assert(c.overrides[k as int] == o@);
                assert(first_dangling_at(c, k as int));
                proof {
                    let m = choose|m: int| first_dangling_at(c, m);
                    assert(m == k);
                }
                return Err(
                    JvmsError::InvalidConfiguration(
                        ConfigurationError::UnknownOverrideToolchain(
                            o.path.duplicate(),
                            o.toolchain.clone(),
                        ),
                    ),
                );
            }
            k = k + 1;
        }
        assert(!exists|m: int| first_dangling_at(c, m));
        Ok(())
    }

    /// The override that applies to the directory `target`, taken as it is:
    /// among the overrides whose directory is `target` or an ancestor of it,
    /// the deepest, and the last of equally deep ones.
    pub fn resolve_override(&self, target: &JvmsPath) -> (r: Option<&JvmsOverride>)
        ensures
            match r {
                Some(o) => override_for(self@, target@) matches Some(i) && o@
                    == self@.overrides[i],
                None => override_for(self@, target@) is None,
            },
    {
        let ghost c = self@;
        let ghost t = target@;
        let mut best: Option<usize> = None;
        let mut i: usize = 0;
        while i < self.overrides.len()
            invariant
                0 <= i <= self.overrides@.len(),
                c == self@,
                t == target@,
                self@.overrides.len() == self.overrides@.len(),
                match best {
                    Some(b) => {
                        &&& b < i
                        &&& is_candidate(c, t, b as int)
                        &&& forall|j: int|
                            0 <= j < i && is_candidate(c, t, j) ==> c.overrides[j].path.parts.len()
                                <= c.overrides[b as int].path.parts.len()
                        &&& forall|j: int|
                            b < j < i && is_candidate(c, t, j) ==> c.overrides[j].path.parts.len()
                                < c.overrides[b as int].path.parts.len()
                    },
                    None => forall|j: int| 0 <= j < i ==> !is_candidate(c, t, j),
                },
            decreases self.overrides@.len() - i,
        {
            let o = &self.overrides[i];
            assert(c.overrides[i as int] == o@);
            if target.starts_with(&o.path) {
                let take = match best {
                    None => true,
                    Some(b) => {
                        let deeper = o.path.starts_with(&self.overrides[b].path);
                        proof {
                            let pb = c.overrides[b as int].path;
                            if pb.parts.len() <= o@.path.parts.len() {
                                lemma_prefixes_are_nested(t, pb, o@.path);
                            }
                        }
                        deeper
                    },
                };
                if take {
                    best = Some(i);
                }
            }
            i = i + 1;
        }
        match best {
            Some(b) => {
                proof {
                    assert(is_best(c, t, b as int));
                    let k = choose|k: int| is_best(c, t, k);
                    lemma_best_unique(c, t, k, b as int);
                }
                Some(&self.overrides[b])
            },
            None => None,
        }
    }

    /// The toolchain pinned to `environment_path` (made absolute against
    /// `current_dir`) by the override that applies there, if that override
    /// names a registered toolchain.
    pub fn get_environment_toolchain(&self, environment_path: &JvmsPath, current_dir: &JvmsPath) -> (r:
        Option<&JavaToolchain>)
        requires
            self.wf(),
        ensures
            home_of_found(r) == environment_home(
                self@,
                absolutize(environment_path@, current_dir@),
            ),
    {
        let target = make_absolute(environment_path, current_dir);
        match self.resolve_override(&target) {
            Some(o) => self.get_toolchain(o.toolchain.as_str()),
            None => None,
        }
    }

    /// The toolchain to use in the directory `dir` (made absolute against
    /// `current_dir`): the one its override names, else the default.
    pub fn get_toolchain_for_directory(&self, dir: &JvmsPath, current_dir: &JvmsPath) -> (r: Option<
        &JavaToolchain,
    >)
        requires
            self.wf(),
        ensures
            home_of_found(r) == directory_home(self@, absolutize(dir@, current_dir@)),
    {
        match self.get_environment_toolchain(dir, current_dir) {
            Some(t) => Some(t),
            None => self.get_default_toolchain(),
        }
    }
}

} // verus!
