//! Shader modules: identifiers, import resolution through aliases, and the
//! choice of format for module bundles.
use vstd::prelude::*;
use lru::LruCache;
use crate::module_cache::{
    cache_ok, key_position, lemma_key_position_props, lru_capacity, lru_clear, lru_entries, lru_get, lru_len, lru_new, lru_pop,
    lru_put, CacheEntryView,
};
use crate::text::{chars_of, eq_chars, eq_str, push_str, string_of};

verus! {

/// The identifier of a module.
#[derive(Clone, Debug, PartialEq, Eq, Hash)]
pub struct ModuleId(pub String);

/// A shader module: its source and what it exports and imports, each
/// listed once in order of first appearance.
#[derive(Clone, Debug)]
pub struct ShaderModule {
    pub id: ModuleId,
    pub name: String,
    pub source: String,
    pub dependencies: Vec<ModuleId>,
    pub exports: Vec<String>,
    pub imports: Vec<String>,
    pub version: u64,
}

/// Descriptive data of a bundle.
#[derive(Clone, Debug)]
pub struct BundleMetadata {
    pub version: String,
    pub description: String,
    pub author: String,
    pub license: String,
    pub tags: Vec<String>,
    pub dependencies: Vec<String>,
}

/// A set of modules shipped together, with its entry points.
#[derive(Clone, Debug)]
pub struct ModuleBundle {
    pub name: String,
    pub modules: Vec<ShaderModule>,
    pub entry_points: Vec<ModuleId>,
    pub metadata: BundleMetadata,
}

/// A cached module with the time it was last used (in milliseconds of the
/// caller's clock) and how often it was used.
#[derive(Clone, Debug)]
pub struct ModuleCacheEntry {
    pub module: ShaderModule,
    pub last_accessed: u64,
    pub access_count: u64,
}

/// How an import was resolved.
#[derive(Clone, Debug)]
pub struct ImportResolution {
    pub resolved_id: ModuleId,
    pub import_path: String,
    pub alias: Option<String>,
}

#[derive(Clone, Debug)]
pub enum ModuleSystemError {
    ModuleNotFound(ModuleId),
    CircularDependency(Vec<ModuleId>),
    ImportResolutionFailed(String),
    ParseError(String),
    CompilationError(String),
    IoError(String),
    CacheError(String),
}

/// An alias table: alias and module identifier, aliases distinct.
pub open spec fn aliases_view(m: Seq<(String, ModuleId)>) -> Seq<(Seq<char>, Seq<char>)> {
    m.map_values(|e: (String, ModuleId)| (e.0@, e.1.0@))
}

/// The position of an alias in a table.
pub open spec fn alias_index(m: Seq<(Seq<char>, Seq<char>)>, alias: Seq<char>) -> Option<int>
    decreases m.len(),
{
    if m.len() == 0 {
        None
    } else if m.last().0 == alias {
        Some(m.len() - 1)
    } else {
        alias_index(m.drop_last(), alias)
    }
}

/// The table after binding `alias` to `id`: an existing alias is rebound in
/// place, a new one is added at the end.
pub open spec fn alias_insert(m: Seq<(Seq<char>, Seq<char>)>, alias: Seq<char>, id: Seq<char>) -> Seq<(Seq<char>, Seq<char>)> {
    match alias_index(m, alias) {
        Some(i) => m.update(i, (alias, id)),
        None => m.push((alias, id)),
    }
}

/// The module an import path resolves to: the aliased module, or the module
/// named by the path itself.
pub open spec fn resolve_path(m: Seq<(Seq<char>, Seq<char>)>, path: Seq<char>) -> Seq<char> {
    match alias_index(m, path) {
        Some(i) => m[i].1,
        None => path,
    }
}

/// A resolution as the contracts see it: identifier, path and alias.
pub open spec fn resolution_view(r: ImportResolution) -> (Seq<char>, Seq<char>, Option<Seq<char>>) {
    (
        r.resolved_id.0@,
        r.import_path@,
        match r.alias {
            Some(a) => Some(a@),
            None => None,
        },
    )
}

proof fn lemma_alias_index(m: Seq<(Seq<char>, Seq<char>)>, alias: Seq<char>, i: int)
    requires
        0 <= i <= m.len(),
        forall|k: int| i <= k < m.len() ==> m[k].0 != alias,
    ensures
        alias_index(m, alias) == alias_index(m.subrange(0, i), alias),
    decreases m.len() - i,
{
    if i < m.len() {
        assert(m.drop_last().subrange(0, i) =~= m.subrange(0, i));
        lemma_alias_index(m.drop_last(), alias, i);
    } else {
        assert(m.subrange(0, i) =~= m);
    }
}

proof fn lemma_alias_index_props(m: Seq<(Seq<char>, Seq<char>)>, alias: Seq<char>)
    ensures
        alias_index(m, alias) matches Some(i) ==> 0 <= i < m.len() && m[i].0 == alias,
    decreases m.len(),
{
    if m.len() > 0 && m.last().0 != alias {
        lemma_alias_index_props(m.drop_last(), alias);
    }
}

proof fn lemma_alias_index_update(m: Seq<(Seq<char>, Seq<char>)>, i: int, e: (Seq<char>, Seq<char>), key: Seq<char>)
    requires
        0 <= i < m.len(),
        e.0 == m[i].0,
    ensures
        alias_index(m.update(i, e), key) == alias_index(m, key),
    decreases m.len(),
{
    let u = m.update(i, e);
    if i < m.len() - 1 {
        assert(u.drop_last() =~= m.drop_last().update(i, e));
        lemma_alias_index_update(m.drop_last(), i, e, key);
    } else {
        assert(u.drop_last() =~= m.drop_last());
    }
}

/// Binding an alias makes it resolve to the module it was bound to, and
/// leaves every other import path resolving as before.
pub proof fn lemma_alias_binding(
    m: Seq<(Seq<char>, Seq<char>)>,
    alias: Seq<char>,
    id: Seq<char>,
    other: Seq<char>,
)
    ensures
        resolve_path(alias_insert(m, alias, id), alias) == id,
        other != alias ==> resolve_path(alias_insert(m, alias, id), other) == resolve_path(m, other),
{
    lemma_alias_index_props(m, alias);
    match alias_index(m, alias) {
        Some(i) => {
            lemma_alias_index_update(m, i, (alias, id), alias);
            lemma_alias_index_update(m, i, (alias, id), other);
            lemma_alias_index_props(m, other);
        },
        None => {
            assert(m.push((alias, id)).drop_last() =~= m);
            lemma_alias_index_props(m, other);
        },
    }
}

/// Resolves imports through a table of aliases.
pub struct ImportResolver {
    alias_map: Vec<(String, ModuleId)>,
}

impl ImportResolver {
    pub closed spec fn aliases(&self) -> Seq<(Seq<char>, Seq<char>)> {
        aliases_view(self.alias_map@)
    }

    pub fn new() -> (r: Self)
        ensures
            r.aliases().len() == 0,
    {
        let r = ImportResolver { alias_map: Vec::new() };
        assert(r.aliases() =~= Seq::<(Seq<char>, Seq<char>)>::empty());
        r
    }

    /// The position of an alias in the table.
    fn alias_position(&self, alias: &[char]) -> (r: Option<usize>)
        ensures
            match r {
                Some(j) => alias_index(self.aliases(), alias@) == Some(j as int),
                None => alias_index(self.aliases(), alias@) is None,
            },
    {
        let ghost av = self.aliases();
        let mut i = self.alias_map.len();
        let mut found = false;
        while i > 0 && !found
            invariant
                i <= self.alias_map@.len(),
                av == self.aliases(),
                found ==> 0 < i && av[i - 1].0 == alias@,
                forall|k: int| i <= k < av.len() ==> av[k].0 != alias@,
            decreases i + if found { 0int } else { 1int },
        {
            let k = chars_of(self.alias_map[i - 1].0.as_str());
            if eq_chars(k.as_slice(), alias) {
                found = true;
            } else {
                i = i - 1;
            }
        }
        proof {
            lemma_alias_index(av, alias@, i as int);
            if found {
                assert(av.subrange(0, i as int).last() == av[i - 1]);
            } else {
                assert(av.subrange(0, 0) =~= Seq::<(Seq<char>, Seq<char>)>::empty());
            }
        }
        if found {
            Some(i - 1)
        } else {
            None
        }
    }

    /// Binds an alias to a module.
    pub fn register_alias(&mut self, alias: String, module_id: ModuleId) -> (r: Result<(), ModuleSystemError>)
        ensures
            r is Ok,
            final(self).aliases() == alias_insert(old(self).aliases(), alias@, module_id.0@),
    {
        let key = chars_of(alias.as_str());
        let ghost av = self.aliases();
        let ghost id = module_id.0@;
        proof {
            lemma_alias_index_props(av, alias@);
        }
        match self.alias_position(key.as_slice()) {
            Some(j) => {
                self.alias_map.set(j, (alias, module_id));
                assert(self.aliases() =~= av.update(j as int, (key@, id)));
            },
            None => {
                self.alias_map.push((alias, module_id));
                assert(self.aliases() =~= av.push((key@, id)));
            },
        }
        Ok(())
    }

    /// Resolves one import path.
    pub fn resolve_single_import(&self, import_path: &str) -> (r: Result<ImportResolution, ModuleSystemError>)
        ensures
            r matches Ok(res) && resolution_view(res) == (
                resolve_path(self.aliases(), import_path@),
                import_path@,
                None::<Seq<char>>,
            ),
    {
        let key = chars_of(import_path);
        proof {
            lemma_alias_index_props(self.aliases(), import_path@);
        }
        let resolved_id = match self.alias_position(key.as_slice()) {
            Some(j) => ModuleId(self.alias_map[j].1.0.clone()),
            None => ModuleId(string_of(key.as_slice())),
        };
        Ok(
            ImportResolution {
                resolved_id,
                import_path: string_of(key.as_slice()),
                alias: None,
            },
        )
    }

    /// Resolves every import of a module, in order.
    pub fn resolve_imports(&self, module: &ShaderModule) -> (r: Result<Vec<ImportResolution>, ModuleSystemError>)
        ensures
            r matches Ok(v) && v@.len() == module.imports@.len() && forall|k: int|
                0 <= k < v@.len() ==> resolution_view(#[trigger] v@[k]) == (
                    resolve_path(self.aliases(), module.imports@[k]@),
                    module.imports@[k]@,
                    None::<Seq<char>>,
                ),
    {
        let mut out: Vec<ImportResolution> = Vec::new();
        let mut i: usize = 0;
        while i < module.imports.len()
            invariant
                i <= module.imports@.len(),
                out@.len() == i,
                forall|k: int|
                    0 <= k < i ==> resolution_view(#[trigger] out@[k]) == (
                        resolve_path(self.aliases(), module.imports@[k]@),
                        module.imports@[k]@,
                        None::<Seq<char>>,
                    ),
            decreases module.imports@.len() - i,
        {
            let res = self.resolve_single_import(module.imports[i].as_str())?;
            out.push(res);
            i = i + 1;
        }
        Ok(out)
    }
}


// ---------------------------------------------------------------------------
// The module system: a registry of modules and a cache of recent accesses
// ---------------------------------------------------------------------------

/// A module as the contracts see it.
pub struct ModuleView {
    pub id: Seq<char>,
    pub name: Seq<char>,
    pub source: Seq<char>,
    pub dependencies: Seq<Seq<char>>,
    pub exports: Seq<Seq<char>>,
    pub imports: Seq<Seq<char>>,
    pub version: u64,
}

pub open spec fn strings_view(v: Seq<String>) -> Seq<Seq<char>> {
    v.map_values(|s: String| s@)
}

pub open spec fn ids_view(v: Seq<ModuleId>) -> Seq<Seq<char>> {
    v.map_values(|m: ModuleId| m.0@)
}

pub open spec fn module_view(m: ShaderModule) -> ModuleView {
    ModuleView {
        id: m.id.0@,
        name: m.name@,
        source: m.source@,
        dependencies: ids_view(m.dependencies@),
        exports: strings_view(m.exports@),
        imports: strings_view(m.imports@),
        version: m.version,
    }
}

pub open spec fn modules_view(v: Seq<ShaderModule>) -> Seq<ModuleView> {
    v.map_values(|m: ShaderModule| module_view(m))
}

/// The position of the module with identifier `id`.
pub open spec fn module_index(reg: Seq<ModuleView>, id: Seq<char>) -> Option<int>
    decreases reg.len(),
{
    if reg.len() == 0 {
        None
    } else if reg.last().id == id {
        Some(reg.len() - 1)
    } else {
        module_index(reg.drop_last(), id)
    }
}

/// The module registered under `id`.
pub open spec fn registered(reg: Seq<ModuleView>, id: Seq<char>) -> Option<ModuleView> {
    match module_index(reg, id) {
        Some(i) => Some(reg[i]),
        None => None,
    }
}

/// The registry after storing `m`: a module with the same identifier is
/// replaced in place, a new one is added at the end.
pub open spec fn registry_insert(reg: Seq<ModuleView>, m: ModuleView) -> Seq<ModuleView> {
    match module_index(reg, m.id) {
        Some(i) => reg.update(i, m),
        None => reg.push(m),
    }
}

pub open spec fn ids_distinct(reg: Seq<ModuleView>) -> bool {
    forall|i: int, j: int| 0 <= i < j < reg.len() ==> (#[trigger] reg[i]).id != (#[trigger] reg[j]).id
}

proof fn lemma_module_index_props(reg: Seq<ModuleView>, id: Seq<char>)
    ensures
        module_index(reg, id) matches Some(i) ==> 0 <= i < reg.len() && reg[i].id == id,
        module_index(reg, id) is None <==> forall|k: int| 0 <= k < reg.len() ==> reg[k].id != id,
    decreases reg.len(),
{
    if reg.len() > 0 && reg.last().id != id {
        lemma_module_index_props(reg.drop_last(), id);
        if module_index(reg, id) is None {
            assert forall|k: int| 0 <= k < reg.len() implies reg[k].id != id by {
                if k < reg.len() - 1 {
                    assert(reg.drop_last()[k] == reg[k]);
                }
            }
        } else {
            let k = choose|k: int| 0 <= k < reg.drop_last().len() && reg.drop_last()[k].id == id;
            if forall|k: int| 0 <= k < reg.len() ==> reg[k].id != id {
                assert(reg[k] == reg.drop_last()[k]);
            }
        }
    } else if reg.len() > 0 {
        assert(reg[reg.len() - 1].id == id);
    }
}

proof fn lemma_module_index_unique(reg: Seq<ModuleView>, id: Seq<char>, k: int)
    requires
        ids_distinct(reg),
        0 <= k < reg.len(),
        reg[k].id == id,
    ensures
        module_index(reg, id) == Some(k),
{
    lemma_module_index_props(reg, id);
    if let Some(i) = module_index(reg, id) {
        if i != k {
            if i < k {
                assert(reg[i].id != reg[k].id);
            } else {
                assert(reg[k].id != reg[i].id);
            }
        }
    }
}

/// The cache's record of a module access: fresh records are refreshed (time
/// of use set to `now`, count raised, saturating) and made most recent,
/// stale ones are dropped. The first component says whether the module was
/// served from the cache.
pub open spec fn touched(e: Seq<CacheEntryView>, id: Seq<char>, now: u64, ttl: u64) -> (bool, Seq<CacheEntryView>) {
    match key_position(e, id) {
        Some(i) => {
            let (last, count) = e[i].1;
            let elapsed = if now >= last { now - last } else { 0 };
            if elapsed < ttl {
                (
                    true,
                    e.remove(i).push(
                        (id, (now, if count == u64::MAX { count } else { (count + 1) as u64 })),
                    ),
                )
            } else {
                (false, e.remove(i))
            }
        },
        None => (false, e),
    }
}

/// The cache after storing a fresh record for `id` at time `now`.
pub open spec fn cached_after_put(e: Seq<CacheEntryView>, cap: nat, id: Seq<char>, now: u64) -> Seq<CacheEntryView> {
    match key_position(e, id) {
        Some(i) => e.remove(i).push((id, (now, 1u64))),
        None => if e.len() == cap {
            e.drop_first().push((id, (now, 1u64)))
        } else {
            e.push((id, (now, 1u64)))
        },
    }
}

/// A record stored at time `stored` serves an access at `later` while less
/// than `ttl` has passed since, and a record for the module stays; once
/// `ttl` has passed the access is not served and the record is dropped, so
/// no record for the module is left.
pub proof fn lemma_cache_freshness(e: Seq<CacheEntryView>, cap: nat, id: Seq<char>, stored: u64, later: u64, ttl: u64)
    requires
        cache_ok(e, cap),
        stored <= later,
    ensures
        ({
            let t = touched(cached_after_put(e, cap, id, stored), id, later, ttl);
            &&& later - stored < ttl ==> t.0 && key_position(t.1, id) is Some
            &&& later - stored >= ttl ==> !t.0 && key_position(t.1, id) is None
        }),
{
    let c = cached_after_put(e, cap, id, stored);
    let base = match key_position(e, id) {
        Some(i) => e.remove(i),
        None => if e.len() == cap {
            e.drop_first()
        } else {
            e
        },
    };
    assert(c == base.push((id, (stored, 1u64))));
    lemma_key_position_props(e, id);
    assert forall|j: int| 0 <= j < base.len() implies base[j].0 != id by {
        match key_position(e, id) {
            Some(i) => {
                if j < i {
                    assert(e[j].0 != e[i].0);
                } else {
                    assert(e[i].0 != e[j + 1].0);
                }
            },
            None => {
                if e.len() == cap {
                    assert(base[j] == e[j + 1]);
                }
            },
        }
    }
    assert(c.remove(c.len() - 1) =~= base);
    lemma_key_position_props(base, id);
    let t = touched(c, id, later, ttl);
    if later - stored < ttl {
        assert(t.1.last().0 == id);
    }
}

/// How full the cache is and how much it holds.
#[derive(Clone, Copy, Debug)]
pub struct CacheStats {
    pub size: usize,
    pub capacity: usize,
    pub eviction_count: u64,
}

/// Keeps modules by identifier, a cache of recently used modules whose
/// records expire after a time to live, and the import resolver and bundle
/// loader. Times are milliseconds of the caller's clock.
pub struct ShaderModuleSystem {
    modules: Vec<ShaderModule>,
    cache: LruCache<String, (u64, u64)>,
    import_resolver: ImportResolver,
    bundle_loader: BundleLoader,
    max_cache_size: usize,
    cache_ttl: u64,
}

impl ShaderModuleSystem {
    /// The registered modules, in order of first registration.
    pub closed spec fn registry(&self) -> Seq<ModuleView> {
        modules_view(self.modules@)
    }

    /// The cache records, least recently used first.
    pub closed spec fn cache_entries(&self) -> Seq<CacheEntryView> {
        lru_entries(self.cache)
    }

    pub closed spec fn capacity(&self) -> nat {
        self.max_cache_size as nat
    }

    pub closed spec fn ttl(&self) -> u64 {
        self.cache_ttl
    }

    /// Identifiers are registered once; every cached identifier is registered;
    /// the cache holds at most its capacity.
    pub closed spec fn wf(&self) -> bool {
        &&& ids_distinct(self.registry())
        &&& cache_ok(lru_entries(self.cache), lru_capacity(self.cache))
        &&& lru_capacity(self.cache) == self.max_cache_size
        &&& forall|i: int| 0 <= i < lru_entries(self.cache).len() ==> module_index(self.registry(), #[trigger] lru_entries(self.cache)[i].0) is Some
        &&& self.import_resolver.aliases().len() == 0
        &&& self.bundle_loader.formats() == seq!["json"@, "toml"@, "yaml"@]
    }

    /// A system with no modules and an empty cache of `max_cache_size`
    /// records that expire after `cache_ttl` milliseconds.
    pub fn new(max_cache_size: usize, cache_ttl: u64) -> (s: Self)
        requires
            max_cache_size > 0,
        ensures
            s.wf(),
            s.registry().len() == 0,
            s.cache_entries().len() == 0,
            s.capacity() == max_cache_size,
            s.ttl() == cache_ttl,
    {
        let s = ShaderModuleSystem {
            modules: Vec::new(),
            cache: lru_new(max_cache_size),
            import_resolver: ImportResolver::new(),
            bundle_loader: BundleLoader::new(),
            max_cache_size,
            cache_ttl,
        };
        assert(s.registry() =~= Seq::<ModuleView>::empty());
        s
    }

    /// The position of the module registered under `id`.
    fn module_position(&self, id: &[char]) -> (r: Option<usize>)
        ensures
            match r {
                Some(j) => module_index(self.registry(), id@) == Some(j as int),
                None => module_index(self.registry(), id@) is None,
            },
    {
        let ghost reg = self.registry();
        let mut i = self.modules.len();
        let mut found = false;
        while i > 0 && !found
            invariant
                i <= self.modules@.len(),
                reg == self.registry(),
                found ==> 0 < i && reg[i - 1].id == id@,
                forall|k: int| i <= k < reg.len() ==> reg[k].id != id@,
            decreases i + if found { 0int } else { 1int },
        {
            let k = chars_of(self.modules[i - 1].id.0.as_str());
            if eq_chars(k.as_slice(), id) {
                found = true;
            } else {
                i = i - 1;
            }
        }
        proof {
            lemma_module_index_range(reg, id@, i as int);
            if found {
                assert(reg.subrange(0, i as int).last() == reg[i - 1]);
            } else {
                assert(reg.subrange(0, 0) =~= Seq::<ModuleView>::empty());
            }
        }
        if found {
            Some(i - 1)
        } else {
            None
        }
    }
}

proof fn lemma_module_index_range(reg: Seq<ModuleView>, id: Seq<char>, i: int)
    requires
        0 <= i <= reg.len(),
        forall|k: int| i <= k < reg.len() ==> reg[k].id != id,
    ensures
        module_index(reg, id) == module_index(reg.subrange(0, i), id),
    decreases reg.len() - i,
{
    if i < reg.len() {
        assert(reg.drop_last().subrange(0, i) =~= reg.subrange(0, i));
        lemma_module_index_range(reg.drop_last(), id, i);
    } else {
        assert(reg.subrange(0, i) =~= reg);
    }
}

fn copy_strings(v: &Vec<String>) -> (r: Vec<String>)
    ensures
        strings_view(r@) == strings_view(v@),
{
    let mut r: Vec<String> = Vec::new();
    let mut i: usize = 0;
    while i < v.len()
        invariant
            i <= v@.len(),
            r@.len() == i,
            forall|k: int| 0 <= k < i ==> (#[trigger] r@[k])@ == v@[k]@,
        decreases v@.len() - i,
    {
        r.push(string_of(chars_of(v[i].as_str()).as_slice()));
        i = i + 1;
    }
    assert(strings_view(r@) =~= strings_view(v@));
    r
}

fn copy_ids(v: &Vec<ModuleId>) -> (r: Vec<ModuleId>)
    ensures
        ids_view(r@) == ids_view(v@),
{
    let mut r: Vec<ModuleId> = Vec::new();
    let mut i: usize = 0;
    while i < v.len()
        invariant
            i <= v@.len(),
            r@.len() == i,
            forall|k: int| 0 <= k < i ==> (#[trigger] r@[k]).0@ == v@[k].0@,
        decreases v@.len() - i,
    {
        r.push(ModuleId(string_of(chars_of(v[i].0.as_str()).as_slice())));
        i = i + 1;
    }
    assert(ids_view(r@) =~= ids_view(v@));
    r
}

/// A copy of a module.
pub fn copy_module(m: &ShaderModule) -> (r: ShaderModule)
    ensures
        module_view(r) == module_view(*m),
{
    ShaderModule {
        id: ModuleId(string_of(chars_of(m.id.0.as_str()).as_slice())),
        name: string_of(chars_of(m.name.as_str()).as_slice()),
        source: string_of(chars_of(m.source.as_str()).as_slice()),
        dependencies: copy_ids(&m.dependencies),
        exports: copy_strings(&m.exports),
        imports: copy_strings(&m.imports),
        version: m.version,
    }
}


/// The strings of a list, each once, in order of first appearance.
pub open spec fn first_occurrences(s: Seq<Seq<char>>) -> Seq<Seq<char>>
    decreases s.len(),
{
    if s.len() == 0 {
        seq![]
    } else {
        let d = first_occurrences(s.drop_last());
        if d.contains(s.last()) {
            d
        } else {
            d.push(s.last())
        }
    }
}

fn distinct_strings(v: &Vec<String>) -> (r: Vec<String>)
    ensures
        strings_view(r@) == first_occurrences(strings_view(v@)),
{
    let ghost sv = strings_view(v@);
    let mut r: Vec<String> = Vec::new();
    let mut i: usize = 0;
    assert(sv.subrange(0, 0) =~= Seq::<Seq<char>>::empty());
    assert(strings_view(r@) =~= Seq::<Seq<char>>::empty());
    while i < v.len()
        invariant
            i <= v@.len(),
            sv == strings_view(v@),
            strings_view(r@) == first_occurrences(sv.subrange(0, i as int)),
        decreases v@.len() - i,
    {
        assert(sv.subrange(0, i + 1).drop_last() =~= sv.subrange(0, i as int));
        assert(sv.subrange(0, i + 1).last() == v@[i as int]@);
        let x = chars_of(v[i].as_str());
        let ghost rv = strings_view(r@);
        let mut seen = false;
        let mut k: usize = 0;
        while k < r.len()
            invariant
                k <= r@.len(),
                rv == strings_view(r@),
                seen <==> exists|j: int| 0 <= j < k && rv[j] == x@,
            decreases r@.len() - k,
        {
            let y = chars_of(r[k].as_str());
            if eq_chars(y.as_slice(), x.as_slice()) {
                assert(rv[k as int] == x@);
                seen = true;
            }
            k = k + 1;
        }
        assert(seen <==> rv.contains(x@));
        if !seen {
            r.push(string_of(x.as_slice()));
            assert(strings_view(r@) =~= rv.push(x@));
        }
        i = i + 1;
    }
    assert(sv.subrange(0, i as int) =~= sv);
    r
}

proof fn lemma_registry_insert(reg: Seq<ModuleView>, m: ModuleView)
    requires
        ids_distinct(reg),
    ensures
        ids_distinct(registry_insert(reg, m)),
        module_index(registry_insert(reg, m), m.id) is Some,
        forall|x: Seq<char>| module_index(reg, x) is Some ==> module_index(registry_insert(reg, m), x) is Some,
        registered(registry_insert(reg, m), m.id) == Some(m),
{
    lemma_module_index_props(reg, m.id);
    let r = registry_insert(reg, m);
    match module_index(reg, m.id) {
        Some(i) => {
            assert forall|a: int, b: int| 0 <= a < b < r.len() implies (#[trigger] r[a]).id != (#[trigger] r[b]).id by {
                assert(reg[a].id != reg[b].id);
            }
            lemma_module_index_unique(r, m.id, i);
            assert forall|x: Seq<char>| module_index(reg, x) is Some implies module_index(r, x) is Some by {
                lemma_module_index_props(reg, x);
                let k = module_index(reg, x).unwrap();
                lemma_module_index_unique(r, r[k].id, k);
            }
        },
        None => {
            assert forall|a: int, b: int| 0 <= a < b < r.len() implies (#[trigger] r[a]).id != (#[trigger] r[b]).id by {
                if b == reg.len() {
                    assert(r[a] == reg[a]);
                }
            }
            lemma_module_index_unique(r, m.id, reg.len() as int);
            assert forall|x: Seq<char>| module_index(reg, x) is Some implies module_index(r, x) is Some by {
                lemma_module_index_props(reg, x);
                let k = module_index(reg, x).unwrap();
                assert(r[k] == reg[k]);
                lemma_module_index_unique(r, r[k].id, k);
            }
        },
    }
}

impl ShaderModuleSystem {
    /// Stores a module, replacing the one with the same identifier.
    fn insert_module(&mut self, module: ShaderModule)
        requires
            ids_distinct(old(self).registry()),
        ensures
            final(self).registry() == registry_insert(old(self).registry(), module_view(module)),
            final(self).cache == old(self).cache,
            final(self).import_resolver == old(self).import_resolver,
            final(self).bundle_loader == old(self).bundle_loader,
            final(self).max_cache_size == old(self).max_cache_size,
            final(self).cache_ttl == old(self).cache_ttl,
    {
        let key = chars_of(module.id.0.as_str());
        let ghost reg = self.registry();
        let ghost mv = module_view(module);
        proof {
            lemma_module_index_props(reg, mv.id);
        }
        match self.module_position(key.as_slice()) {
            Some(j) => {
                self.modules.set(j, module);
                assert(self.registry() =~= reg.update(j as int, mv));
            },
            None => {
                self.modules.push(module);
                assert(self.registry() =~= reg.push(mv));
            },
        }
    }

    /// The module served from the cache: a fresh record is refreshed and
    /// the registered module returned; a stale record is dropped.
    fn get_cached(&mut self, id: &ModuleId, now: u64) -> (r: Result<Option<ShaderModule>, ModuleSystemError>)
        requires
            old(self).wf(),
        ensures
            final(self).wf(),
            final(self).registry() == old(self).registry(),
            final(self).capacity() == old(self).capacity(),
            final(self).ttl() == old(self).ttl(),
            final(self).cache_entries() == touched(old(self).cache_entries(), id.0@, now, old(self).ttl()).1,
            r matches Ok(o) && (touched(old(self).cache_entries(), id.0@, now, old(self).ttl()).0 ==> (o matches Some(m)
                && registered(old(self).registry(), id.0@) == Some(module_view(m)))) && (!touched(
                old(self).cache_entries(),
                id.0@,
                now,
                old(self).ttl(),
            ).0 ==> o is None),
    {
        let ghost e = lru_entries(self.cache);
        let ghost reg = self.registry();
        let key = chars_of(id.0.as_str());
        proof {
            lemma_key_position_props(e, id.0@);
        }
        match lru_get(&mut self.cache, id.0.as_str()) {
            Some((last, count)) => {
                let ghost i = key_position(e, id.0@).unwrap();
                let ghost e1 = lru_entries(self.cache);
                assert(e1 == e.remove(i).push(e[i]));
                assert(key_position(e1, id.0@) == Some(e1.len() - 1));
                let elapsed = if now >= last { now - last } else { 0 };
                if elapsed < self.cache_ttl {
                    let c = if count == u64::MAX { count } else { count + 1 };
                    lru_put(&mut self.cache, string_of(key.as_slice()), (now, c));
                    assert(e1.remove(e1.len() - 1) =~= e.remove(i));
                    proof {
                        let e2 = lru_entries(self.cache);
                        assert forall|k: int| 0 <= k < e2.len() implies module_index(reg, #[trigger] e2[k].0) is Some by {
                            if k < e2.len() - 1 {
                                if k < i {
                                    assert(e2[k] == e[k]);
                                } else {
                                    assert(e2[k] == e[k + 1]);
                                }
                            } else {
                                assert(e2[k].0 == e[i].0);
                            }
                        }
                    }
                    match self.module_position(key.as_slice()) {
                        Some(j) => {
                            proof {
                                lemma_module_index_props(reg, id.0@);
                            }
                            Ok(Some(copy_module(&self.modules[j])))
                        },
                        None => {
                            proof {
                                assert(module_index(reg, e[i].0) is Some);
                            }
                            Ok(None)
                        },
                    }
                } else {
                    lru_pop(&mut self.cache, id.0.as_str());
                    assert(e1.remove(e1.len() - 1) =~= e.remove(i));
                    proof {
                        let e2 = lru_entries(self.cache);
                        assert forall|k: int| 0 <= k < e2.len() implies module_index(reg, #[trigger] e2[k].0) is Some by {
                            if k < i {
                                assert(e2[k] == e[k]);
                            } else {
                                assert(e2[k] == e[k + 1]);
                            }
                        }
                    }
                    Ok(None)
                }
            },
            None => Ok(None),
        }
    }
}


/// The module loaded under `id` from `source`, with the names it declares
/// and the paths it imports, each once.
pub open spec fn loaded_module(
    id: Seq<char>,
    source: Seq<char>,
    exports: Seq<Seq<char>>,
    imports: Seq<Seq<char>>,
) -> ModuleView {
    ModuleView {
        id,
        name: id,
        source,
        dependencies: seq![],
        exports: first_occurrences(exports),
        imports: first_occurrences(imports),
        version: 1,
    }
}

impl ShaderModuleSystem {
    /// Loads a module from its source and what a parse of it found: the
    /// names it declares and the paths it imports. A module still fresh in
    /// the cache is returned as it is; otherwise the new module is stored
    /// and cached.
    pub fn load_module(
        &mut self,
        id: ModuleId,
        source: String,
        exports: Vec<String>,
        imports: Vec<String>,
        now: u64,
    ) -> (r: Result<ShaderModule, ModuleSystemError>)
        requires
            old(self).wf(),
        ensures
            final(self).wf(),
            final(self).capacity() == old(self).capacity(),
            final(self).ttl() == old(self).ttl(),
            ({
                let t = touched(old(self).cache_entries(), id.0@, now, old(self).ttl());
                let m = loaded_module(id.0@, source@, strings_view(exports@), strings_view(imports@));
                if t.0 {
                    &&& r matches Ok(x) && registered(old(self).registry(), id.0@) == Some(module_view(x))
                    &&& final(self).registry() == old(self).registry()
                    &&& final(self).cache_entries() == t.1
                } else {
                    &&& r matches Ok(x) && module_view(x) == m
                    &&& final(self).registry() == registry_insert(old(self).registry(), m)
                    &&& final(self).cache_entries() == cached_after_put(t.1, old(self).capacity(), id.0@, now)
                }
            }),
    {
        if let Some(cached) = self.get_cached(&id, now)? {
            return Ok(cached);
        }
        let ghost reg = self.registry();
        let ghost e = lru_entries(self.cache);
        let key = chars_of(id.0.as_str());
        let module = ShaderModule {
            id: ModuleId(string_of(key.as_slice())),
            name: string_of(key.as_slice()),
            source,
            dependencies: Vec::new(),
            exports: distinct_strings(&exports),
            imports: distinct_strings(&imports),
            version: 1,
        };
        let ghost mv = module_view(module);
        assert(mv.dependencies =~= Seq::<Seq<char>>::empty());
        let result = copy_module(&module);
        self.insert_module(module);
        proof {
            lemma_registry_insert(reg, mv);
        }
        lru_put(&mut self.cache, string_of(key.as_slice()), (now, 1));
        proof {
            let e2 = lru_entries(self.cache);
            let r2 = self.registry();
            lemma_key_position_props(e, id.0@);
            assert forall|k: int| 0 <= k < e2.len() implies module_index(r2, #[trigger] e2[k].0) is Some by {
                if k == e2.len() - 1 {
                    assert(e2[k].0 == mv.id);
                } else {
                    match key_position(e, id.0@) {
                        Some(i) => {
                            if k < i {
                                assert(e2[k] == e[k]);
                            } else {
                                assert(e2[k] == e[k + 1]);
                            }
                        },
                        None => {
                            if e.len() == self.max_cache_size {
                                assert(e2[k] == e[k + 1]);
                            } else {
                                assert(e2[k] == e[k]);
                            }
                        },
                    }
                }
            }
        }
        Ok(result)
    }

    /// The module registered under `id`, served from the cache when its
    /// record is fresh (the record is refreshed; a stale one is dropped).
    pub fn get_module(&mut self, id: &ModuleId, now: u64) -> (r: Result<ShaderModule, ModuleSystemError>)
        requires
            old(self).wf(),
        ensures
            final(self).wf(),
            final(self).registry() == old(self).registry(),
            final(self).capacity() == old(self).capacity(),
            final(self).ttl() == old(self).ttl(),
            final(self).cache_entries() == touched(old(self).cache_entries(), id.0@, now, old(self).ttl()).1,
            match registered(old(self).registry(), id.0@) {
                Some(v) => r matches Ok(m) && module_view(m) == v,
                None => r matches Err(ModuleSystemError::ModuleNotFound(x)) && x.0@ == id.0@,
            },
    {
        if let Some(cached) = self.get_cached(id, now)? {
            return Ok(cached);
        }
        let key = chars_of(id.0.as_str());
        proof {
            lemma_module_index_props(self.registry(), id.0@);
        }
        match self.module_position(key.as_slice()) {
            Some(j) => Ok(copy_module(&self.modules[j])),
            None => Err(ModuleSystemError::ModuleNotFound(ModuleId(string_of(key.as_slice())))),
        }
    }

    /// Drops the cache record of a module.
    pub fn invalidate_cache(&mut self, id: &ModuleId) -> (r: Result<(), ModuleSystemError>)
        requires
            old(self).wf(),
        ensures
            final(self).wf(),
            r is Ok,
            final(self).registry() == old(self).registry(),
            final(self).capacity() == old(self).capacity(),
            final(self).ttl() == old(self).ttl(),
            final(self).cache_entries() == match key_position(old(self).cache_entries(), id.0@) {
                Some(i) => old(self).cache_entries().remove(i),
                None => old(self).cache_entries(),
            },
    {
        let ghost e = lru_entries(self.cache);
        proof {
            lemma_key_position_props(e, id.0@);
        }
        lru_pop(&mut self.cache, id.0.as_str());
        proof {
            let e2 = lru_entries(self.cache);
            if let Some(i) = key_position(e, id.0@) {
                assert forall|k: int| 0 <= k < e2.len() implies module_index(self.registry(), #[trigger] e2[k].0) is Some by {
                    if k < i {
                        assert(e2[k] == e[k]);
                    } else {
                        assert(e2[k] == e[k + 1]);
                    }
                }
            }
        }
        Ok(())
    }

    /// Drops every cache record.
    pub fn clear_cache(&mut self) -> (r: Result<(), ModuleSystemError>)
        requires
            old(self).wf(),
        ensures
            final(self).wf(),
            r is Ok,
            final(self).registry() == old(self).registry(),
            final(self).capacity() == old(self).capacity(),
            final(self).ttl() == old(self).ttl(),
            final(self).cache_entries().len() == 0,
    {
        lru_clear(&mut self.cache);
        Ok(())
    }

    /// How many records the cache holds and how many it can hold.
    pub fn get_cache_stats(&self) -> (r: Result<CacheStats, ModuleSystemError>)
        ensures
            r matches Ok(s) && s.size == self.cache_entries().len() && s.capacity == self.capacity()
                && s.eviction_count == 0,
    {
        Ok(CacheStats { size: lru_len(&self.cache), capacity: self.max_cache_size, eviction_count: 0 })
    }

    /// Resolves the imports of a module through the system's aliases.
    pub fn resolve_imports(&self, module: &ShaderModule) -> (r: Result<Vec<ImportResolution>, ModuleSystemError>)
        requires
            self.wf(),
        ensures
            r matches Ok(v) && v@.len() == module.imports@.len() && forall|k: int|
                0 <= k < v@.len() ==> resolution_view(#[trigger] v@[k]) == (
                    module.imports@[k]@,
                    module.imports@[k]@,
                    None::<Seq<char>>,
                ),
    {
        proof {
            assert(self.import_resolver.aliases().len() == 0);
        }
        self.import_resolver.resolve_imports(module)
    }

    /// The loader of module bundles.
    pub fn bundle_loader(&self) -> (b: &BundleLoader)
        requires
            self.wf(),
        ensures
            b.formats() == seq!["json"@, "toml"@, "yaml"@],
    {
        &self.bundle_loader
    }
}


// ---------------------------------------------------------------------------
// Dependency resolution: a depth-first walk of the imports
// ---------------------------------------------------------------------------

/// The state of a walk over registry positions: the modules entered, the
/// modules being walked (outermost first) and the modules finished, in the
/// order they were finished.
pub struct WalkState {
    pub visited: Seq<usize>,
    pub stack: Seq<usize>,
    pub order: Seq<usize>,
}

/// The registered module that import `k` of module `i` names, if any.
pub open spec fn import_target(reg: Seq<ModuleView>, i: usize, k: int) -> Option<int> {
    module_index(reg, reg[i as int].imports[k])
}

/// Visits module `j`: a module being walked closes a cycle, and the walk
/// fails with the modules being walked; a module already entered is
/// skipped; otherwise its registered imports are visited in order, then it
/// is finished. `fuel` bounds the depth of the walk.
pub open spec fn visit(reg: Seq<ModuleView>, j: usize, st: WalkState, fuel: nat) -> Result<WalkState, Seq<usize>>
    decreases fuel, 0int,
{
    if fuel == 0 {
        Ok(st)
    } else if st.stack.contains(j) {
        Err(st.stack)
    } else if st.visited.contains(j) {
        Ok(st)
    } else {
        match visit_imports(
            reg,
            j,
            0,
            WalkState { visited: st.visited.push(j), stack: st.stack.push(j), order: st.order },
            (fuel - 1) as nat,
        ) {
            Err(e) => Err(e),
            Ok(s) => Ok(WalkState { visited: s.visited, stack: s.stack.drop_last(), order: s.order.push(j) }),
        }
    }
}

/// Visits the registered imports of module `i` from the `k`-th on.
pub open spec fn visit_imports(reg: Seq<ModuleView>, i: usize, k: int, st: WalkState, fuel: nat) -> Result<WalkState, Seq<usize>>
    decreases fuel, reg[i as int].imports.len() - k + 1,
{
    if k < 0 || k >= reg[i as int].imports.len() {
        Ok(st)
    } else {
        match import_target(reg, i, k) {
            None => visit_imports(reg, i, k + 1, st, fuel),
            Some(t) => match visit(reg, t as usize, st, fuel) {
                Err(e) => Err(e),
                Ok(s) => visit_imports(reg, i, k + 1, s, fuel),
            },
        }
    }
}

/// The walk from the module at `root`: the modules in the order they are
/// finished (each after the registered modules it imports), or the chain
/// of modules that closes a cycle.
pub open spec fn walk_from(reg: Seq<ModuleView>, root: usize) -> Result<Seq<usize>, Seq<usize>> {
    match visit(reg, root, WalkState { visited: seq![], stack: seq![], order: seq![] }, (reg.len() + 1) as nat) {
        Ok(s) => Ok(s.order),
        Err(e) => Err(e),
    }
}


/// Module `a` imports the registered module at position `b`.
pub open spec fn imports_module(reg: Seq<ModuleView>, a: usize, b: usize) -> bool {
    exists|k: int| 0 <= k < reg[a as int].imports.len() && #[trigger] import_target(reg, a, k) == Some(b as int)
}

/// Each module of the chain imports the next.
pub open spec fn is_import_chain(reg: Seq<ModuleView>, c: Seq<usize>) -> bool {
    forall|q: int| 0 <= q < c.len() - 1 ==> #[trigger] imports_module(reg, c[q], c[q + 1])
}

/// A chain of imports whose last module imports one of its modules.
pub open spec fn closes_cycle(reg: Seq<ModuleView>, c: Seq<usize>) -> bool {
    &&& c.len() > 0
    &&& is_import_chain(reg, c)
    &&& exists|p: int| 0 <= p < c.len() && #[trigger] imports_module(reg, c.last(), c[p])
}

proof fn lemma_chain_push(reg: Seq<ModuleView>, c: Seq<usize>, j: usize)
    requires
        is_import_chain(reg, c),
        c.len() > 0 ==> imports_module(reg, c.last(), j),
    ensures
        is_import_chain(reg, c.push(j)),
{
    let d = c.push(j);
    assert forall|q: int| 0 <= q < d.len() - 1 implies #[trigger] imports_module(reg, d[q], d[q + 1]) by {
        if q < c.len() - 1 {
            assert(d[q] == c[q] && d[q + 1] == c[q + 1]);
            assert(imports_module(reg, c[q], c[q + 1]));
        } else {
            assert(d[q] == c.last() && d[q + 1] == j);
        }
    }
}

proof fn lemma_visit_chain(reg: Seq<ModuleView>, j: usize, st: WalkState, fuel: nat)
    requires
        reg.len() <= usize::MAX,
        is_import_chain(reg, st.stack),
        st.stack.len() > 0 ==> imports_module(reg, st.stack.last(), j),
    ensures
        visit(reg, j, st, fuel) matches Ok(s) ==> s.stack == st.stack,
        visit(reg, j, st, fuel) matches Err(c) ==> closes_cycle(reg, c),
    decreases fuel, 0int,
{
    if fuel == 0 {
    } else if st.stack.contains(j) {
        let p = choose|p: int| 0 <= p < st.stack.len() && st.stack[p] == j;
        assert(imports_module(reg, st.stack.last(), st.stack[p]));
    } else if st.visited.contains(j) {
    } else {
        let st2 = WalkState { visited: st.visited.push(j), stack: st.stack.push(j), order: st.order };
        lemma_chain_push(reg, st.stack, j);
        lemma_visit_imports_chain(reg, j, 0, st2, (fuel - 1) as nat);
        if let Ok(s) = visit_imports(reg, j, 0, st2, (fuel - 1) as nat) {
            assert(s.stack.drop_last() =~= st.stack);
        }
    }
}

proof fn lemma_visit_imports_chain(reg: Seq<ModuleView>, i: usize, k: int, st: WalkState, fuel: nat)
    requires
        reg.len() <= usize::MAX,
        is_import_chain(reg, st.stack),
        st.stack.len() > 0,
        st.stack.last() == i,
    ensures
        visit_imports(reg, i, k, st, fuel) matches Ok(s) ==> s.stack == st.stack,
        visit_imports(reg, i, k, st, fuel) matches Err(c) ==> closes_cycle(reg, c),
    decreases fuel, reg[i as int].imports.len() - k + 1,
{
    if k < 0 || k >= reg[i as int].imports.len() {
    } else {
        match import_target(reg, i, k) {
            None => {
                lemma_visit_imports_chain(reg, i, k + 1, st, fuel);
            },
            Some(t) => {
                lemma_module_index_props(reg, reg[i as int].imports[k]);
                assert(import_target(reg, i, k) == Some((t as usize) as int));
                assert(imports_module(reg, i, t as usize));
                lemma_visit_chain(reg, t as usize, st, fuel);
                if let Ok(s) = visit(reg, t as usize, st, fuel) {
                    lemma_visit_imports_chain(reg, i, k + 1, s, fuel);
                }
            },
        }
    }
}

/// A walk that fails reports a circular dependency: a chain of modules,
/// each importing the next, whose last module imports one of the chain.
pub proof fn lemma_reported_cycle(reg: Seq<ModuleView>, root: usize)
    requires
        reg.len() <= usize::MAX,
    ensures
        walk_from(reg, root) matches Err(c) ==> closes_cycle(reg, c),
{
    lemma_visit_chain(reg, root, WalkState { visited: seq![], stack: seq![], order: seq![] }, (reg.len() + 1) as nat);
}


/// Every registered import of a module in the list comes earlier in the list.
pub open spec fn imports_first(reg: Seq<ModuleView>, order: Seq<usize>) -> bool {
    forall|q: int, t: usize|
        0 <= q < order.len() && #[trigger] imports_module(reg, order[q], t) ==> exists|r: int|
            0 <= r < q && #[trigger] order[r] == t
}

/// What holds of a walk between steps: modules are entered once; a module
/// entered is being walked or finished, never both; finished modules are
/// listed once, each after its registered imports.
pub open spec fn walk_inv(reg: Seq<ModuleView>, st: WalkState) -> bool {
    &&& st.visited.no_duplicates()
    &&& st.order.no_duplicates()
    &&& forall|x: usize| #[trigger] st.visited.contains(x) ==> x < reg.len()
    &&& forall|x: usize| #[trigger] st.stack.contains(x) ==> st.visited.contains(x)
    &&& forall|x: usize| #[trigger] st.order.contains(x) ==> st.visited.contains(x)
    &&& forall|x: usize| #[trigger] st.visited.contains(x) ==> st.stack.contains(x) || st.order.contains(x)
    &&& forall|x: usize| !(#[trigger] st.stack.contains(x) && st.order.contains(x))
    &&& imports_first(reg, st.order)
}

/// Every registered import of module `i` before the `k`-th is finished.
pub open spec fn imports_done(reg: Seq<ModuleView>, i: usize, k: int, order: Seq<usize>) -> bool {
    forall|k2: int| 0 <= k2 < k && #[trigger] import_target(reg, i, k2) is Some ==> order.contains(
        import_target(reg, i, k2).unwrap() as usize,
    )
}

proof fn lemma_visited_bound(reg: Seq<ModuleView>, st: WalkState)
    requires
        walk_inv(reg, st),
    ensures
        st.visited.len() <= reg.len(),
{
    assert forall|k: int| 0 <= k < st.visited.len() implies #[trigger] st.visited[k] < reg.len() by {
        assert(st.visited.contains(st.visited[k]));
    }
    lemma_distinct_below(st.visited, reg.len());
}

proof fn lemma_visit_order(reg: Seq<ModuleView>, j: usize, st: WalkState, fuel: nat)
    requires
        reg.len() <= usize::MAX,
        walk_inv(reg, st),
        j < reg.len(),
        fuel >= reg.len() - st.visited.len() + 1,
    ensures
        visit(reg, j, st, fuel) matches Ok(s) ==> {
            &&& walk_inv(reg, s)
            &&& s.order.contains(j)
            &&& s.stack == st.stack
            &&& s.visited.len() >= st.visited.len()
            &&& forall|x: usize| st.order.contains(x) ==> #[trigger] s.order.contains(x)
            &&& forall|x: usize| st.visited.contains(x) ==> #[trigger] s.visited.contains(x)
        },
    decreases fuel, 0int,
{
    lemma_visited_bound(reg, st);
    if st.stack.contains(j) {
    } else if st.visited.contains(j) {
    } else {
        let v2 = st.visited.push(j);
        let st2 = WalkState { visited: v2, stack: st.stack.push(j), order: st.order };
        assert(v2.no_duplicates()) by {
            assert forall|a: int, b: int| 0 <= a < v2.len() && 0 <= b < v2.len() && a != b implies v2[a] != v2[b] by {
                if b == v2.len() - 1 {
                    assert(st.visited.contains(v2[a]));
                } else if a == v2.len() - 1 {
                    assert(st.visited.contains(v2[b]));
                }
            }
        }
        assert forall|k: int| 0 <= k < v2.len() implies #[trigger] v2[k] < reg.len() by {
            if k < v2.len() - 1 {
                assert(st.visited.contains(v2[k]));
            }
        }
        lemma_distinct_below(v2, reg.len());
        assert(walk_inv(reg, st2)) by {
            assert forall|x: usize| #[trigger] st2.visited.contains(x) implies x < reg.len() by {
                let k = choose|k: int| 0 <= k < v2.len() && v2[k] == x;
            }
            assert forall|x: usize| #[trigger] st2.stack.contains(x) implies st2.visited.contains(x) by {
                if x != j {
                    let k = choose|k: int| 0 <= k < st2.stack.len() && st2.stack[k] == x;
                    assert(st.stack[k] == x);
                    assert(st.stack.contains(x));
                    assert(st.visited.contains(x));
                    let m = choose|m: int| 0 <= m < st.visited.len() && st.visited[m] == x;
                    assert(v2[m] == x);
                } else {
                    assert(v2[v2.len() - 1] == j);
                }
            }
            assert forall|x: usize| #[trigger] st2.order.contains(x) implies st2.visited.contains(x) by {
                assert(st.visited.contains(x));
                let m = choose|m: int| 0 <= m < st.visited.len() && st.visited[m] == x;
                assert(v2[m] == x);
            }
            assert forall|x: usize| #[trigger] st2.visited.contains(x) implies st2.stack.contains(x) || st2.order.contains(x) by {
                if x == j {
                    assert(st2.stack[st2.stack.len() - 1] == j);
                } else {
                    let m = choose|m: int| 0 <= m < v2.len() && v2[m] == x;
                    assert(st.visited[m] == x);
                    assert(st.visited.contains(x));
                    if st.stack.contains(x) {
                        let k = choose|k: int| 0 <= k < st.stack.len() && st.stack[k] == x;
                        assert(st2.stack[k] == x);
                    }
                }
            }
            assert forall|x: usize| !(#[trigger] st2.stack.contains(x) && st2.order.contains(x)) by {
                if st2.stack.contains(x) && st2.order.contains(x) {
                    if x == j {
                        assert(st.visited.contains(j));
                    } else {
                        let k = choose|k: int| 0 <= k < st2.stack.len() && st2.stack[k] == x;
                        assert(st.stack[k] == x);
                        assert(st.stack.contains(x));
                    }
                }
            }
        }
        lemma_visit_imports_order(reg, j, 0, st2, (fuel - 1) as nat);
        if let Ok(s) = visit_imports(reg, j, 0, st2, (fuel - 1) as nat) {
            let o = s.order.push(j);
            let fin = WalkState { visited: s.visited, stack: s.stack.drop_last(), order: o };
            assert(s.stack.drop_last() =~= st.stack);
            assert(s.stack.contains(j)) by {
                assert(s.stack[s.stack.len() - 1] == j);
            }
            assert(!s.order.contains(j));
            assert(o.no_duplicates()) by {
                assert forall|a: int, b: int| 0 <= a < o.len() && 0 <= b < o.len() && a != b implies o[a] != o[b] by {
                    if b == o.len() - 1 {
                        assert(s.order.contains(o[a]));
                    } else if a == o.len() - 1 {
                        assert(s.order.contains(o[b]));
                    }
                }
            }
            assert(o[o.len() - 1] == j);
            assert(st2.visited.contains(j)) by {
                assert(v2[v2.len() - 1] == j);
            }
            assert(imports_first(reg, o)) by {
                assert forall|q: int, t: usize| 0 <= q < o.len() && #[trigger] imports_module(reg, o[q], t) implies exists|r: int|
                    0 <= r < q && #[trigger] o[r] == t by {
                    if q == o.len() - 1 {
                        let k = choose|k: int| 0 <= k < reg[j as int].imports.len() && #[trigger] import_target(reg, j, k) == Some(t as int);
                        assert(import_target(reg, j, k) is Some);
                        assert(s.order.contains(t));
                        let r = choose|r: int| 0 <= r < s.order.len() && s.order[r] == t;
                        assert(o[r] == t);
                    } else {
                        assert(o[q] == s.order[q]);
                        assert(imports_module(reg, s.order[q], t));
                        let r = choose|r: int| 0 <= r < q && #[trigger] s.order[r] == t;
                        assert(o[r] == t);
                    }
                }
            }
            assert(walk_inv(reg, fin)) by {
                assert forall|x: usize| #[trigger] fin.order.contains(x) implies fin.visited.contains(x) by {
                    if x != j {
                        let k = choose|k: int| 0 <= k < o.len() && o[k] == x;
                        assert(s.order[k] == x);
                        assert(s.order.contains(x));
                    }
                }
                assert forall|x: usize| #[trigger] fin.stack.contains(x) implies fin.visited.contains(x) by {
                    let k = choose|k: int| 0 <= k < fin.stack.len() && fin.stack[k] == x;
                    assert(s.stack[k] == x);
                    assert(s.stack.contains(x));
                }
                assert forall|x: usize| #[trigger] fin.visited.contains(x) implies fin.stack.contains(x) || fin.order.contains(x) by {
                    assert(s.stack.contains(x) || s.order.contains(x));
                    if s.order.contains(x) {
                        let k = choose|k: int| 0 <= k < s.order.len() && s.order[k] == x;
                        assert(o[k] == x);
                    } else if x == j {
                        assert(o[o.len() - 1] == j);
                    } else {
                        let k = choose|k: int| 0 <= k < s.stack.len() && s.stack[k] == x;
                        assert(k < s.stack.len() - 1);
                        assert(fin.stack[k] == x);
                    }
                }
                assert forall|x: usize| !(#[trigger] fin.stack.contains(x) && fin.order.contains(x)) by {
                    if fin.stack.contains(x) && fin.order.contains(x) {
                        let k = choose|k: int| 0 <= k < fin.stack.len() && fin.stack[k] == x;
                        assert(s.stack[k] == x);
                        assert(s.stack.contains(x));
                        if x == j {
                            assert(st.stack[k] == j);
                        } else {
                            let m = choose|m: int| 0 <= m < o.len() && o[m] == x;
                            assert(s.order[m] == x);
                            assert(s.order.contains(x));
                        }
                    }
                }
            }
            assert forall|x: usize| st.order.contains(x) implies #[trigger] fin.order.contains(x) by {
                assert(s.order.contains(x));
                let k = choose|k: int| 0 <= k < s.order.len() && s.order[k] == x;
                assert(o[k] == x);
            }
            assert forall|x: usize| st.visited.contains(x) implies #[trigger] fin.visited.contains(x) by {
                let m = choose|m: int| 0 <= m < st.visited.len() && st.visited[m] == x;
                assert(v2[m] == x);
                assert(st2.visited.contains(x));
            }
        }
    }
}

proof fn lemma_visit_imports_order(reg: Seq<ModuleView>, i: usize, k: int, st: WalkState, fuel: nat)
    requires
        reg.len() <= usize::MAX,
        walk_inv(reg, st),
        i < reg.len(),
        0 <= k,
        fuel >= reg.len() - st.visited.len() + 1,
        imports_done(reg, i, k, st.order),
    ensures
        visit_imports(reg, i, k, st, fuel) matches Ok(s) ==> {
            &&& walk_inv(reg, s)
            &&& imports_done(reg, i, reg[i as int].imports.len() as int, s.order)
            &&& s.stack == st.stack
            &&& s.visited.len() >= st.visited.len()
            &&& forall|x: usize| st.order.contains(x) ==> #[trigger] s.order.contains(x)
            &&& forall|x: usize| st.visited.contains(x) ==> #[trigger] s.visited.contains(x)
        },
    decreases fuel, reg[i as int].imports.len() - k + 1,
{
    if k >= reg[i as int].imports.len() {
        assert forall|k2: int| 0 <= k2 < reg[i as int].imports.len() && #[trigger] import_target(reg, i, k2) is Some implies st.order.contains(
            import_target(reg, i, k2).unwrap() as usize,
        ) by {
            assert(k2 < k);
        }
    } else {
        match import_target(reg, i, k) {
            None => {
                assert(imports_done(reg, i, k + 1, st.order));
                lemma_visit_imports_order(reg, i, k + 1, st, fuel);
            },
            Some(t) => {
                lemma_module_index_props(reg, reg[i as int].imports[k]);
                lemma_visit_order(reg, t as usize, st, fuel);
                if let Ok(s1) = visit(reg, t as usize, st, fuel) {
                    assert(imports_done(reg, i, k + 1, s1.order)) by {
                        assert forall|k2: int| 0 <= k2 < k + 1 && #[trigger] import_target(reg, i, k2) is Some implies s1.order.contains(
                            import_target(reg, i, k2).unwrap() as usize,
                        ) by {
                            if k2 < k {
                                assert(st.order.contains(import_target(reg, i, k2).unwrap() as usize));
                            }
                        }
                    }
                    lemma_visit_imports_order(reg, i, k + 1, s1, fuel);
                }
            },
        }
    }
}

/// A walk that succeeds lists each module once, every module after the
/// registered modules it imports, and ends with the module it started from.
pub proof fn lemma_walk_order(reg: Seq<ModuleView>, root: usize)
    requires
        reg.len() <= usize::MAX,
        root < reg.len(),
    ensures
        walk_from(reg, root) matches Ok(ord) ==> {
            &&& ord.no_duplicates()
            &&& imports_first(reg, ord)
            &&& ord.len() > 0
            &&& ord.last() == root
        },
{
    let st = WalkState { visited: seq![], stack: seq![], order: seq![] };
    assert(walk_inv(reg, st));
    lemma_visit_order(reg, root, st, (reg.len() + 1) as nat);
}

pub open spec fn walk_ok(n: nat, st: WalkState) -> bool {
    &&& st.visited.no_duplicates()
    &&& forall|k: int| 0 <= k < st.visited.len() ==> #[trigger] st.visited[k] < n
    &&& forall|k: int| 0 <= k < st.stack.len() ==> #[trigger] st.stack[k] < n
    &&& forall|k: int| 0 <= k < st.order.len() ==> #[trigger] st.order[k] < n
}

proof fn lemma_distinct_below(s: Seq<usize>, n: nat)
    requires
        s.no_duplicates(),
        forall|k: int| 0 <= k < s.len() ==> #[trigger] s[k] < n,
    ensures
        s.len() <= n,
{
    let m = s.map_values(|x: usize| x as int);
    assert(m.no_duplicates()) by {
        assert forall|i: int, j: int| 0 <= i < m.len() && 0 <= j < m.len() && i != j implies m[i] != m[j] by {
            assert(s[i] != s[j]);
        }
    }
    m.unique_seq_to_set();
    vstd::set_lib::lemma_int_range(0, n as int);
    assert(m.to_set().subset_of(vstd::set_lib::set_int_range(0, n as int))) by {
        assert forall|x: int| m.to_set().contains(x) implies vstd::set_lib::set_int_range(0, n as int).contains(x) by {
            let k = choose|k: int| 0 <= k < m.len() && m[k] == x;
            assert(s[k] < n);
        }
    }
    vstd::set_lib::lemma_len_subset(m.to_set(), vstd::set_lib::set_int_range(0, n as int));
}

fn contains_index(v: &Vec<usize>, x: usize) -> (b: bool)
    ensures
        b == v@.contains(x),
{
    let mut i: usize = 0;
    while i < v.len()
        invariant
            i <= v@.len(),
            forall|k: int| 0 <= k < i ==> v@[k] != x,
        decreases v@.len() - i,
    {
        if v[i] == x {
            assert(v@[i as int] == x);
            return true;
        }
        i = i + 1;
    }
    false
}

impl ShaderModuleSystem {
    /// Walks from the module at position `j`, as `visit` describes.
    fn collect_dependencies(
        &self,
        j: usize,
        visited: &mut Vec<usize>,
        stack: &mut Vec<usize>,
        order: &mut Vec<usize>,
        Ghost(fuel): Ghost<nat>,
    ) -> (r: Result<(), Vec<usize>>)
        requires
            self.wf(),
            j < self.registry().len(),
            walk_ok(
                self.registry().len(),
                WalkState { visited: old(visited)@, stack: old(stack)@, order: old(order)@ },
            ),
            fuel >= self.registry().len() - old(visited)@.len() + 1,
        ensures
            match visit(
                self.registry(),
                j,
                WalkState { visited: old(visited)@, stack: old(stack)@, order: old(order)@ },
                fuel,
            ) {
                Ok(s) => r is Ok && s == WalkState { visited: final(visited)@, stack: final(stack)@, order: final(order)@ },
                Err(e) => r matches Err(v) && v@ == e,
            },
            r is Ok ==> walk_ok(
                self.registry().len(),
                WalkState { visited: final(visited)@, stack: final(stack)@, order: final(order)@ },
            ),
            r is Ok ==> final(visited)@.len() >= old(visited)@.len(),
            r is Ok ==> final(stack)@ == old(stack)@,
            r matches Err(v) ==> forall|k: int| 0 <= k < v@.len() ==> #[trigger] v@[k] < self.registry().len(),
        decreases fuel,
    {
        let ghost reg = self.registry();
        let ghost n = reg.len();
        proof {
            lemma_distinct_below(visited@, n);
        }
        if contains_index(stack, j) {
            let mut copy: Vec<usize> = Vec::new();
            let mut i: usize = 0;
            while i < stack.len()
                invariant
                    i <= stack@.len(),
                    copy@ == stack@.subrange(0, i as int),
                decreases stack@.len() - i,
            {
                copy.push(stack[i]);
                i = i + 1;
            }
            assert(stack@.subrange(0, i as int) =~= stack@);
            return Err(copy);
        }
        if contains_index(visited, j) {
            return Ok(());
        }
        let ghost entry = WalkState { visited: visited@.push(j), stack: stack@.push(j), order: order@ };
        visited.push(j);
        stack.push(j);
        assert(visited@.no_duplicates()) by {
            assert forall|a: int, b: int| 0 <= a < visited@.len() && 0 <= b < visited@.len() && a != b implies visited@[a] != visited@[b] by {
                if b == visited@.len() - 1 {
                    assert(visited@[a] == old(visited)@[a]);
                } else if a == visited@.len() - 1 {
                    assert(visited@[b] == old(visited)@[b]);
                } else {
                    assert(old(visited)@[a] != old(visited)@[b]);
                }
            }
        }
        let m = &self.modules[j];
        assert(strings_view(m.imports@) == reg[j as int].imports);
        let mut k: usize = 0;
        while k < m.imports.len()
            invariant
                self.wf(),
                reg == self.registry(),
                n == reg.len(),
                j < n,
                m == self.modules@[j as int],
                strings_view(m.imports@) == reg[j as int].imports,
                k <= m.imports@.len(),
                fuel >= 1,
                fuel - 1 >= n - visited@.len() + 1,
                visited@.len() >= old(visited)@.len() + 1,
                !old(stack)@.contains(j),
                !old(visited)@.contains(j),
                entry == (WalkState { visited: old(visited)@.push(j), stack: old(stack)@.push(j), order: old(order)@ }),
                stack@ == entry.stack,
                walk_ok(n, WalkState { visited: visited@, stack: stack@, order: order@ }),
                visit_imports(reg, j, 0, entry, (fuel - 1) as nat) == visit_imports(
                    reg,
                    j,
                    k as int,
                    WalkState { visited: visited@, stack: stack@, order: order@ },
                    (fuel - 1) as nat,
                ),
            decreases m.imports@.len() - k,
        {
            let ghost cur = WalkState { visited: visited@, stack: stack@, order: order@ };
            let name = chars_of(m.imports[k].as_str());
            assert(name@ == reg[j as int].imports[k as int]);
            proof {
                lemma_module_index_props(reg, name@);
            }
            match self.module_position(name.as_slice()) {
                Some(t) => {
                    let ghost before = visited@.len();
                    let res = self.collect_dependencies(t, visited, stack, order, Ghost((fuel - 1) as nat));
                    match res {
                        Err(e) => {
                            proof {
                                assert(import_target(reg, j, k as int) == Some(t as int));
                                assert(visit_imports(reg, j, k as int, cur, (fuel - 1) as nat) == Err::<
                                    WalkState,
                                    Seq<usize>,
                                >(e@));
                                assert(visit(
                                    reg,
                                    j,
                                    WalkState { visited: old(visited)@, stack: old(stack)@, order: old(order)@ },
                                    fuel,
                                ) == Err::<WalkState, Seq<usize>>(e@));
                            }
                            return Err(e);
                        },
                        Ok(()) => {},
                    }
                },
                None => {},
            }
            k = k + 1;
        }
        let ghost done = WalkState { visited: visited@, stack: stack@, order: order@ };
        assert(visit_imports(reg, j, k as int, done, (fuel - 1) as nat) == Ok::<WalkState, Seq<usize>>(done));
        stack.pop();
        assert(stack@ =~= entry.stack.drop_last());
        assert(entry.stack.drop_last() =~= old(stack)@);
        order.push(j);
        Ok(())
    }

    /// The modules the module `id` depends on, each once and each after the
    /// registered modules it imports, ending with the module itself. An
    /// import that names no registered module is passed over; an import chain
    /// that leads back to a module being walked is a circular dependency.
    pub fn resolve_dependencies(&self, id: &ModuleId) -> (r: Result<Vec<ShaderModule>, ModuleSystemError>)
        requires
            self.wf(),
        ensures
            match module_index(self.registry(), id.0@) {
                None => r matches Err(ModuleSystemError::ModuleNotFound(x)) && x.0@ == id.0@,
                Some(i) => match walk_from(self.registry(), i as usize) {
                    Ok(ord) => r matches Ok(v) && modules_view(v@) == ord.map_values(
                        |k: usize| self.registry()[k as int],
                    ),
                    Err(chain) => r matches Err(ModuleSystemError::CircularDependency(ids)) && ids_view(ids@)
                        == chain.map_values(|k: usize| self.registry()[k as int].id),
                },
            },
    {
        let ghost reg = self.registry();
        let key = chars_of(id.0.as_str());
        proof {
            lemma_module_index_props(reg, id.0@);
        }
        let root = match self.module_position(key.as_slice()) {
            Some(j) => j,
            None => {
                return Err(ModuleSystemError::ModuleNotFound(ModuleId(string_of(key.as_slice()))));
            },
        };
        let mut visited: Vec<usize> = Vec::new();
        let mut stack: Vec<usize> = Vec::new();
        let mut order: Vec<usize> = Vec::new();
        assert(visited@ =~= seq![]);
        assert(stack@ =~= seq![]);
        assert(order@ =~= seq![]);
        let res = self.collect_dependencies(root, &mut visited, &mut stack, &mut order, Ghost((reg.len() + 1) as nat));
        match res {
            Ok(()) => {
                let mut out: Vec<ShaderModule> = Vec::new();
                let mut i: usize = 0;
                while i < order.len()
                    invariant
                        i <= order@.len(),
                        reg == self.registry(),
                        forall|k: int| 0 <= k < order@.len() ==> #[trigger] order@[k] < reg.len(),
                        modules_view(out@) == order@.subrange(0, i as int).map_values(|k: usize| reg[k as int]),
                    decreases order@.len() - i,
                {
                    let ghost before = modules_view(out@);
                    let k = order[i];
                    assert(order@[i as int] < reg.len());
                    out.push(copy_module(&self.modules[k]));
                    assert(modules_view(out@) =~= before.push(reg[k as int]));
                    assert(order@.subrange(0, i + 1).map_values(|k: usize| reg[k as int]) =~= order@.subrange(
                        0,
                        i as int,
                    ).map_values(|k: usize| reg[k as int]).push(reg[k as int]));
                    i = i + 1;
                }
                assert(order@.subrange(0, i as int) =~= order@);
                Ok(out)
            },
            Err(chain) => {
                let mut ids: Vec<ModuleId> = Vec::new();
                let mut i: usize = 0;
                while i < chain.len()
                    invariant
                        i <= chain@.len(),
                        reg == self.registry(),
                        forall|k: int| 0 <= k < chain@.len() ==> #[trigger] chain@[k] < reg.len(),
                        ids_view(ids@) == chain@.subrange(0, i as int).map_values(|k: usize| reg[k as int].id),
                    decreases chain@.len() - i,
                {
                    let ghost before = ids_view(ids@);
                    let k = chain[i];
                    assert(chain@[i as int] < reg.len());
                    ids.push(ModuleId(string_of(chars_of(self.modules[k].id.0.as_str()).as_slice())));
                    assert(ids_view(ids@) =~= before.push(reg[k as int].id));
                    assert(chain@.subrange(0, i + 1).map_values(|k: usize| reg[k as int].id) =~= chain@.subrange(
                        0,
                        i as int,
                    ).map_values(|k: usize| reg[k as int].id).push(reg[k as int].id));
                    i = i + 1;
                }
                assert(chain@.subrange(0, i as int) =~= chain@);
                Err(ModuleSystemError::CircularDependency(ids))
            },
        }
    }
}

/// The bundle formats a loader reads.
#[derive(Clone, Copy, Debug, PartialEq, Eq, Structural)]
pub enum BundleFormat {
    Json,
    Toml,
    Yaml,
}

/// The format a bundle file extension names.
pub open spec fn format_of(ext: Seq<char>) -> Option<BundleFormat> {
    if ext == "json"@ {
        Some(BundleFormat::Json)
    } else if ext == "toml"@ {
        Some(BundleFormat::Toml)
    } else if ext == "yaml"@ || ext == "yml"@ {
        Some(BundleFormat::Yaml)
    } else {
        None
    }
}

/// The message of the error for an extension that names no bundle format.
pub const UNSUPPORTED_FORMAT_MESSAGE: &'static str = "Unsupported bundle format";

/// Reads module bundles written as JSON, TOML or YAML.
pub struct BundleLoader {
    supported_formats: Vec<String>,
}

impl BundleLoader {
    pub closed spec fn formats(&self) -> Seq<Seq<char>> {
        self.supported_formats@.map_values(|s: String| s@)
    }

    pub fn new() -> (b: Self)
        ensures
            b.formats() == seq!["json"@, "toml"@, "yaml"@],
    {
        let mut formats: Vec<String> = Vec::new();
        formats.push(string_of(chars_of("json").as_slice()));
        formats.push(string_of(chars_of("toml").as_slice()));
        formats.push(string_of(chars_of("yaml").as_slice()));
        let b = BundleLoader { supported_formats: formats };
        assert(b.formats() =~= seq!["json"@, "toml"@, "yaml"@]);
        b
    }

    /// The format of a bundle file with this extension; other extensions are refused.
    pub fn bundle_format(&self, extension: &str) -> (r: Result<BundleFormat, ModuleSystemError>)
        ensures
            match format_of(extension@) {
                Some(f) => r == Ok::<BundleFormat, ModuleSystemError>(f),
                None => r matches Err(ModuleSystemError::IoError(m)) && m@ == UNSUPPORTED_FORMAT_MESSAGE@,
            },
    {
        let e = chars_of(extension);
        if eq_str(e.as_slice(), "json") {
            Ok(BundleFormat::Json)
        } else if eq_str(e.as_slice(), "toml") {
            Ok(BundleFormat::Toml)
        } else if eq_str(e.as_slice(), "yaml") || eq_str(e.as_slice(), "yml") {
            Ok(BundleFormat::Yaml)
        } else {
            Err(ModuleSystemError::IoError(string_of(chars_of(UNSUPPORTED_FORMAT_MESSAGE).as_slice())))
        }
    }
}


/// The sources of the dependencies, each followed by a line break, in order.
pub open spec fn sources_joined(deps: Seq<ShaderModule>) -> Seq<char>
    decreases deps.len(),
{
    if deps.len() == 0 {
        seq![]
    } else {
        sources_joined(deps.drop_last()) + deps.last().source@ + "\n"@
    }
}

/// The source handed to the shader compiler for a module: the sources of
/// its dependencies (as `resolve_dependencies` lists them, each followed by
/// a line break), then the module's own source.
pub fn combined_source(module: &ShaderModule, dependencies: &Vec<ShaderModule>) -> (s: String)
    ensures
        s@ == sources_joined(dependencies@) + module.source@,
{
    let mut out: Vec<char> = Vec::new();
    let mut i: usize = 0;
    while i < dependencies.len()
        invariant
            i <= dependencies@.len(),
            out@ == sources_joined(dependencies@.subrange(0, i as int)),
        decreases dependencies@.len() - i,
    {
        push_str(&mut out, dependencies[i].source.as_str());
        push_str(&mut out, "\n");
        assert(dependencies@.subrange(0, i + 1).drop_last() =~= dependencies@.subrange(0, i as int));
        i = i + 1;
    }
    assert(dependencies@.subrange(0, i as int) =~= dependencies@);
    push_str(&mut out, module.source.as_str());
    string_of(out.as_slice())
}

} // verus!
