//! Configuration of the assembler: global settings, platforms, function
//! mappings and adapters, with a manager that reads and updates them.
use vstd::prelude::*;
use crate::target::{
    copy_target, same_target, AbiCompatible, ApiCompatible, Architecture, CompilationTarget,
    TargetView,
};
use crate::text::{copy_string, owned, str_eq};

verus! {

/// The value stored under a key: that of the first entry with the key.
pub open spec fn lookup<K, V>(s: Seq<(K, V)>, k: K) -> Option<V>
    decreases s.len(),
{
    if s.len() == 0 {
        None
    } else if s[0].0 == k {
        Some(s[0].1)
    } else {
        lookup(s.drop_first(), k)
    }
}

/// The entries of a string map, as text pairs.
pub open spec fn pair_views(v: Seq<(String, String)>) -> Seq<(Seq<char>, Seq<char>)> {
    v.map_values(|p: (String, String)| (p.0@, p.1@))
}

/// The map an entry list stands for: each key to its first value.
pub open spec fn entries_map<K, V>(s: Seq<(K, V)>) -> Map<K, V> {
    Map::new(|k: K| lookup(s, k) is Some, |k: K| lookup(s, k)->0)
}

pub proof fn lemma_lookup_absent<K, V>(s: Seq<(K, V)>, k: K)
    requires
        forall|j: int| 0 <= j < s.len() ==> (#[trigger] s[j]).0 != k,
    ensures
        lookup(s, k) is None,
    decreases s.len(),
{
    if s.len() > 0 {
        assert forall|j: int| 0 <= j < s.drop_first().len() implies (
        #[trigger] s.drop_first()[j]).0 != k by {
            assert(s.drop_first()[j] == s[j + 1]);
        }
        lemma_lookup_absent(s.drop_first(), k);
    }
}

pub proof fn lemma_lookup_push<K, V>(s: Seq<(K, V)>, k: K, v: V, k2: K)
    requires
        lookup(s, k) is None,
    ensures
        lookup(s.push((k, v)), k2) == (if k2 == k {
            Some(v)
        } else {
            lookup(s, k2)
        }),
    decreases s.len(),
{
    if s.len() > 0 {
        assert(s.push((k, v)).drop_first() =~= s.drop_first().push((k, v)));
        lemma_lookup_push(s.drop_first(), k, v, k2);
    } else {
        assert(s.push((k, v)).drop_first() =~= s);
    }
}

pub proof fn lemma_lookup_update<K, V>(s: Seq<(K, V)>, i: int, k: K, v: V, k2: K)
    requires
        0 <= i < s.len(),
        s[i].0 == k,
        forall|j: int| 0 <= j < i ==> (#[trigger] s[j]).0 != k,
    ensures
        lookup(s.update(i, (k, v)), k2) == (if k2 == k {
            Some(v)
        } else {
            lookup(s, k2)
        }),
    decreases i,
{
    if i > 0 {
        assert(s.update(i, (k, v)).drop_first() =~= s.drop_first().update(i - 1, (k, v)));
        assert forall|j: int| 0 <= j < i - 1 implies (#[trigger] s.drop_first()[j]).0 != k by {
            assert(s.drop_first()[j] == s[j + 1]);
        }
        lemma_lookup_update(s.drop_first(), i - 1, k, v, k2);
    } else {
        assert(s.update(0, (k, v)).drop_first() =~= s.drop_first());
    }
}

/// A map from strings to strings (`HashMap<String, String>`), kept as a
/// list of entries with distinct keys, in insertion order.
#[derive(Debug)]
pub struct StringMap {
    entries: Vec<(String, String)>,
}

impl Clone for StringMap {
    /// A copy with the same entries.
    fn clone(&self) -> (r: Self)
        ensures
            r.pairs() == self.pairs(),
    {
        self.clone_map()
    }
}

/// Whether no key occurs twice.
pub open spec fn keys_distinct(s: Seq<(Seq<char>, Seq<char>)>) -> bool {
    forall|i: int, j: int| 0 <= i < j < s.len() ==> (#[trigger] s[i]).0 != (#[trigger] s[j]).0
}

impl StringMap {
    /// No key has two entries.
    #[verifier::type_invariant]
    spec fn keys_unique(self) -> bool {
        keys_distinct(self.pairs())
    }

    /// The entries, as text pairs.
    pub closed spec fn pairs(self) -> Seq<(Seq<char>, Seq<char>)> {
        pair_views(self.entries@)
    }

    /// The map the entries stand for.
    pub open spec fn as_map(self) -> Map<Seq<char>, Seq<char>> {
        entries_map(self.pairs())
    }

    /// An empty map.
    pub fn new() -> (r: StringMap)
        ensures
            r.as_map() == Map::<Seq<char>, Seq<char>>::empty(),
            r.pairs() == Seq::<(Seq<char>, Seq<char>)>::empty(),
    {
        let r = StringMap { entries: Vec::new() };
        assert(r.pairs() =~= seq![]);
        assert(r.as_map() =~= Map::<Seq<char>, Seq<char>>::empty());
        r
    }

    fn find(&self, key: &str) -> (r: Option<usize>)
        ensures
            match r {
                Some(i) => i < self.entries@.len() && self.pairs()[i as int].0 == key@ && forall|j: int|
                    0 <= j < i ==> (#[trigger] self.pairs()[j]).0 != key@,
                None => forall|j: int| 0 <= j < self.pairs().len() ==> (#[trigger] self.pairs()[j]).0 != key@,
            },
    {
        let mut i: usize = 0;
        while i < self.entries.len()
            invariant
                i <= self.entries@.len(),
                forall|j: int| 0 <= j < i ==> (#[trigger] self.pairs()[j]).0 != key@,
            decreases self.entries.len() - i,
        {
            if str_eq(self.entries[i].0.as_str(), key) {
                return Some(i);
            }
            i = i + 1;
        }
        None
    }

    /// The value under a key.
    pub fn get(&self, key: &str) -> (r: Option<&String>)
        ensures
            match r {
                Some(v) => self.as_map().dom().contains(key@) && self.as_map()[key@] == v@,
                None => !self.as_map().dom().contains(key@),
            },
    {
        match self.find(key) {
            Some(i) => {
                proof {
                    lemma_lookup_first(self.pairs(), i as int);
                }
                Some(&self.entries[i].1)
            },
            None => {
                proof {
                    lemma_lookup_absent(self.pairs(), key@);
                }
                None
            },
        }
    }

    /// Puts a value under a key, replacing the one there; a new key comes
    /// after the others.
    pub fn insert(&mut self, key: String, value: String)
        ensures
            final(self).as_map() == old(self).as_map().insert(key@, value@),
            !old(self).as_map().dom().contains(key@) ==> final(self).pairs() == old(self).pairs().push((key@, value@)),
    {
        proof {
            use_type_invariant(&*self);
        }
        let ghost k = key@;
        let ghost v = value@;
        let ghost before = self.pairs();
        match self.find(key.as_str()) {
            Some(i) => {
                proof {
                    lemma_lookup_first(before, i as int);
                }
                let mut entries: Vec<(String, String)> = Vec::new();
                std::mem::swap(&mut entries, &mut self.entries);
                entries.set(i, (key, value));
                proof {
                    assert(pair_views(entries@) =~= before.update(i as int, (k, v)));
                    assert(keys_distinct(pair_views(entries@))) by {
                        assert forall|a: int, b: int| 0 <= a < b < pair_views(entries@).len() implies (
                        #[trigger] pair_views(entries@)[a]).0 != (#[trigger] pair_views(entries@)[b]).0 by {
                            assert(before[a].0 != before[b].0);
                        }
                    }
                }
                self.entries = entries;
                proof {
                    assert(self.pairs() =~= before.update(i as int, (k, v)));
                    assert forall|k2: Seq<char>| #![auto]
                        lookup(self.pairs(), k2) == (if k2 == k {
                            Some(v)
                        } else {
                            lookup(before, k2)
                        }) by {
                        lemma_lookup_update(before, i as int, k, v, k2);
                    }
                }
            },
            None => {
                let mut entries: Vec<(String, String)> = Vec::new();
                std::mem::swap(&mut entries, &mut self.entries);
                entries.push((key, value));
                proof {
                    assert(pair_views(entries@) =~= before.push((k, v)));
                    assert(keys_distinct(pair_views(entries@))) by {
                        assert forall|a: int, b: int| 0 <= a < b < pair_views(entries@).len() implies (
                        #[trigger] pair_views(entries@)[a]).0 != (#[trigger] pair_views(entries@)[b]).0 by {
                            if b < before.len() {
                                assert(before[a].0 != before[b].0);
                            } else {
                                assert(before[a].0 != k);
                            }
                        }
                    }
                }
                self.entries = entries;
                proof {
                    assert(self.pairs() =~= before.push((k, v)));
                    lemma_lookup_absent(before, k);
                    assert forall|k2: Seq<char>| #![auto]
                        lookup(self.pairs(), k2) == (if k2 == k {
                            Some(v)
                        } else {
                            lookup(before, k2)
                        }) by {
                        lemma_lookup_push(before, k, v, k2);
                    }
                }
            },
        }
        assert(self.as_map() =~= old(self).as_map().insert(k, v));
    }

    /// A copy with the same entries.
    pub fn clone_map(&self) -> (r: StringMap)
        ensures
            r.pairs() == self.pairs(),
    {
        proof {
            use_type_invariant(self);
        }
        let mut entries: Vec<(String, String)> = Vec::new();
        let mut i: usize = 0;
        while i < self.entries.len()
            invariant
                i <= self.entries@.len(),
                pair_views(entries@) == pair_views(self.entries@.take(i as int)),
            decreases self.entries.len() - i,
        {
            let k = copy_string(&self.entries[i].0);
            let v = copy_string(&self.entries[i].1);
            let ghost before = entries@;
            entries.push((k, v));
            proof {
                assert(self.entries@.take(i + 1) =~= self.entries@.take(i as int).push(self.entries@[i as int]));
                assert(pair_views(entries@) =~= pair_views(before).push((k@, v@)));
                assert(pair_views(self.entries@.take(i + 1)) =~= pair_views(self.entries@.take(i as int)).push(
                    (self.entries@[i as int].0@, self.entries@[i as int].1@),
                ));
            }
            i = i + 1;
        }
        assert(self.entries@.take(i as int) =~= self.entries@);
        assert(pair_views(entries@) == self.pairs());
        StringMap { entries }
    }

    /// The number of entries.
    pub fn len(&self) -> (r: usize)
        ensures
            r == self.pairs().len(),
    {
        self.entries.len()
    }

    /// The entry at a position, in insertion order.
    pub fn entry_at(&self, i: usize) -> (r: (&String, &String))
        requires
            i < self.pairs().len(),
        ensures
            (r.0@, r.1@) == self.pairs()[i as int],
    {
        (&self.entries[i].0, &self.entries[i].1)
    }
}

pub proof fn lemma_lookup_first<K, V>(s: Seq<(K, V)>, i: int)
    requires
        0 <= i < s.len(),
        forall|j: int| 0 <= j < i ==> (#[trigger] s[j]).0 != s[i].0,
    ensures
        lookup(s, s[i].0) == Some(s[i].1),
    decreases i,
{
    if i > 0 {
        assert forall|j: int| 0 <= j < i - 1 implies (#[trigger] s.drop_first()[j]).0 != s.drop_first()[i
            - 1].0 by {
            assert(s.drop_first()[j] == s[j + 1]);
        }
        lemma_lookup_first(s.drop_first(), i - 1);
    }
}

/// A mapping of a common function name to names on each platform.
#[derive(Debug, Clone)]
pub struct FunctionMapping {
    /// The common name.
    pub common_name: String,
    /// Platform name to function name.
    pub platform_mappings: StringMap,
    /// What the function does.
    pub description: Option<String>,
}

/// The configuration of one platform.
#[derive(Debug, Clone)]
pub struct PlatformConfig {
    pub target: CompilationTarget,
    pub description: Option<String>,
    pub supported_architectures: Vec<String>,
    pub default_extension: String,
    pub parameters: StringMap,
}

/// The configuration of one adapter.
#[derive(Debug, Clone)]
pub struct AdapterConfigEntry {
    pub name: String,
    /// `export` or `import`.
    pub adapter_type: String,
    pub compilation_target: CompilationTarget,
    pub enabled: bool,
    pub parameters: StringMap,
}

/// Global settings.
#[derive(Debug, Clone)]
pub struct GlobalConfig {
    pub default_output_dir: String,
    pub debug_mode: bool,
    pub parameters: StringMap,
}

impl Default for GlobalConfig {
    /// Output to `./target`, no debug mode, no parameters.
    fn default() -> (r: GlobalConfig)
        ensures
            r.default_output_dir@ == "./target"@,
            !r.debug_mode,
            r.parameters.as_map() == Map::<Seq<char>, Seq<char>>::empty(),
    {
        GlobalConfig {
            default_output_dir: owned("./target"),
            debug_mode: false,
            parameters: StringMap::new(),
        }
    }
}

/// The settings of the assembler.
#[derive(Debug, Clone)]
pub struct GaiaSettings {
    pub version: String,
    pub global: GlobalConfig,
    /// Platform configurations by target; the first entry for a target counts.
    pub platforms: Vec<(CompilationTarget, PlatformConfig)>,
    pub function_mappings: Vec<FunctionMapping>,
    pub adapters: Vec<AdapterConfigEntry>,
}

/// The settings together with the target being compiled for.
pub struct GaiaConfig {
    pub setting: GaiaSettings,
    pub target: CompilationTarget,
}

impl Default for GaiaConfig {
    /// The default settings, for an unknown target.
    fn default() -> (r: GaiaConfig)
        ensures
            default_settings(r.setting),
            r.target@ == (TargetView {
                build: crate::target::ArchitectureView::Unknown,
                host: AbiCompatible::Unknown,
                target: ApiCompatible::Unknown,
            }),
    {
        GaiaConfig {
            setting: GaiaSettings::default(),
            target: CompilationTarget {
                build: Architecture::Unknown,
                host: AbiCompatible::Unknown,
                target: ApiCompatible::Unknown,
            },
        }
    }
}

/// The platform entries of settings, keyed by target view.
pub open spec fn platform_pairs(v: Seq<(CompilationTarget, PlatformConfig)>) -> Seq<(TargetView, PlatformConfig)> {
    v.map_values(|p: (CompilationTarget, PlatformConfig)| (p.0@, p.1))
}

/// The platform configuration for a target.
pub open spec fn platform_of(s: GaiaSettings, t: TargetView) -> Option<PlatformConfig> {
    lookup(platform_pairs(s.platforms@), t)
}

/// A function mapping with its platform entries.
pub open spec fn mapping_is(
    m: FunctionMapping,
    common: Seq<char>,
    entries: Seq<(Seq<char>, Seq<char>)>,
    description: Seq<char>,
) -> bool {
    &&& m.common_name@ == common
    &&& m.platform_mappings.pairs() == entries
    &&& m.description matches Some(d) && d@ == description
}

/// A platform configuration with one supported architecture, extension
/// `.exe` and no parameters.
pub open spec fn platform_is(p: PlatformConfig, t: TargetView, description: Seq<char>, arch: Seq<char>) -> bool {
    &&& p.target@ == t
    &&& p.description matches Some(d) && d@ == description
    &&& p.supported_architectures@.len() == 1
    &&& p.supported_architectures@[0]@ == arch
    &&& p.default_extension@ == ".exe"@
    &&& p.parameters.as_map() == Map::<Seq<char>, Seq<char>>::empty()
}

/// The Windows x64 native target.
pub open spec fn x64_target_view() -> TargetView {
    TargetView {
        build: crate::target::ArchitectureView::X86_64,
        host: AbiCompatible::PE,
        target: ApiCompatible::MicrosoftVisualC,
    }
}

/// The .NET CLR v4 target.
pub open spec fn clr_target_view() -> TargetView {
    TargetView {
        build: crate::target::ArchitectureView::CLR,
        host: AbiCompatible::PE,
        target: ApiCompatible::ClrRuntime(4),
    }
}

/// The default settings: version 1.0.0, default global settings, the
/// Windows x64 and .NET CLR platforms, mappings for `__builtin_print`,
/// `malloc`, `free`, `__builtin_println` and `__builtin_read` on PE, IL, JVM
/// and WASI, and no adapters.
pub open spec fn default_settings(s: GaiaSettings) -> bool {
    &&& s.version@ == "1.0.0"@
    &&& s.global.default_output_dir@ == "./target"@
    &&& !s.global.debug_mode
    &&& s.global.parameters.as_map() == Map::<Seq<char>, Seq<char>>::empty()
    &&& s.platforms@.len() == 2
    &&& s.platforms@[0].0@ == x64_target_view()
    &&& platform_is(s.platforms@[0].1, x64_target_view(), "Windows x64 Native"@, "x86_64"@)
    &&& s.platforms@[1].0@ == clr_target_view()
    &&& platform_is(s.platforms@[1].1, clr_target_view(), ".NET CLR v4.0"@, "msil"@)
    &&& s.function_mappings@.len() == 5
    &&& mapping_is(
        s.function_mappings@[0],
        "__builtin_print"@,
        seq![
            ("PE"@, "printf"@),
            ("IL"@, "void [mscorlib]System.Console::WriteLine(string)"@),
            ("JVM"@, "java.lang.System.out.println"@),
            ("WASI"@, "wasi_print"@),
        ],
        "标准输出函数"@,
    )
    &&& mapping_is(
        s.function_mappings@[1],
        "malloc"@,
        seq![
            ("PE"@, "HeapAlloc"@),
            ("IL"@, "System.Runtime.InteropServices.Marshal.AllocHGlobal"@),
            ("JVM"@, "java.nio.ByteBuffer.allocateDirect"@),
            ("WASI"@, "malloc"@),
        ],
        "内存分配函数"@,
    )
    &&& mapping_is(
        s.function_mappings@[2],
        "free"@,
        seq![
            ("PE"@, "free"@),
            ("IL"@, "System.Runtime.InteropServices.Marshal.FreeHGlobal"@),
            ("JVM"@, "System.gc"@),
            ("WASI"@, "memory.shrink"@),
        ],
        "内存释放函数"@,
    )
    &&& mapping_is(
        s.function_mappings@[3],
        "__builtin_println"@,
        seq![
            ("PE"@, "puts"@),
            ("IL"@, "void [mscorlib]System.Console::WriteLine(string)"@),
            ("JVM"@, "java.lang.System.out.println"@),
            ("WASI"@, "wasi_println"@),
        ],
        "标准输出换行函数"@,
    )
    &&& mapping_is(
        s.function_mappings@[4],
        "__builtin_read"@,
        seq![
            ("PE"@, "gets_s"@),
            ("IL"@, "string [mscorlib]System.Console::ReadLine()"@),
            ("JVM"@, "java.util.Scanner.nextLine"@),
            ("WASI"@, "wasi_read"@),
        ],
        "标准输入函数"@,
    )
    &&& s.adapters@.len() == 0
}

fn string_map_of(a: &str, av: &str, b: &str, bv: &str, c: &str, cv: &str, d: &str, dv: &str) -> (r: StringMap)
    requires
        a@ != b@ && a@ != c@ && a@ != d@ && b@ != c@ && b@ != d@ && c@ != d@,
    ensures
        r.as_map() == map![a@ => av@, b@ => bv@, c@ => cv@, d@ => dv@],
        r.pairs() == seq![(a@, av@), (b@, bv@), (c@, cv@), (d@, dv@)],
{
    let mut m = StringMap::new();
    assert(m.pairs() =~= seq![]);
    m.insert(owned(a), owned(av));
    m.insert(owned(b), owned(bv));
    m.insert(owned(c), owned(cv));
    m.insert(owned(d), owned(dv));
    assert(m.as_map() =~= map![a@ => av@, b@ => bv@, c@ => cv@, d@ => dv@]);
    assert(m.pairs() =~= seq![(a@, av@), (b@, bv@), (c@, cv@), (d@, dv@)]);
    m
}

fn function_mapping_of(
    common: &str,
    entries: StringMap,
    description: &str,
) -> (r: FunctionMapping)
    ensures
        r.common_name@ == common@,
        r.platform_mappings.as_map() == entries.as_map(),
        r.platform_mappings.pairs() == entries.pairs(),
        r.description matches Some(d) && d@ == description@,
{
    FunctionMapping {
        common_name: owned(common),
        platform_mappings: entries,
        description: Some(owned(description)),
    }
}

fn platform_of_target(target: CompilationTarget, description: &str, arch: &str) -> (r: PlatformConfig)
    ensures
        platform_is(r, target@, description@, arch@),
{
    let mut archs: Vec<String> = Vec::new();
    archs.push(owned(arch));
    PlatformConfig {
        target,
        description: Some(owned(description)),
        supported_architectures: archs,
        default_extension: owned(".exe"),
        parameters: StringMap::new(),
    }
}

proof fn lemma_platform_names_distinct()
    ensures
        "PE"@ != "IL"@ && "PE"@ != "JVM"@ && "PE"@ != "WASI"@ && "IL"@ != "JVM"@ && "IL"@ != "WASI"@ && "JVM"@
            != "WASI"@,
{
    reveal_strlit("PE");
    reveal_strlit("IL");
    reveal_strlit("JVM");
    reveal_strlit("WASI");
    assert("PE"@[0] != "IL"@[0]);
    assert("PE"@.len() != "JVM"@.len());
    assert("PE"@.len() != "WASI"@.len());
    assert("IL"@.len() != "JVM"@.len());
    assert("IL"@.len() != "WASI"@.len());
    assert("JVM"@.len() != "WASI"@.len());
}

impl Default for GaiaSettings {
    /// The default settings (see `default_settings`).
    fn default() -> (r: GaiaSettings)
        ensures
            default_settings(r),
    {
        proof {
            lemma_platform_names_distinct();
        }
        let x64 = CompilationTarget {
            build: Architecture::X86_64,
            host: AbiCompatible::PE,
            target: ApiCompatible::MicrosoftVisualC,
        };
        let clr = CompilationTarget {
            build: Architecture::CLR,
            host: AbiCompatible::PE,
            target: ApiCompatible::ClrRuntime(4),
        };
        let mut platforms: Vec<(CompilationTarget, PlatformConfig)> = Vec::new();
        let x64_config = platform_of_target(copy_target(&x64), "Windows x64 Native", "x86_64");
        platforms.push((x64, x64_config));
        let clr_config = platform_of_target(copy_target(&clr), ".NET CLR v4.0", "msil");
        platforms.push((clr, clr_config));
        let mut mappings: Vec<FunctionMapping> = Vec::new();
        mappings.push(
            function_mapping_of(
                "__builtin_print",
                string_map_of(
                    "PE",
                    "printf",
                    "IL",
                    "void [mscorlib]System.Console::WriteLine(string)",
                    "JVM",
                    "java.lang.System.out.println",
                    "WASI",
                    "wasi_print",
                ),
                "标准输出函数",
            ),
        );
        mappings.push(
            function_mapping_of(
                "malloc",
                string_map_of(
                    "PE",
                    "HeapAlloc",
                    "IL",
                    "System.Runtime.InteropServices.Marshal.AllocHGlobal",
                    "JVM",
                    "java.nio.ByteBuffer.allocateDirect",
                    "WASI",
                    "malloc",
                ),
                "内存分配函数",
            ),
        );
        mappings.push(
            function_mapping_of(
                "free",
                string_map_of(
                    "PE",
                    "free",
                    "IL",
                    "System.Runtime.InteropServices.Marshal.FreeHGlobal",
                    "JVM",
                    "System.gc",
                    "WASI",
                    "memory.shrink",
                ),
                "内存释放函数",
            ),
        );
        mappings.push(
            function_mapping_of(
                "__builtin_println",
                string_map_of(
                    "PE",
                    "puts",
                    "IL",
                    "void [mscorlib]System.Console::WriteLine(string)",
                    "JVM",
                    "java.lang.System.out.println",
                    "WASI",
                    "wasi_println",
                ),
                "标准输出换行函数",
            ),
        );
        mappings.push(
            function_mapping_of(
                "__builtin_read",
                string_map_of(
                    "PE",
                    "gets_s",
                    "IL",
                    "string [mscorlib]System.Console::ReadLine()",
                    "JVM",
                    "java.util.Scanner.nextLine",
                    "WASI",
                    "wasi_read",
                ),
                "标准输入函数",
            ),
        );
        GaiaSettings {
            version: owned("1.0.0"),
            global: GlobalConfig::default(),
            platforms,
            function_mappings: mappings,
            adapters: Vec::new(),
        }
    }
}

/// The value a mapping list gives a function on a platform: the platform
/// entry of the first mapping with that common name.
pub open spec fn mapping_lookup(
    ms: Seq<FunctionMapping>,
    common: Seq<char>,
    platform: Seq<char>,
) -> Option<Seq<char>>
    decreases ms.len(),
{
    if ms.len() == 0 {
        None
    } else if ms[0].common_name@ == common {
        if ms[0].platform_mappings.as_map().dom().contains(platform) {
            Some(ms[0].platform_mappings.as_map()[platform])
        } else {
            None
        }
    } else {
        mapping_lookup(ms.drop_first(), common, platform)
    }
}

/// The first adapter configuration with a name.
pub open spec fn adapter_lookup(adapters: Seq<AdapterConfigEntry>, name: Seq<char>) -> Option<AdapterConfigEntry>
    decreases adapters.len(),
{
    if adapters.len() == 0 {
        None
    } else if adapters[0].name@ == name {
        Some(adapters[0])
    } else {
        adapter_lookup(adapters.drop_first(), name)
    }
}

fn platform_index(ps: &Vec<(CompilationTarget, PlatformConfig)>, target: &CompilationTarget) -> (r: Option<usize>)
    ensures
        match r {
            Some(i) => i < ps@.len() && platform_pairs(ps@)[i as int].0 == target@ && forall|j: int|
                0 <= j < i ==> (#[trigger] platform_pairs(ps@)[j]).0 != target@,
            None => forall|j: int|
                0 <= j < ps@.len() ==> (#[trigger] platform_pairs(ps@)[j]).0 != target@,
        },
{
    let mut i: usize = 0;
    while i < ps.len()
        invariant
            i <= ps@.len(),
            forall|j: int| 0 <= j < i ==> (#[trigger] platform_pairs(ps@)[j]).0 != target@,
        decreases ps.len() - i,
    {
        if same_target(&ps[i].0, target) {
            return Some(i);
        }
        i = i + 1;
    }
    None
}

/// Loads, keeps and updates the settings.
pub struct ConfigManager {
    config: GaiaSettings,
    config_path: Option<String>,
}

impl ConfigManager {
    /// The current settings.
    pub closed spec fn current(self) -> GaiaSettings {
        self.config
    }

    /// The path the settings were loaded from.
    pub closed spec fn path(self) -> Option<String> {
        self.config_path
    }

    /// A manager with the default settings and no path.
    pub fn new() -> (r: ConfigManager)
        ensures
            default_settings(r.current()),
            r.path() is None,
    {
        ConfigManager { config: GaiaSettings::default(), config_path: None }
    }

    /// Takes settings read from a file, and the file's path.
    pub fn apply_loaded(&mut self, settings: GaiaSettings, path: String)
        ensures
            final(self).current() == settings,
            final(self).path() == Some(path),
    {
        self.config = settings;
        self.config_path = Some(path);
    }

    /// The current settings.
    pub fn settings(&self) -> (r: &GaiaSettings)
        ensures
            *r == self.current(),
    {
        &self.config
    }

    /// The current settings.
    pub fn config(&self) -> (r: &GaiaSettings)
        ensures
            *r == self.current(),
    {
        &self.config
    }

    /// A global parameter.
    pub fn get_global_setting(&self, key: &str) -> (r: Option<&str>)
        ensures
            match r {
                Some(v) => self.current().global.parameters.as_map().dom().contains(key@)
                    && self.current().global.parameters.as_map()[key@] == v@,
                None => !self.current().global.parameters.as_map().dom().contains(key@),
            },
    {
        match self.config.global.parameters.get(key) {
            Some(v) => Some(v.as_str()),
            None => None,
        }
    }

    /// Sets a global parameter; nothing else changes.
    pub fn set_global_setting(&mut self, key: String, value: String)
        ensures
            final(self).current().global.parameters.as_map() == old(
                self,
            ).current().global.parameters.as_map().insert(key@, value@),
            final(self).current().version == old(self).current().version,
            final(self).current().platforms == old(self).current().platforms,
            final(self).current().function_mappings == old(self).current().function_mappings,
            final(self).current().adapters == old(self).current().adapters,
            final(self).path() == old(self).path(),
    {
        self.config.global.parameters.insert(key, value);
    }

    /// The configuration of a platform.
    pub fn get_platform_config(&self, target: &CompilationTarget) -> (r: Option<&PlatformConfig>)
        ensures
            match r {
                Some(p) => platform_of(self.current(), target@) == Some(*p),
                None => platform_of(self.current(), target@) is None,
            },
    {
        let ps = &self.config.platforms;
        let ghost pairs = platform_pairs(ps@);
        let mut i: usize = 0;
        while i < ps.len()
            invariant
                i <= ps@.len(),
                ps == &self.config.platforms,
                pairs == platform_pairs(ps@),
                forall|j: int| 0 <= j < i ==> (#[trigger] pairs[j]).0 != target@,
            decreases ps.len() - i,
        {
            if same_target(&ps[i].0, target) {
                proof {
                    lemma_lookup_first(pairs, i as int);
                }
                return Some(&ps[i].1);
            }
            i = i + 1;
        }
        proof {
            lemma_lookup_absent(pairs, target@);
        }
        None
    }

    /// Sets the configuration of a platform, replacing the one there.
    pub fn add_platform_config(&mut self, target: CompilationTarget, config: PlatformConfig)
        ensures
            forall|t: TargetView| #[trigger] platform_of(final(self).current(), t) == (if t == target@ {
                Some(config)
            } else {
                platform_of(old(self).current(), t)
            }),
            final(self).current().global == old(self).current().global,
            final(self).current().function_mappings == old(self).current().function_mappings,
            final(self).current().adapters == old(self).current().adapters,
    {
        let ghost k = target@;
        let ghost before = platform_pairs(self.config.platforms@);
        let found = platform_index(&self.config.platforms, &target);
        match found {
            Some(i) => {
                self.config.platforms.set(i, (target, config));
                proof {
                    assert(platform_pairs(self.config.platforms@) =~= before.update(i as int, (k, config)));
                    assert forall|t: TargetView| #![auto]
                        lookup(platform_pairs(self.config.platforms@), t) == (if t == k {
                            Some(config)
                        } else {
                            lookup(before, t)
                        }) by {
                        lemma_lookup_update(before, i as int, k, config, t);
                    }
                }
            },
            None => {
                self.config.platforms.push((target, config));
                proof {
                    assert(platform_pairs(self.config.platforms@) =~= before.push((k, config)));
                    lemma_lookup_absent(before, k);
                    assert forall|t: TargetView| #![auto]
                        lookup(platform_pairs(self.config.platforms@), t) == (if t == k {
                            Some(config)
                        } else {
                            lookup(before, t)
                        }) by {
                        lemma_lookup_push(before, k, config, t);
                    }
                }
            },
        }
    }

    /// Adds an adapter configuration at the end.
    pub fn add_adapter_config(&mut self, config: AdapterConfigEntry)
        ensures
            final(self).current().adapters@ == old(self).current().adapters@.push(config),
            final(self).current().global == old(self).current().global,
            final(self).current().platforms == old(self).current().platforms,
            final(self).current().function_mappings == old(self).current().function_mappings,
    {
        self.config.adapters.push(config);
    }

    /// The first adapter configuration with a name.
    pub fn get_adapter_config(&self, name: &str) -> (r: Option<&AdapterConfigEntry>)
        ensures
            match r {
                Some(a) => adapter_lookup(self.current().adapters@, name@) == Some(*a),
                None => adapter_lookup(self.current().adapters@, name@) is None,
            },
    {
        let list = &self.config.adapters;
        assert(list@.skip(0) =~= list@);
        let mut i: usize = 0;
        while i < list.len()
            invariant
                i <= list@.len(),
                list == &self.config.adapters,
                adapter_lookup(list@, name@) == adapter_lookup(list@.skip(i as int), name@),
            decreases list.len() - i,
        {
            proof {
                assert(list@.skip(i as int).drop_first() =~= list@.skip(i + 1));
                assert(list@.skip(i as int)[0] == list@[i as int]);
            }
            if str_eq(list[i].name.as_str(), name) {
                return Some(&list[i]);
            }
            i = i + 1;
        }
        None
    }

    /// Adds a function mapping at the end.
    pub fn add_function_mapping(&mut self, mapping: FunctionMapping)
        ensures
            final(self).current().function_mappings@ == old(self).current().function_mappings@.push(
                mapping,
            ),
            final(self).current().global == old(self).current().global,
            final(self).current().platforms == old(self).current().platforms,
            final(self).current().adapters == old(self).current().adapters,
    {
        self.config.function_mappings.push(mapping);
    }

    /// The name of a function on a platform, from the first mapping with
    /// that common name.
    pub fn get_function_mapping(&self, common_name: &str, platform: &str) -> (r: Option<&str>)
        ensures
            match r {
                Some(v) => mapping_lookup(self.current().function_mappings@, common_name@, platform@)
                    == Some(v@),
                None => mapping_lookup(self.current().function_mappings@, common_name@, platform@) is None,
            },
    {
        let list = &self.config.function_mappings;
        assert(list@.skip(0) =~= list@);
        let mut i: usize = 0;
        while i < list.len()
            invariant
                i <= list@.len(),
                list == &self.config.function_mappings,
                mapping_lookup(list@, common_name@, platform@) == mapping_lookup(
                    list@.skip(i as int),
                    common_name@,
                    platform@,
                ),
            decreases list.len() - i,
        {
            proof {
                assert(list@.skip(i as int).drop_first() =~= list@.skip(i + 1));
                assert(list@.skip(i as int)[0] == list@[i as int]);
            }
            if str_eq(list[i].common_name.as_str(), common_name) {
                return match list[i].platform_mappings.get(platform) {
                    Some(v) => Some(v.as_str()),
                    None => None,
                };
            }
            i = i + 1;
        }
        None
    }

    /// Validates the settings; every setting is accepted.
    pub fn validate(&self) -> (r: Result<(), crate::error::GaiaError>)
        ensures
            r is Ok,
    {
        Ok(())
    }

    /// The path the settings were loaded from.
    pub fn config_path(&self) -> (r: Option<&str>)
        ensures
            match r {
                Some(p) => self.path() matches Some(q) && q@ == p@,
                None => self.path() is None,
            },
    {
        match &self.config_path {
            Some(p) => Some(p.as_str()),
            None => None,
        }
    }
}

/// Reading a global parameter gives what was last set under its key, and
/// setting one key leaves the others as they were.
pub proof fn law_global_setting_read_after_write(
    before: ConfigManager,
    after: ConfigManager,
    key: Seq<char>,
    value: Seq<char>,
    other: Seq<char>,
)
    requires
        after.current().global.parameters.as_map() == before.current().global.parameters.as_map().insert(
            key,
            value,
        ),
        other != key,
    ensures
        after.current().global.parameters.as_map().dom().contains(key),
        after.current().global.parameters.as_map()[key] == value,
        after.current().global.parameters.as_map().dom().contains(other)
            == before.current().global.parameters.as_map().dom().contains(other),
        after.current().global.parameters.as_map()[other] == before.current().global.parameters.as_map()[other],
{
}

proof fn lemma_adapter_lookup_push(s: Seq<AdapterConfigEntry>, e: AdapterConfigEntry, n: Seq<char>)
    ensures
        adapter_lookup(s.push(e), n) == (match adapter_lookup(s, n) {
            Some(a) => Some(a),
            None => if e.name@ == n {
                Some(e)
            } else {
                None
            },
        }),
    decreases s.len(),
{
    if s.len() > 0 {
        assert(s.push(e).drop_first() =~= s.drop_first().push(e));
        assert(s.push(e)[0] == s[0]);
        lemma_adapter_lookup_push(s.drop_first(), e, n);
        assert(adapter_lookup(s.push(e), n) == if s[0].name@ == n {
            Some(s[0])
        } else {
            adapter_lookup(s.drop_first().push(e), n)
        });
        assert(adapter_lookup(s, n) == if s[0].name@ == n {
            Some(s[0])
        } else {
            adapter_lookup(s.drop_first(), n)
        });
    } else {
        assert(s.push(e).drop_first() =~= Seq::<AdapterConfigEntry>::empty());
        assert(s.push(e)[0] == e);
        assert(adapter_lookup(Seq::<AdapterConfigEntry>::empty(), n) is None);
        assert(adapter_lookup(s, n) is None);
        assert(adapter_lookup(s.push(e), n) == if e.name@ == n {
            Some(e)
        } else {
            None::<AdapterConfigEntry>
        });
    }
}

/// An adapter configuration added under a name that no earlier one has is
/// what reading that name gives; other names read as before.
pub proof fn law_adapter_read_after_add(
    before: ConfigManager,
    after: ConfigManager,
    entry: AdapterConfigEntry,
    other: Seq<char>,
)
    requires
        after.current().adapters@ == before.current().adapters@.push(entry),
        adapter_lookup(before.current().adapters@, entry.name@) is None,
        other != entry.name@,
    ensures
        adapter_lookup(after.current().adapters@, entry.name@) == Some(entry),
        adapter_lookup(after.current().adapters@, other) == adapter_lookup(before.current().adapters@, other),
{
    lemma_adapter_lookup_push(before.current().adapters@, entry, entry.name@);
    lemma_adapter_lookup_push(before.current().adapters@, entry, other);
}

/// Whether a mapping with a common name is among mappings.
pub open spec fn has_common_name(ms: Seq<FunctionMapping>, common: Seq<char>) -> bool {
    exists|i: int| 0 <= i < ms.len() && (#[trigger] ms[i]).common_name@ == common
}

proof fn lemma_mapping_lookup_push(s: Seq<FunctionMapping>, m: FunctionMapping, c: Seq<char>, p: Seq<char>)
    requires
        !has_common_name(s, c),
    ensures
        mapping_lookup(s.push(m), c, p) == (if m.common_name@ == c && m.platform_mappings.as_map().dom().contains(p) {
            Some(m.platform_mappings.as_map()[p])
        } else {
            None
        }),
        mapping_lookup(s, c, p) is None,
    decreases s.len(),
{
    if s.len() > 0 {
        assert(s.push(m).drop_first() =~= s.drop_first().push(m));
        assert(s[0].common_name@ != c);
        assert(!has_common_name(s.drop_first(), c)) by {
            if has_common_name(s.drop_first(), c) {
                let i = choose|i: int| 0 <= i < s.drop_first().len() && (#[trigger] s.drop_first()[i]).common_name@ == c;
                assert(s[i + 1] == s.drop_first()[i]);
            }
        }
        assert(s.push(m)[0] == s[0]);
        lemma_mapping_lookup_push(s.drop_first(), m, c, p);
    } else {
        assert(s.push(m).drop_first() =~= Seq::<FunctionMapping>::empty());
        assert(s.push(m)[0] == m);
        assert(mapping_lookup(Seq::<FunctionMapping>::empty(), c, p) is None);
        assert(mapping_lookup(s, c, p) is None);
    }
}

/// A function mapping added for a common name that no earlier mapping has
/// gives that name's platform functions; the lookup of a common name that
/// was already there is unchanged.
pub proof fn law_mapping_read_after_add(
    before: ConfigManager,
    after: ConfigManager,
    mapping: FunctionMapping,
    platform: Seq<char>,
    other: Seq<char>,
)
    requires
        after.current().function_mappings@ == before.current().function_mappings@.push(mapping),
        !has_common_name(before.current().function_mappings@, mapping.common_name@),
        has_common_name(before.current().function_mappings@, other),
    ensures
        mapping_lookup(after.current().function_mappings@, mapping.common_name@, platform) == (if mapping.platform_mappings.as_map().dom().contains(platform) {
            Some(mapping.platform_mappings.as_map()[platform])
        } else {
            None
        }),
        mapping_lookup(after.current().function_mappings@, other, platform) == mapping_lookup(
            before.current().function_mappings@,
            other,
            platform,
        ),
{
    lemma_mapping_lookup_push(before.current().function_mappings@, mapping, mapping.common_name@, platform);
    lemma_mapping_lookup_earlier(before.current().function_mappings@, mapping, other, platform);
}

proof fn lemma_mapping_lookup_earlier(s: Seq<FunctionMapping>, m: FunctionMapping, c: Seq<char>, p: Seq<char>)
    requires
        has_common_name(s, c),
    ensures
        mapping_lookup(s.push(m), c, p) == mapping_lookup(s, c, p),
    decreases s.len(),
{
    if s[0].common_name@ != c {
        assert(s.push(m).drop_first() =~= s.drop_first().push(m));
        assert(has_common_name(s.drop_first(), c)) by {
            let i = choose|i: int| 0 <= i < s.len() && (#[trigger] s[i]).common_name@ == c;
            assert(i != 0);
            assert(s.drop_first()[i - 1] == s[i]);
        }
        assert(s.push(m)[0] == s[0]);
        lemma_mapping_lookup_earlier(s.drop_first(), m, c, p);
    } else {
        assert(s.push(m)[0] == s[0]);
    }
}

} // verus!
