//! Mapping of common function names to platform functions, and the
//! descriptions of adapters.
use vstd::prelude::*;
use crate::config::{
    entries_map, lemma_lookup_absent, lemma_lookup_first, lemma_lookup_push,
    lemma_lookup_update, lookup, FunctionMapping, GaiaSettings, StringMap,
};
use crate::target::{
    copy_target, il_target, il_target_view, jvm_target, jvm_target_view, pe_target,
    pe_target_view, same_target, wasi_target, wasi_target_view, AbiCompatible, CompilationTarget,
    TargetView,
};
use crate::text::{chars_of, owned, str_eq, string_of_chars};

verus! {

/// The configuration an adapter runs with.
#[derive(Debug, Clone)]
pub struct AdapterConfig {
    pub name: String,
    pub compilation_target: CompilationTarget,
    pub parameters: StringMap,
    pub enabled: bool,
}

/// What an adapter is and what it supports.
#[derive(Debug, Clone)]
pub struct AdapterMetadata {
    pub name: String,
    pub version: String,
    pub compilation_target: CompilationTarget,
    pub description: String,
    pub supported_instructions: Vec<String>,
}

/// A table of function names: for each target, common name to platform name.
pub type MappingTable = Map<TargetView, Map<Seq<char>, Seq<char>>>;

/// The table with `source` mapped to `func` for target `t`.
pub open spec fn add_entry(tb: MappingTable, t: TargetView, source: Seq<char>, func: Seq<char>) -> MappingTable {
    let inner = if tb.dom().contains(t) {
        tb[t]
    } else {
        Map::empty()
    };
    tb.insert(t, inner.insert(source, func))
}

/// The name a table gives a function on a target.
pub open spec fn table_lookup(tb: MappingTable, t: TargetView, f: Seq<char>) -> Option<Seq<char>> {
    if tb.dom().contains(t) && tb[t].dom().contains(f) {
        Some(tb[t][f])
    } else {
        None
    }
}

/// Maps common function names to the names each platform uses.
#[derive(Debug)]
pub struct FunctionMapper {
    mappings: Vec<(CompilationTarget, StringMap)>,
}

pub open spec fn mapper_pairs(v: Seq<(CompilationTarget, StringMap)>) -> Seq<(TargetView, Map<Seq<char>, Seq<char>>)> {
    v.map_values(|p: (CompilationTarget, StringMap)| (p.0@, p.1.as_map()))
}

impl FunctionMapper {
    /// The mapping table.
    pub closed spec fn table(self) -> MappingTable {
        entries_map(mapper_pairs(self.mappings@))
    }

    /// A mapper with an empty table.
    pub fn empty() -> (r: FunctionMapper)
        ensures
            r.table() == Map::<TargetView, Map<Seq<char>, Seq<char>>>::empty(),
    {
        let r = FunctionMapper { mappings: Vec::new() };
        assert(mapper_pairs(r.mappings@) =~= seq![]);
        assert(r.table() =~= Map::<TargetView, Map<Seq<char>, Seq<char>>>::empty());
        r
    }

    fn index_of(&self, target: &CompilationTarget) -> (r: Option<usize>)
        ensures
            match r {
                Some(i) => i < self.mappings@.len() && mapper_pairs(self.mappings@)[i as int].0
                    == target@ && forall|j: int|
                    0 <= j < i ==> (#[trigger] mapper_pairs(self.mappings@)[j]).0 != target@,
                None => forall|j: int|
                    0 <= j < self.mappings@.len() ==> (#[trigger] mapper_pairs(
                        self.mappings@,
                    )[j]).0 != target@,
            },
    {
        let mut i: usize = 0;
        while i < self.mappings.len()
            invariant
                i <= self.mappings@.len(),
                forall|j: int| 0 <= j < i ==> (#[trigger] mapper_pairs(self.mappings@)[j]).0 != target@,
            decreases self.mappings.len() - i,
        {
            if same_target(&self.mappings[i].0, target) {
                return Some(i);
            }
            i = i + 1;
        }
        None
    }

    /// Maps `source_func` to `target_func` for a target; other entries stay.
    pub fn add_mapping(&mut self, target: &CompilationTarget, source_func: &str, target_func: &str)
        ensures
            final(self).table() == add_entry(old(self).table(), target@, source_func@, target_func@),
    {
        let ghost t = target@;
        let ghost before = mapper_pairs(self.mappings@);
        match self.index_of(target) {
            Some(i) => {
                let mut inner = self.mappings[i].1.clone_map();
                proof {
                    lemma_lookup_first(before, i as int);
                }
                inner.insert(owned(source_func), owned(target_func));
                let ghost m = inner.as_map();
                self.mappings.set(i, (copy_target(target), inner));
                proof {
                    assert(mapper_pairs(self.mappings@) =~= before.update(i as int, (t, m)));
                    assert forall|k: TargetView| #![auto]
                        lookup(mapper_pairs(self.mappings@), k) == (if k == t {
                            Some(m)
                        } else {
                            lookup(before, k)
                        }) by {
                        lemma_lookup_update(before, i as int, t, m, k);
                    }
                }
            },
            None => {
                let mut inner = StringMap::new();
                inner.insert(owned(source_func), owned(target_func));
                let ghost m = inner.as_map();
                self.mappings.push((copy_target(target), inner));
                proof {
                    assert(mapper_pairs(self.mappings@) =~= before.push((t, m)));
                    lemma_lookup_absent(before, t);
                    assert forall|k: TargetView| #![auto]
                        lookup(mapper_pairs(self.mappings@), k) == (if k == t {
                            Some(m)
                        } else {
                            lookup(before, k)
                        }) by {
                        lemma_lookup_push(before, t, m, k);
                    }
                }
            },
        }
        assert(self.table() =~= add_entry(old(self).table(), t, source_func@, target_func@));
    }

    /// The name a target uses for a function, if one is mapped.
    pub fn map_function(&self, target: &CompilationTarget, function_name: &str) -> (r: Option<&str>)
        ensures
            match r {
                Some(v) => table_lookup(self.table(), target@, function_name@) == Some(v@),
                None => table_lookup(self.table(), target@, function_name@) is None,
            },
    {
        match self.index_of(target) {
            Some(i) => {
                proof {
                    lemma_lookup_first(mapper_pairs(self.mappings@), i as int);
                }
                match self.mappings[i].1.get(function_name) {
                    Some(v) => Some(v.as_str()),
                    None => None,
                }
            },
            None => {
                proof {
                    lemma_lookup_absent(mapper_pairs(self.mappings@), target@);
                }
                None
            },
        }
    }
}

/// Mapping a function and then looking it up on the same target gives the
/// name just mapped; lookups of other functions or targets are unchanged.
pub proof fn law_mapping_read_after_write(
    tb: MappingTable,
    t: TargetView,
    source: Seq<char>,
    func: Seq<char>,
    t2: TargetView,
    f2: Seq<char>,
)
    ensures
        table_lookup(add_entry(tb, t, source, func), t, source) == Some(func),
        (t2 != t || f2 != source) ==> table_lookup(add_entry(tb, t, source, func), t2, f2)
            == table_lookup(tb, t2, f2),
{
}

/// The built-in table: console, memory and print functions on IL, JVM, PE
/// and WASI, entered in this order.
pub open spec fn default_table() -> MappingTable {
    let t1 = add_entry(Map::<TargetView, Map<Seq<char>, Seq<char>>>::empty(), il_target_view(), "console.log"@, "void [mscorlib]System.Console::WriteLine(string)"@);
    let t2 = add_entry(t1, il_target_view(), "console.write"@, "void [mscorlib]System.Console::WriteLine(string)"@);
    let t3 = add_entry(t2, il_target_view(), "conosole.read"@, "string [mscorlib]System.Console::ReadLine()"@);
    let t4 = add_entry(t3, il_target_view(), "malloc"@, "System.Runtime.InteropServices.Marshal.AllocHGlobal"@);
    let t5 = add_entry(t4, il_target_view(), "free"@, "System.Runtime.InteropServices.Marshal.FreeHGlobal"@);
    let t6 = add_entry(t5, il_target_view(), "print"@, "void [mscorlib]System.Console::WriteLine(string)"@);
    let t7 = add_entry(t6, il_target_view(), "println"@, "void [mscorlib]System.Console::WriteLine(string)"@);
    let t8 = add_entry(t7, jvm_target_view(), "console.log"@, "java.lang.System.out.println"@);
    let t9 = add_entry(t8, jvm_target_view(), "console.write"@, "java.lang.System.out.println"@);
    let t10 = add_entry(t9, jvm_target_view(), "console.read"@, "java.util.Scanner.nextLine"@);
    let t11 = add_entry(t10, jvm_target_view(), "malloc"@, "java.nio.ByteBuffer.allocateDirect"@);
    let t12 = add_entry(t11, jvm_target_view(), "free"@, "System.gc"@);
    let t13 = add_entry(t12, jvm_target_view(), "print"@, "java.lang.System.out.println"@);
    let t14 = add_entry(t13, jvm_target_view(), "println"@, "java.lang.System.out.println"@);
    let t15 = add_entry(t14, pe_target_view(), "console.log"@, "puts"@);
    let t16 = add_entry(t15, pe_target_view(), "console.write"@, "printf"@);
    let t17 = add_entry(t16, pe_target_view(), "console.read"@, "gets_s"@);
    let t18 = add_entry(t17, pe_target_view(), "malloc"@, "HeapAlloc"@);
    let t19 = add_entry(t18, pe_target_view(), "free"@, "HeapFree"@);
    let t20 = add_entry(t19, pe_target_view(), "print"@, "puts"@);
    let t21 = add_entry(t20, pe_target_view(), "println"@, "puts"@);
    let t22 = add_entry(t21, wasi_target_view(), "console.log"@, "wasi_println"@);
    let t23 = add_entry(t22, wasi_target_view(), "console.write"@, "wasi_print"@);
    let t24 = add_entry(t23, wasi_target_view(), "console.read"@, "wasi_read"@);
    let t25 = add_entry(t24, wasi_target_view(), "malloc"@, "malloc"@);
    let t26 = add_entry(t25, wasi_target_view(), "free"@, "free"@);
    let t27 = add_entry(t26, wasi_target_view(), "print"@, "wasi_println"@);
    let t28 = add_entry(t27, wasi_target_view(), "println"@, "wasi_println"@);
    t28
}

/// ASCII upper case of a character.
pub open spec fn upper(c: char) -> char {
    if 'a' <= c <= 'z' {
        ((c as int) - 32) as char
    } else {
        c
    }
}

/// ASCII upper case of a text.
pub open spec fn ascii_upper(s: Seq<char>) -> Seq<char> {
    s.map_values(|c: char| upper(c))
}

fn to_ascii_upper(s: &str) -> (r: String)
    ensures
        r@ == ascii_upper(s@),
{
    let v = chars_of(s);
    let mut out: Vec<char> = Vec::new();
    let mut i: usize = 0;
    while i < v.len()
        invariant
            i <= v@.len(),
            v@ == s@,
            out@ == ascii_upper(v@.take(i as int)),
        decreases v.len() - i,
    {
        let c = v[i];
        let u = if c >= 'a' && c <= 'z' {
            ((c as u32 - 32) as u8) as char
        } else {
            c
        };
        out.push(u);
        i = i + 1;
        assert(out@ =~= ascii_upper(v@.take(i as int)));
    }
    assert(v@.take(i as int) =~= v@);
    string_of_chars(&out)
}

/// The target a platform name (in upper case) stands for.
pub open spec fn platform_target(name: Seq<char>) -> Option<TargetView> {
    if name == "IL"@ {
        Some(il_target_view())
    } else if name == "JVM"@ {
        Some(jvm_target_view())
    } else if name == "PE"@ {
        Some(pe_target_view())
    } else if name == "WASI"@ {
        Some(wasi_target_view())
    } else {
        None
    }
}

/// The table after one configured entry: the common name is mapped on the
/// named platform; `__builtin_print` also maps `print` (except on IL),
/// `console.log` and `console.write`. Unknown platforms are skipped.
pub open spec fn apply_entry(tb: MappingTable, common: Seq<char>, platform: Seq<char>, func: Seq<char>) -> MappingTable {
    match platform_target(ascii_upper(platform)) {
        None => tb,
        Some(t) => {
            let tb1 = add_entry(tb, t, common, func);
            if common == "__builtin_print"@ {
                let tb2 = if t.host != AbiCompatible::MicrosoftIntermediateLanguage {
                    add_entry(tb1, t, "print"@, func)
                } else {
                    tb1
                };
                add_entry(add_entry(tb2, t, "console.log"@, func), t, "console.write"@, func)
            } else {
                tb1
            }
        },
    }
}

/// The table after the entries of one mapping, in order.
pub open spec fn apply_entries(
    tb: MappingTable,
    common: Seq<char>,
    entries: Seq<(Seq<char>, Seq<char>)>,
) -> MappingTable
    decreases entries.len(),
{
    if entries.len() == 0 {
        tb
    } else {
        let prev = apply_entries(tb, common, entries.drop_last());
        apply_entry(prev, common, entries.last().0, entries.last().1)
    }
}

/// The table after the configured mappings, in order.
pub open spec fn apply_mappings(tb: MappingTable, ms: Seq<FunctionMapping>) -> MappingTable
    decreases ms.len(),
{
    if ms.len() == 0 {
        tb
    } else {
        apply_entries(
            apply_mappings(tb, ms.drop_last()),
            ms.last().common_name@,
            ms.last().platform_mappings.pairs(),
        )
    }
}

/// A mapping as its common name and its (platform, function) entries.
pub open spec fn mapping_views(ms: Seq<FunctionMapping>) -> Seq<(Seq<char>, Seq<(Seq<char>, Seq<char>)>)> {
    ms.map_values(|m: FunctionMapping| (m.common_name@, m.platform_mappings.pairs()))
}

/// The table after mappings given as views, in order.
pub open spec fn apply_mapping_views(tb: MappingTable, vs: Seq<(Seq<char>, Seq<(Seq<char>, Seq<char>)>)>) -> MappingTable
    decreases vs.len(),
{
    if vs.len() == 0 {
        tb
    } else {
        apply_entries(apply_mapping_views(tb, vs.drop_last()), vs.last().0, vs.last().1)
    }
}

/// The mappings of the default settings.
pub open spec fn default_mapping_views() -> Seq<(Seq<char>, Seq<(Seq<char>, Seq<char>)>)> {
    seq![
        (
            "__builtin_print"@,
            seq![
                ("PE"@, "printf"@),
                ("IL"@, "void [mscorlib]System.Console::WriteLine(string)"@),
                ("JVM"@, "java.lang.System.out.println"@),
                ("WASI"@, "wasi_print"@),
            ],
        ),
        (
            "malloc"@,
            seq![
                ("PE"@, "HeapAlloc"@),
                ("IL"@, "System.Runtime.InteropServices.Marshal.AllocHGlobal"@),
                ("JVM"@, "java.nio.ByteBuffer.allocateDirect"@),
                ("WASI"@, "malloc"@),
            ],
        ),
        (
            "free"@,
            seq![
                ("PE"@, "free"@),
                ("IL"@, "System.Runtime.InteropServices.Marshal.FreeHGlobal"@),
                ("JVM"@, "System.gc"@),
                ("WASI"@, "memory.shrink"@),
            ],
        ),
        (
            "__builtin_println"@,
            seq![
                ("PE"@, "puts"@),
                ("IL"@, "void [mscorlib]System.Console::WriteLine(string)"@),
                ("JVM"@, "java.lang.System.out.println"@),
                ("WASI"@, "wasi_println"@),
            ],
        ),
        (
            "__builtin_read"@,
            seq![
                ("PE"@, "gets_s"@),
                ("IL"@, "string [mscorlib]System.Console::ReadLine()"@),
                ("JVM"@, "java.util.Scanner.nextLine"@),
                ("WASI"@, "wasi_read"@),
            ],
        ),
    ]
}

/// The default settings give the default mapper's table.
pub proof fn lemma_default_table(s: GaiaSettings)
    requires
        crate::config::default_settings(s),
    ensures
        apply_mappings(default_table(), s.function_mappings@) == default_mapper_table(),
{
    lemma_default_mappings(s);
    lemma_apply_mapping_views(default_table(), s.function_mappings@);
}

/// The default settings have the default mappings.
pub proof fn lemma_default_mappings(s: GaiaSettings)
    requires
        crate::config::default_settings(s),
    ensures
        mapping_views(s.function_mappings@) == default_mapping_views(),
{
    assert(mapping_views(s.function_mappings@) =~= default_mapping_views());
}

proof fn lemma_apply_mapping_views(tb: MappingTable, ms: Seq<FunctionMapping>)
    ensures
        apply_mappings(tb, ms) == apply_mapping_views(tb, mapping_views(ms)),
    decreases ms.len(),
{
    if ms.len() > 0 {
        lemma_apply_mapping_views(tb, ms.drop_last());
        assert(mapping_views(ms).drop_last() =~= mapping_views(ms.drop_last()));
    }
}

/// The table of the default mapper: the built-in table, then the mappings
/// of the default settings.
pub open spec fn default_mapper_table() -> MappingTable {
    apply_mapping_views(default_table(), default_mapping_views())
}

impl FunctionMapper {
    fn target_for(name: &str) -> (r: Option<CompilationTarget>)
        ensures
            match r {
                Some(t) => platform_target(name@) == Some(t@),
                None => platform_target(name@) is None,
            },
    {
        if str_eq(name, "IL") {
            Some(il_target())
        } else if str_eq(name, "JVM") {
            Some(jvm_target())
        } else if str_eq(name, "PE") {
            Some(pe_target())
        } else if str_eq(name, "WASI") {
            Some(wasi_target())
        } else {
            None
        }
    }

    /// A mapper with the built-in table, overridden by the mappings of the
    /// settings (see `apply_mappings`).
    pub fn from_settings(settings: &GaiaSettings) -> (r: FunctionMapper)
        ensures
            r.table() == apply_mappings(default_table(), settings.function_mappings@),
    {
        let mut mapper = FunctionMapper::empty();
        let il = il_target();
        let jvm = jvm_target();
        let pe = pe_target();
        let wasi = wasi_target();
        mapper.add_mapping(&il, "console.log", "void [mscorlib]System.Console::WriteLine(string)");
        mapper.add_mapping(&il, "console.write", "void [mscorlib]System.Console::WriteLine(string)");
        mapper.add_mapping(&il, "conosole.read", "string [mscorlib]System.Console::ReadLine()");
        mapper.add_mapping(&il, "malloc", "System.Runtime.InteropServices.Marshal.AllocHGlobal");
        mapper.add_mapping(&il, "free", "System.Runtime.InteropServices.Marshal.FreeHGlobal");
        mapper.add_mapping(&il, "print", "void [mscorlib]System.Console::WriteLine(string)");
        mapper.add_mapping(&il, "println", "void [mscorlib]System.Console::WriteLine(string)");
        mapper.add_mapping(&jvm, "console.log", "java.lang.System.out.println");
        mapper.add_mapping(&jvm, "console.write", "java.lang.System.out.println");
        mapper.add_mapping(&jvm, "console.read", "java.util.Scanner.nextLine");
        mapper.add_mapping(&jvm, "malloc", "java.nio.ByteBuffer.allocateDirect");
        mapper.add_mapping(&jvm, "free", "System.gc");
        mapper.add_mapping(&jvm, "print", "java.lang.System.out.println");
        mapper.add_mapping(&jvm, "println", "java.lang.System.out.println");
        mapper.add_mapping(&pe, "console.log", "puts");
        mapper.add_mapping(&pe, "console.write", "printf");
        mapper.add_mapping(&pe, "console.read", "gets_s");
        mapper.add_mapping(&pe, "malloc", "HeapAlloc");
        mapper.add_mapping(&pe, "free", "HeapFree");
        mapper.add_mapping(&pe, "print", "puts");
        mapper.add_mapping(&pe, "println", "puts");
        mapper.add_mapping(&wasi, "console.log", "wasi_println");
        mapper.add_mapping(&wasi, "console.write", "wasi_print");
        mapper.add_mapping(&wasi, "console.read", "wasi_read");
        mapper.add_mapping(&wasi, "malloc", "malloc");
        mapper.add_mapping(&wasi, "free", "free");
        mapper.add_mapping(&wasi, "print", "wasi_println");
        mapper.add_mapping(&wasi, "println", "wasi_println");
        let ms = &settings.function_mappings;
        let mut i: usize = 0;
        while i < ms.len()
            invariant
                i <= ms@.len(),
                ms == &settings.function_mappings,
                mapper.table() == apply_mappings(default_table(), ms@.take(i as int)),
            decreases ms.len() - i,
        {
            let fm = &ms[i];
            proof {
                assert(ms@.take(i + 1).drop_last() =~= ms@.take(i as int));
            }
            let ghost base = mapper.table();
            let n = fm.platform_mappings.len();
            let mut j: usize = 0;
            while j < n
                invariant
                    j <= n == fm.platform_mappings.pairs().len(),
                    mapper.table() == apply_entries(base, fm.common_name@, fm.platform_mappings.pairs().take(j as int)),
                decreases n - j,
            {
                let (platform_name, target_func) = fm.platform_mappings.entry_at(j);
                proof {
                    assert(fm.platform_mappings.pairs().take(j + 1).drop_last() =~= fm.platform_mappings.pairs().take(j as int));
                }
                let key = to_ascii_upper(platform_name.as_str());
                match FunctionMapper::target_for(key.as_str()) {
                    Some(platform_target) => {
                        mapper.add_mapping(&platform_target, fm.common_name.as_str(), target_func.as_str());
                        if str_eq(fm.common_name.as_str(), "__builtin_print") {
                            let is_il = platform_target.host == AbiCompatible::MicrosoftIntermediateLanguage;
                            if !is_il {
                                mapper.add_mapping(&platform_target, "print", target_func.as_str());
                            }
                            mapper.add_mapping(&platform_target, "console.log", target_func.as_str());
                            mapper.add_mapping(&platform_target, "console.write", target_func.as_str());
                        }
                    },
                    None => {},
                }
                j = j + 1;
            }
            assert(fm.platform_mappings.pairs().take(n as int) =~= fm.platform_mappings.pairs());
            i = i + 1;
        }
        assert(ms@.take(i as int) =~= ms@);
        mapper
    }

    /// A mapper from the settings; it always succeeds.
    pub fn from_config(config: &GaiaSettings) -> (r: Result<FunctionMapper, crate::error::GaiaError>)
        ensures
            r matches Ok(m) && m.table() == apply_mappings(default_table(), config.function_mappings@),
    {
        Ok(FunctionMapper::from_settings(config))
    }

    /// A mapper with the built-in table and the mappings of the default
    /// settings.
    pub fn new() -> (r: FunctionMapper)
        ensures
            r.table() == default_mapper_table(),
    {
        let settings = GaiaSettings::default();
        let r = FunctionMapper::from_settings(&settings);
        proof {
            lemma_default_mappings(settings);
            lemma_apply_mapping_views(default_table(), settings.function_mappings@);
        }
        r
    }
}

} // verus!
