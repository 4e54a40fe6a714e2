//! Targets as text, the key under which a platform's settings are stored:
//! the architecture, the binary interface and the API, separated by `-`.
//! A runtime API carries its version after its name (`ClrRuntime4`).
use vstd::prelude::*;
use crate::target::{AbiCompatible, ApiCompatible, Architecture, ArchitectureView, CompilationTarget, TargetView};
use crate::text::{
    chars_of, decimal_text, format_u64, lemma_parse_decimal_text, owned, parse_u32, parse_u32_spec, push_char,
    push_str, str_eq, string_of_chars,
};

verus! {

/// The name of an architecture; another architecture is written as its name.
pub open spec fn arch_name(a: ArchitectureView) -> Seq<char> {
    match a {
        ArchitectureView::Unknown => "Unknown"@,
        ArchitectureView::X86_64 => "X86_64"@,
        ArchitectureView::CLR => "CLR"@,
        ArchitectureView::JVM => "JVM"@,
        ArchitectureView::WASM32 => "WASM32"@,
        ArchitectureView::WASM64 => "WASM64"@,
        ArchitectureView::RISCV64 => "RISCV64"@,
        ArchitectureView::NvSass => "NvSass"@,
        ArchitectureView::Other(s) => s,
    }
}

/// The name of a binary interface.
pub open spec fn abi_name(h: AbiCompatible) -> Seq<char> {
    match h {
        AbiCompatible::Unknown => "Unknown"@,
        AbiCompatible::ELF => "ELF"@,
        AbiCompatible::PE => "PE"@,
        AbiCompatible::MachO => "MachO"@,
        AbiCompatible::GCN => "GCN"@,
        AbiCompatible::PTX => "PTX"@,
        AbiCompatible::JavaAssembly => "JavaAssembly"@,
        AbiCompatible::MicrosoftIntermediateLanguage => "MicrosoftIntermediateLanguage"@,
        AbiCompatible::WebAssemblyTextFormat => "WebAssemblyTextFormat"@,
        AbiCompatible::LuaBytecode => "LuaBytecode"@,
        AbiCompatible::PythonBytecode => "PythonBytecode"@,
        AbiCompatible::LlvmIr => "LlvmIr"@,
        AbiCompatible::MSL => "MSL"@,
        AbiCompatible::SPIRV => "SPIRV"@,
    }
}

/// The name of an API; a runtime's version follows its name in decimal.
pub open spec fn api_name(t: ApiCompatible) -> Seq<char> {
    match t {
        ApiCompatible::Unknown => "Unknown"@,
        ApiCompatible::Linux => "Linux"@,
        ApiCompatible::Apple => "Apple"@,
        ApiCompatible::Metal => "Metal"@,
        ApiCompatible::MicrosoftVisualC => "MicrosoftVisualC"@,
        ApiCompatible::WASI => "WASI"@,
        ApiCompatible::ClrRuntime(v) => "ClrRuntime"@ + decimal_text(v as int),
        ApiCompatible::JvmRuntime(v) => "JvmRuntime"@ + decimal_text(v as int),
    }
}

/// The key of a target.
pub open spec fn target_key(t: TargetView) -> Seq<char> {
    arch_name(t.build) + seq!['-'] + abi_name(t.host) + seq!['-'] + api_name(t.target)
}

/// The architecture a name stands for; a name of none of them stands for
/// another architecture of that name.
pub open spec fn parse_arch(s: Seq<char>) -> ArchitectureView {
    if s == "Unknown"@ {
        ArchitectureView::Unknown
    } else if s == "X86_64"@ {
        ArchitectureView::X86_64
    } else if s == "CLR"@ {
        ArchitectureView::CLR
    } else if s == "JVM"@ {
        ArchitectureView::JVM
    } else if s == "WASM32"@ {
        ArchitectureView::WASM32
    } else if s == "WASM64"@ {
        ArchitectureView::WASM64
    } else if s == "RISCV64"@ {
        ArchitectureView::RISCV64
    } else if s == "NvSass"@ {
        ArchitectureView::NvSass
    } else {
        ArchitectureView::Other(s)
    }
}

/// The binary interface a name stands for.
pub open spec fn parse_abi(s: Seq<char>) -> Option<AbiCompatible> {
    if s == "Unknown"@ {
        Some(AbiCompatible::Unknown)
    } else if s == "ELF"@ {
        Some(AbiCompatible::ELF)
    } else if s == "PE"@ {
        Some(AbiCompatible::PE)
    } else if s == "MachO"@ {
        Some(AbiCompatible::MachO)
    } else if s == "GCN"@ {
        Some(AbiCompatible::GCN)
    } else if s == "PTX"@ {
        Some(AbiCompatible::PTX)
    } else if s == "JavaAssembly"@ {
        Some(AbiCompatible::JavaAssembly)
    } else if s == "MicrosoftIntermediateLanguage"@ {
        Some(AbiCompatible::MicrosoftIntermediateLanguage)
    } else if s == "WebAssemblyTextFormat"@ {
        Some(AbiCompatible::WebAssemblyTextFormat)
    } else if s == "LuaBytecode"@ {
        Some(AbiCompatible::LuaBytecode)
    } else if s == "PythonBytecode"@ {
        Some(AbiCompatible::PythonBytecode)
    } else if s == "LlvmIr"@ {
        Some(AbiCompatible::LlvmIr)
    } else if s == "MSL"@ {
        Some(AbiCompatible::MSL)
    } else if s == "SPIRV"@ {
        Some(AbiCompatible::SPIRV)
    } else {
        None
    }
}

/// Whether `s` starts with `p`.
pub open spec fn has_prefix(s: Seq<char>, p: Seq<char>) -> bool {
    s.len() >= p.len() && s.take(p.len() as int) == p
}

/// The API a name stands for; a runtime name is followed by its version.
pub open spec fn parse_api(s: Seq<char>) -> Option<ApiCompatible> {
    if s == "Unknown"@ {
        Some(ApiCompatible::Unknown)
    } else if s == "Linux"@ {
        Some(ApiCompatible::Linux)
    } else if s == "Apple"@ {
        Some(ApiCompatible::Apple)
    } else if s == "Metal"@ {
        Some(ApiCompatible::Metal)
    } else if s == "MicrosoftVisualC"@ {
        Some(ApiCompatible::MicrosoftVisualC)
    } else if s == "WASI"@ {
        Some(ApiCompatible::WASI)
    } else if has_prefix(s, "ClrRuntime"@) {
        match parse_u32_spec(s.skip("ClrRuntime"@.len() as int)) {
            Some(v) => Some(ApiCompatible::ClrRuntime(v)),
            None => None,
        }
    } else if has_prefix(s, "JvmRuntime"@) {
        match parse_u32_spec(s.skip("JvmRuntime"@.len() as int)) {
            Some(v) => Some(ApiCompatible::JvmRuntime(v)),
            None => None,
        }
    } else {
        None
    }
}

/// The parts of text between dashes (one part when there is none).
pub open spec fn dash_parts(s: Seq<char>) -> Seq<Seq<char>>
    decreases s.len(),
{
    if s.len() == 0 {
        seq![seq![]]
    } else {
        let p = dash_parts(s.drop_last());
        if s.last() == '-' {
            p.push(seq![])
        } else {
            p.update(p.len() - 1, p.last().push(s.last()))
        }
    }
}

/// The target a key stands for: three parts between dashes naming an
/// architecture, a known binary interface and a known API.
pub open spec fn parse_target_key(s: Seq<char>) -> Option<TargetView> {
    let parts = dash_parts(s);
    if parts.len() != 3 {
        None
    } else {
        match (parse_abi(parts[1]), parse_api(parts[2])) {
            (Some(h), Some(t)) => Some(TargetView { build: parse_arch(parts[0]), host: h, target: t }),
            _ => None,
        }
    }
}

/// Whether the key of a target reads back as the target: another
/// architecture's name holds no dash and is not the name of a known one.
pub open spec fn keyable(t: TargetView) -> bool {
    match t.build {
        ArchitectureView::Other(s) => !s.contains('-') && parse_arch(s) == ArchitectureView::Other(s),
        _ => true,
    }
}

proof fn lemma_dash_parts_nonempty(s: Seq<char>)
    ensures
        dash_parts(s).len() >= 1,
    decreases s.len(),
{
    if s.len() > 0 {
        lemma_dash_parts_nonempty(s.drop_last());
    }
}

/// Text without a dash is one part.
proof fn lemma_dash_parts_single(s: Seq<char>)
    requires
        !s.contains('-'),
    ensures
        dash_parts(s) == seq![s],
    decreases s.len(),
{
    if s.len() > 0 {
        assert(!s.drop_last().contains('-')) by {
            if s.drop_last().contains('-') {
                let i = choose|i: int| 0 <= i < s.drop_last().len() && s.drop_last()[i] == '-';
                assert(s[i] == '-');
            }
        }
        lemma_dash_parts_single(s.drop_last());
        assert(s.last() != '-') by {
            assert(s[s.len() - 1] == s.last());
        }
        assert(s.drop_last().push(s.last()) =~= s);
    } else {
        assert(s =~= seq![]);
    }
}

/// The parts of two texts joined by a dash are the parts of each.
proof fn lemma_dash_parts_join(x: Seq<char>, y: Seq<char>)
    ensures
        dash_parts(x + seq!['-'] + y) == dash_parts(x) + dash_parts(y),
    decreases y.len(),
{
    lemma_dash_parts_nonempty(x);
    if y.len() == 0 {
        assert(x + seq!['-'] + y =~= x.push('-'));
        assert((x.push('-')).drop_last() =~= x);
        assert(dash_parts(x) + dash_parts(y) =~= dash_parts(x).push(seq![]));
    } else {
        let s = x + seq!['-'] + y;
        assert(s.drop_last() =~= x + seq!['-'] + y.drop_last());
        assert(s.last() == y.last());
        lemma_dash_parts_join(x, y.drop_last());
        lemma_dash_parts_nonempty(y.drop_last());
        let a = dash_parts(x);
        let b = dash_parts(y.drop_last());
        if y.last() == '-' {
            assert((a + b).push(seq![]) =~= a + b.push(seq![]));
        } else {
            assert((a + b).update((a + b).len() - 1, (a + b).last().push(y.last())) =~= a + b.update(
                b.len() - 1,
                b.last().push(y.last()),
            ));
        }
    }
}

/// A key reads back as its target.
pub proof fn lemma_target_key_round_trip(t: TargetView)
    requires
        keyable(t),
    ensures
        parse_target_key(target_key(t)) == Some(t),
{
    reveal_strlit("Unknown");
    reveal_strlit("X86_64");
    reveal_strlit("CLR");
    reveal_strlit("JVM");
    reveal_strlit("WASM32");
    reveal_strlit("WASM64");
    reveal_strlit("RISCV64");
    reveal_strlit("NvSass");
    reveal_strlit("ELF");
    reveal_strlit("PE");
    reveal_strlit("MachO");
    reveal_strlit("GCN");
    reveal_strlit("PTX");
    reveal_strlit("JavaAssembly");
    reveal_strlit("MicrosoftIntermediateLanguage");
    reveal_strlit("WebAssemblyTextFormat");
    reveal_strlit("LuaBytecode");
    reveal_strlit("PythonBytecode");
    reveal_strlit("LlvmIr");
    reveal_strlit("MSL");
    reveal_strlit("SPIRV");
    reveal_strlit("Linux");
    reveal_strlit("Apple");
    reveal_strlit("Metal");
    reveal_strlit("MicrosoftVisualC");
    reveal_strlit("WASI");
    reveal_strlit("ClrRuntime");
    reveal_strlit("JvmRuntime");
    let a = arch_name(t.build);
    let h = abi_name(t.host);
    let p = api_name(t.target);
    assert(!a.contains('-')) by {
        match t.build {
            ArchitectureView::Other(s) => {},
            _ => {
                if a.contains('-') {
                    let i = choose|i: int| 0 <= i < a.len() && a[i] == '-';
                    assert(a[i] == '-');
                }
            },
        }
    }
    assert(!h.contains('-')) by {
        if h.contains('-') {
            let i = choose|i: int| 0 <= i < h.len() && h[i] == '-';
            assert(h[i] == '-');
        }
    }
    assert(!p.contains('-')) by {
        if p.contains('-') {
            let i = choose|i: int| 0 <= i < p.len() && p[i] == '-';
            match t.target {
                ApiCompatible::ClrRuntime(v) => {
                    crate::text::lemma_decimal_digits(v as nat);
                    if i >= 10 {
                        assert(p[i] == decimal_text(v as int)[i - 10]);
                        assert(crate::text::is_digit_char(decimal_text(v as int)[i - 10]));
                    }
                },
                ApiCompatible::JvmRuntime(v) => {
                    crate::text::lemma_decimal_digits(v as nat);
                    if i >= 10 {
                        assert(p[i] == decimal_text(v as int)[i - 10]);
                        assert(crate::text::is_digit_char(decimal_text(v as int)[i - 10]));
                    }
                },
                _ => {
                    assert(p[i] == '-');
                },
            }
        }
    }
    lemma_dash_parts_single(a);
    lemma_dash_parts_single(h);
    lemma_dash_parts_single(p);
    lemma_dash_parts_join(a, h);
    lemma_dash_parts_join(a + seq!['-'] + h, p);
    assert(dash_parts(target_key(t)) =~= seq![a, h, p]);
    assert(parse_arch(a) == t.build) by {
        let names = seq!["Unknown"@, "X86_64"@, "CLR"@, "JVM"@, "WASM32"@, "WASM64"@, "RISCV64"@, "NvSass"@];
        assert(names[0][0] == 'U' && names[1][0] == 'X' && names[2][0] == 'C' && names[3][0] == 'J');
        assert(names[4][0] == 'W' && names[5][0] == 'W' && names[6][0] == 'R' && names[7][0] == 'N');
        assert(names[4][4] == '3' && names[5][4] == '6');
    }
    assert(parse_abi(h) == Some(t.host));
    match t.target {
        ApiCompatible::ClrRuntime(v) => {
            lemma_parse_decimal_text(v as int, 0, u32::MAX as int, false);
            assert(p.take(10) =~= "ClrRuntime"@);
            assert(p.skip(10) =~= decimal_text(v as int));
        },
        ApiCompatible::JvmRuntime(v) => {
            lemma_parse_decimal_text(v as int, 0, u32::MAX as int, false);
            assert(p.take(10) =~= "JvmRuntime"@);
            assert(p.skip(10) =~= decimal_text(v as int));
            assert(!has_prefix(p, "ClrRuntime"@)) by {
                assert(p[0] == 'J');
                assert("ClrRuntime"@[0] == 'C');
                assert(p.take(10)[0] == p[0]);
            }
        },
        _ => {},
    }
    assert(parse_api(p) == Some(t.target));
}

fn arch_text(a: &Architecture) -> (r: String)
    ensures
        r@ == arch_name(a@),
{
    match a {
        Architecture::Unknown => owned("Unknown"),
        Architecture::X86_64 => owned("X86_64"),
        Architecture::CLR => owned("CLR"),
        Architecture::JVM => owned("JVM"),
        Architecture::WASM32 => owned("WASM32"),
        Architecture::WASM64 => owned("WASM64"),
        Architecture::RISCV64 => owned("RISCV64"),
        Architecture::NvSass => owned("NvSass"),
        Architecture::Other(s) => s.clone(),
    }
}

pub(crate) fn abi_text(h: AbiCompatible) -> (r: &'static str)
    ensures
        r@ == abi_name(h),
{
    match h {
        AbiCompatible::Unknown => "Unknown",
        AbiCompatible::ELF => "ELF",
        AbiCompatible::PE => "PE",
        AbiCompatible::MachO => "MachO",
        AbiCompatible::GCN => "GCN",
        AbiCompatible::PTX => "PTX",
        AbiCompatible::JavaAssembly => "JavaAssembly",
        AbiCompatible::MicrosoftIntermediateLanguage => "MicrosoftIntermediateLanguage",
        AbiCompatible::WebAssemblyTextFormat => "WebAssemblyTextFormat",
        AbiCompatible::LuaBytecode => "LuaBytecode",
        AbiCompatible::PythonBytecode => "PythonBytecode",
        AbiCompatible::LlvmIr => "LlvmIr",
        AbiCompatible::MSL => "MSL",
        AbiCompatible::SPIRV => "SPIRV",
    }
}

fn api_text(t: ApiCompatible) -> (r: String)
    ensures
        r@ == api_name(t),
{
    match t {
        ApiCompatible::Unknown => owned("Unknown"),
        ApiCompatible::Linux => owned("Linux"),
        ApiCompatible::Apple => owned("Apple"),
        ApiCompatible::Metal => owned("Metal"),
        ApiCompatible::MicrosoftVisualC => owned("MicrosoftVisualC"),
        ApiCompatible::WASI => owned("WASI"),
        ApiCompatible::ClrRuntime(v) => {
            let mut s = owned("ClrRuntime");
            push_str(&mut s, format_u64(v as u64).as_str());
            s
        },
        ApiCompatible::JvmRuntime(v) => {
            let mut s = owned("JvmRuntime");
            push_str(&mut s, format_u64(v as u64).as_str());
            s
        },
    }
}

/// The key of a target (`target_key`).
pub fn target_to_key(t: &CompilationTarget) -> (r: String)
    ensures
        r@ == target_key(t@),
{
    let mut s = arch_text(&t.build);
    push_char(&mut s, '-');
    push_str(&mut s, abi_text(t.host));
    push_char(&mut s, '-');
    push_str(&mut s, api_text(t.target).as_str());
    s
}

/// The parts of text between dashes (`dash_parts`).
fn split_dashes(s: &str) -> (r: Vec<String>)
    ensures
        crate::text::string_views(r@) == dash_parts(s@),
{
    let cs = chars_of(s);
    let mut parts: Vec<String> = Vec::new();
    let mut cur: Vec<char> = Vec::new();
    let mut i: usize = 0;
    assert(cs@.take(0) =~= seq![]);
    while i < cs.len()
        invariant
            i <= cs@.len(),
            cs@ == s@,
            crate::text::string_views(parts@).push(cur@) == dash_parts(cs@.take(i as int)),
        decreases cs.len() - i,
    {
        let c = cs[i];
        let ghost before = crate::text::string_views(parts@);
        proof {
            assert(cs@.take(i + 1).drop_last() =~= cs@.take(i as int));
            assert(cs@.take(i + 1).last() == c);
        }
        let ghost old_cur = cur@;
        if c == '-' {
            parts.push(string_of_chars(&cur));
            cur = Vec::new();
            assert(crate::text::string_views(parts@) =~= before.push(old_cur));
            assert(crate::text::string_views(parts@).push(cur@) =~= before.push(old_cur).push(seq![]));
        } else {
            cur.push(c);
            assert(crate::text::string_views(parts@).push(cur@) =~= before.push(old_cur).update(
                before.len() as int,
                old_cur.push(c),
            ));
        }
        i = i + 1;
    }
    assert(cs@.take(i as int) =~= cs@);
    parts.push(string_of_chars(&cur));
    parts
}


/// The rest of `s` after the prefix `p`, if `s` starts with it.
fn strip_prefix(s: &str, p: &str) -> (r: Option<String>)
    ensures
        match r {
            Some(t) => has_prefix(s@, p@) && t@ == s@.skip(p@.len() as int),
            None => !has_prefix(s@, p@),
        },
{
    let cs = chars_of(s);
    let ps = chars_of(p);
    if cs.len() < ps.len() {
        return None;
    }
    let mut i: usize = 0;
    while i < ps.len()
        invariant
            i <= ps@.len() <= cs@.len(),
            cs@ == s@,
            ps@ == p@,
            forall|j: int| 0 <= j < i ==> cs@[j] == ps@[j],
        decreases ps.len() - i,
    {
        if cs[i] != ps[i] {
            assert(s@.take(p@.len() as int)[i as int] != p@[i as int]);
            return None;
        }
        i = i + 1;
    }
    assert(s@.take(p@.len() as int) =~= p@);
    let mut rest: Vec<char> = Vec::new();
    let mut k: usize = ps.len();
    while k < cs.len()
        invariant
            ps@.len() <= k <= cs@.len(),
            cs@ == s@,
            ps@ == p@,
            rest@ == s@.subrange(p@.len() as int, k as int),
        decreases cs.len() - k,
    {
        rest.push(cs[k]);
        k = k + 1;
        assert(rest@ =~= s@.subrange(p@.len() as int, k as int));
    }
    assert(s@.subrange(p@.len() as int, k as int) =~= s@.skip(p@.len() as int));
    Some(string_of_chars(&rest))
}

fn parse_arch_text(s: &str) -> (r: Architecture)
    ensures
        r@ == parse_arch(s@),
{
    if str_eq(s, "Unknown") {
        Architecture::Unknown
    } else if str_eq(s, "X86_64") {
        Architecture::X86_64
    } else if str_eq(s, "CLR") {
        Architecture::CLR
    } else if str_eq(s, "JVM") {
        Architecture::JVM
    } else if str_eq(s, "WASM32") {
        Architecture::WASM32
    } else if str_eq(s, "WASM64") {
        Architecture::WASM64
    } else if str_eq(s, "RISCV64") {
        Architecture::RISCV64
    } else if str_eq(s, "NvSass") {
        Architecture::NvSass
    } else {
        Architecture::Other(owned(s))
    }
}

fn parse_abi_text(s: &str) -> (r: Option<AbiCompatible>)
    ensures
        r == parse_abi(s@),
{
    if str_eq(s, "Unknown") {
        Some(AbiCompatible::Unknown)
    } else if str_eq(s, "ELF") {
        Some(AbiCompatible::ELF)
    } else if str_eq(s, "PE") {
        Some(AbiCompatible::PE)
    } else if str_eq(s, "MachO") {
        Some(AbiCompatible::MachO)
    } else if str_eq(s, "GCN") {
        Some(AbiCompatible::GCN)
    } else if str_eq(s, "PTX") {
        Some(AbiCompatible::PTX)
    } else if str_eq(s, "JavaAssembly") {
        Some(AbiCompatible::JavaAssembly)
    } else if str_eq(s, "MicrosoftIntermediateLanguage") {
        Some(AbiCompatible::MicrosoftIntermediateLanguage)
    } else if str_eq(s, "WebAssemblyTextFormat") {
        Some(AbiCompatible::WebAssemblyTextFormat)
    } else if str_eq(s, "LuaBytecode") {
        Some(AbiCompatible::LuaBytecode)
    } else if str_eq(s, "PythonBytecode") {
        Some(AbiCompatible::PythonBytecode)
    } else if str_eq(s, "LlvmIr") {
        Some(AbiCompatible::LlvmIr)
    } else if str_eq(s, "MSL") {
        Some(AbiCompatible::MSL)
    } else if str_eq(s, "SPIRV") {
        Some(AbiCompatible::SPIRV)
    } else {
        None
    }
}

fn parse_api_text(s: &str) -> (r: Option<ApiCompatible>)
    ensures
        r == parse_api(s@),
{
    if str_eq(s, "Unknown") {
        Some(ApiCompatible::Unknown)
    } else if str_eq(s, "Linux") {
        Some(ApiCompatible::Linux)
    } else if str_eq(s, "Apple") {
        Some(ApiCompatible::Apple)
    } else if str_eq(s, "Metal") {
        Some(ApiCompatible::Metal)
    } else if str_eq(s, "MicrosoftVisualC") {
        Some(ApiCompatible::MicrosoftVisualC)
    } else if str_eq(s, "WASI") {
        Some(ApiCompatible::WASI)
    } else {
        match strip_prefix(s, "ClrRuntime") {
            Some(rest) => match parse_u32(rest.as_str()) {
                Some(v) => Some(ApiCompatible::ClrRuntime(v)),
                None => None,
            },
            None => match strip_prefix(s, "JvmRuntime") {
                Some(rest) => match parse_u32(rest.as_str()) {
                    Some(v) => Some(ApiCompatible::JvmRuntime(v)),
                    None => None,
                },
                None => None,
            },
        }
    }
}

/// The target a key stands for (`parse_target_key`), or the message
/// "Invalid compilation target string: " followed by the key.
pub fn parse_target(s: &str) -> (r: Result<CompilationTarget, String>)
    ensures
        match parse_target_key(s@) {
            Some(t) => r matches Ok(c) && c@ == t,
            None => r matches Err(m) && m@ == "Invalid compilation target string: "@ + s@,
        },
{
    let parts = split_dashes(s);
    if parts.len() == 3 {
        match (parse_abi_text(parts[1].as_str()), parse_api_text(parts[2].as_str())) {
            (Some(host), Some(target)) => {
                return Ok(CompilationTarget { build: parse_arch_text(parts[0].as_str()), host, target });
            },
            _ => {},
        }
    }
    let mut m = owned("Invalid compilation target string: ");
    push_str(&mut m, s);
    Err(m)
}

} // verus!
