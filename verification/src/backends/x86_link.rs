//! Linking a native x86-64 image: which functions the import table holds,
//! and the displacements that make calls and string loads reach the import
//! table and the read-only data once the sections have their addresses.
use vstd::prelude::*;
use crate::program::GaiaImport;
use crate::text::{owned, str_eq, string_views};
use crate::target_key::has_prefix;
use crate::backends::x86::{patch_at, patch_le32, X86Image};

verus! {

/// A library and the functions imported from it, in table order.
#[derive(Debug)]
pub struct ImportGroup {
    pub dll_name: String,
    pub functions: Vec<String>,
}

/// A group as its library name and function names.
pub open spec fn group_view(g: ImportGroup) -> (Seq<char>, Seq<Seq<char>>) {
    (g.dll_name@, string_views(g.functions@))
}

pub open spec fn group_views(s: Seq<ImportGroup>) -> Seq<(Seq<char>, Seq<Seq<char>>)> {
    s.map_values(|g: ImportGroup| group_view(g))
}

/// The declared imports as (library, symbol).
pub open spec fn import_views(s: Seq<GaiaImport>) -> Seq<(Seq<char>, Seq<char>)> {
    s.map_values(|i: GaiaImport| (i.library@, i.symbol@))
}

/// The symbols of the outside calls, in order.
pub open spec fn call_symbols(s: Seq<(String, usize)>) -> Seq<Seq<char>> {
    s.map_values(|c: (String, usize)| c.0@)
}

/// The index of the last group for `lib`, or -1.
pub open spec fn group_index(gs: Seq<(Seq<char>, Seq<Seq<char>>)>, lib: Seq<char>) -> int
    decreases gs.len(),
{
    if gs.len() == 0 {
        -1
    } else if gs.last().0 == lib {
        gs.len() - 1
    } else {
        group_index(gs.drop_last(), lib)
    }
}

/// Appends `sym` to the group of `lib`, opening one at the end if there is
/// none.
pub open spec fn add_import(gs: Seq<(Seq<char>, Seq<Seq<char>>)>, lib: Seq<char>, sym: Seq<char>) -> Seq<
    (Seq<char>, Seq<Seq<char>>),
> {
    let i = group_index(gs, lib);
    if i < 0 {
        gs.push((lib, seq![sym]))
    } else {
        gs.update(i, (lib, gs[i].1.push(sym)))
    }
}

/// As `add_import`, unless the group of `lib` already has `sym`.
pub open spec fn add_import_once(
    gs: Seq<(Seq<char>, Seq<Seq<char>>)>,
    lib: Seq<char>,
    sym: Seq<char>,
) -> Seq<(Seq<char>, Seq<Seq<char>>)> {
    let i = group_index(gs, lib);
    if i >= 0 && gs[i].1.contains(sym) {
        gs
    } else {
        add_import(gs, lib, sym)
    }
}

/// The declared imports grouped by library, libraries in order of first
/// mention.
pub open spec fn declared_groups(imps: Seq<(Seq<char>, Seq<char>)>) -> Seq<(Seq<char>, Seq<Seq<char>>)>
    decreases imps.len(),
{
    if imps.len() == 0 {
        seq![]
    } else {
        add_import(declared_groups(imps.drop_last()), imps.last().0, imps.last().1)
    }
}

/// The runtime library's name.
pub open spec fn runtime_dll() -> Seq<char> {
    "nyar_runtime.dll"@
}

/// Adds each called `nyar_` symbol to the runtime library's group once.
pub open spec fn runtime_groups(gs: Seq<(Seq<char>, Seq<Seq<char>>)>, syms: Seq<Seq<char>>) -> Seq<
    (Seq<char>, Seq<Seq<char>>),
>
    decreases syms.len(),
{
    if syms.len() == 0 {
        gs
    } else {
        let g = runtime_groups(gs, syms.drop_last());
        if has_prefix(syms.last(), "nyar_"@) {
            add_import_once(g, runtime_dll(), syms.last())
        } else {
            g
        }
    }
}

/// Whether some group imports `f`.
pub open spec fn imports_function(gs: Seq<(Seq<char>, Seq<Seq<char>>)>, f: Seq<char>) -> bool {
    exists|i: int| 0 <= i < gs.len() && #[trigger] gs[i].1.contains(f)
}

/// The import table of an executable: the declared imports, the runtime
/// functions it calls, and `kernel32.dll!ExitProcess` unless some library
/// already gives `ExitProcess`.
pub open spec fn import_plan_spec(imps: Seq<(Seq<char>, Seq<char>)>, syms: Seq<Seq<char>>) -> Seq<
    (Seq<char>, Seq<Seq<char>>),
> {
    let g = runtime_groups(declared_groups(imps), syms);
    if imports_function(g, "ExitProcess"@) {
        g
    } else {
        add_import(g, "kernel32.dll"@, "ExitProcess"@)
    }
}


/// The bytes of the import address table: eight per function and eight
/// closing each library.
pub open spec fn table_size(gs: Seq<(Seq<char>, Seq<Seq<char>>)>) -> int
    decreases gs.len(),
{
    if gs.len() == 0 {
        0
    } else {
        table_size(gs.drop_last()) + 8 * (gs.last().1.len() + 1)
    }
}

/// The outside calls as (symbol, position of the call instruction).
pub open spec fn call_views(s: Seq<(String, usize)>) -> Seq<(Seq<char>, int)> {
    s.map_values(|c: (String, usize)| (c.0@, c.1 as int))
}

/// The displacements of the calls to `f`, whose table slot is at `rva`: a
/// call at `p` is `FF 15` and a 32-bit displacement from the next
/// instruction, six bytes on.
pub open spec fn call_patches(calls: Seq<(Seq<char>, int)>, f: Seq<char>, rva: int) -> Seq<(int, int)>
    decreases calls.len(),
{
    if calls.len() == 0 {
        seq![]
    } else {
        let rest = call_patches(calls.drop_last(), f, rva);
        let c = calls.last();
        if c.0 == f {
            rest.push((c.1 + 2, rva - (0x1000 + c.1 + 6)))
        } else {
            rest
        }
    }
}

/// The displacements for the functions of one library, whose slots start
/// at `base`.
pub open spec fn function_patches(fs: Seq<Seq<char>>, base: int, calls: Seq<(Seq<char>, int)>) -> Seq<
    (int, int),
>
    decreases fs.len(),
{
    if fs.len() == 0 {
        seq![]
    } else {
        function_patches(fs.drop_last(), base, calls) + call_patches(
            calls,
            fs.last(),
            base + 8 * (fs.len() - 1),
        )
    }
}

/// The displacements of all calls to imported functions, libraries and
/// functions in table order.
pub open spec fn import_patches(
    gs: Seq<(Seq<char>, Seq<Seq<char>>)>,
    iat_rva: int,
    calls: Seq<(Seq<char>, int)>,
) -> Seq<(int, int)>
    decreases gs.len(),
{
    if gs.len() == 0 {
        seq![]
    } else {
        import_patches(gs.drop_last(), iat_rva, calls) + function_patches(
            gs.last().1,
            iat_rva + table_size(gs.drop_last()),
            calls,
        )
    }
}

/// The slot of the last `ExitProcess` among `fs` (slots from `base`), or 0.
pub open spec fn exit_in(fs: Seq<Seq<char>>, base: int) -> int
    decreases fs.len(),
{
    if fs.len() == 0 {
        0
    } else if fs.last() == "ExitProcess"@ {
        base + 8 * (fs.len() - 1)
    } else {
        exit_in(fs.drop_last(), base)
    }
}

/// The slot of the last `ExitProcess` in the table, or 0.
pub open spec fn exit_rva(gs: Seq<(Seq<char>, Seq<Seq<char>>)>, iat_rva: int) -> int
    decreases gs.len(),
{
    if gs.len() == 0 {
        0
    } else {
        let e = exit_in(gs.last().1, iat_rva + table_size(gs.drop_last()));
        if e != 0 {
            e
        } else {
            exit_rva(gs.drop_last(), iat_rva)
        }
    }
}

/// The displacements that bind calls to the import table: each call to an
/// imported function, then the entry stub's call to `ExitProcess` if the
/// table has a nonzero slot for it.
pub open spec fn link_patches(
    gs: Seq<(Seq<char>, Seq<Seq<char>>)>,
    iat_rva: int,
    calls: Seq<(Seq<char>, int)>,
    exit_pos: int,
) -> Seq<(int, int)> {
    let e = exit_rva(gs, iat_rva);
    import_patches(gs, iat_rva, calls) + if e != 0 {
        seq![(exit_pos + 2, e - (0x1000 + exit_pos + 6))]
    } else {
        seq![]
    }
}

/// Writes each (position, value) as a 32-bit little-endian displacement,
/// in order.
pub open spec fn apply_patches(code: Seq<u8>, ps: Seq<(int, int)>) -> Seq<u8>
    decreases ps.len(),
{
    if ps.len() == 0 {
        code
    } else {
        patch_at(apply_patches(code, ps.drop_last()), ps.last().0 as nat, ps.last().1)
    }
}

/// The displacements of the string loads: a `lea` whose 32-bit
/// displacement at `p` is counted from `p + 4`, reaching offset `off` of the
/// read-only data at `rdata_rva`.
pub open spec fn string_patches(ps: Seq<(usize, usize)>, rdata_rva: int) -> Seq<(int, int)> {
    ps.map_values(|p: (usize, usize)| (p.0 as int, rdata_rva + p.1 - (0x1000 + p.0 + 4)))
}

pub open spec fn patch_list_view(ps: Seq<(usize, i128)>) -> Seq<(int, int)> {
    ps.map_values(|p: (usize, i128)| (p.0 as int, p.1 as int))
}

proof fn lemma_table_prefix(gs: Seq<(Seq<char>, Seq<Seq<char>>)>, n: int)
    requires
        0 <= n <= gs.len(),
    ensures
        table_size(gs.take(n)) <= table_size(gs),
        0 <= table_size(gs.take(n)),
    decreases gs.len(),
{
    if n == gs.len() {
        assert(gs.take(n) =~= gs);
        lemma_table_nonneg(gs);
    } else {
        assert(gs.drop_last().take(n) =~= gs.take(n));
        lemma_table_prefix(gs.drop_last(), n);
    }
}

proof fn lemma_table_nonneg(gs: Seq<(Seq<char>, Seq<Seq<char>>)>)
    ensures
        0 <= table_size(gs),
    decreases gs.len(),
{
    if gs.len() > 0 {
        lemma_table_nonneg(gs.drop_last());
    }
}

fn apply_patch_list(code: &mut Vec<u8>, ps: &Vec<(usize, i128)>)
    requires
        forall|k: int| 0 <= k < ps@.len() ==> #[trigger] ps@[k].1 > i128::MIN,
    ensures
        final(code)@ == apply_patches(old(code)@, patch_list_view(ps@)),
{
    let ghost c0 = code@;
    let ghost v = patch_list_view(ps@);
    let mut i: usize = 0;
    assert(v.take(0) =~= Seq::<(int, int)>::empty());
    while i < ps.len()
        invariant
            i <= ps@.len(),
            v == patch_list_view(ps@),
            forall|k: int| 0 <= k < ps@.len() ==> #[trigger] ps@[k].1 > i128::MIN,
            code@ == apply_patches(c0, v.take(i as int)),
        decreases ps@.len() - i,
    {
        assert(v.take(i + 1).drop_last() =~= v.take(i as int));
        let p = ps[i];
        patch_le32(code, p.0, p.1);
        i = i + 1;
    }
    assert(v.take(ps@.len() as int) =~= v);
}

/// The code of an image with every call to an imported function bound to
/// its slot in the import address table at `iat_rva` (slots of eight bytes,
/// libraries in order, eight more bytes closing each library), and the entry
/// stub's call at `call_exit_pos` bound to `ExitProcess`.
pub fn link_imports(
    code: &Vec<u8>,
    plan: &Vec<ImportGroup>,
    iat_rva: u32,
    calls: &Vec<(String, usize)>,
    call_exit_pos: usize,
) -> (r: Vec<u8>)
    requires
        table_size(group_views(plan@)) < 0x1_0000_0000,
        forall|c: int|
            0 <= c < calls@.len() && imports_function(group_views(plan@), #[trigger] calls@[c].0@)
                ==> calls@[c].1 + 6 <= code@.len(),
        exit_rva(group_views(plan@), iat_rva as int) != 0 ==> call_exit_pos + 6 <= code@.len(),
    ensures
        r@ == apply_patches(
            code@,
            link_patches(group_views(plan@), iat_rva as int, call_views(calls@), call_exit_pos as int),
        ),
{
    let ghost gs = group_views(plan@);
    let ghost cv = call_views(calls@);
    let mut ps: Vec<(usize, i128)> = Vec::new();
    let mut base: i128 = iat_rva as i128;
    let mut exit: i128 = 0;
    let mut g: usize = 0;
    assert(gs.take(0) =~= Seq::<(Seq<char>, Seq<Seq<char>>)>::empty());
    while g < plan.len()
        invariant
            g <= plan@.len(),
            gs == group_views(plan@),
            cv == call_views(calls@),
            table_size(gs) < 0x1_0000_0000,
            forall|c: int|
                0 <= c < calls@.len() && imports_function(gs, #[trigger] calls@[c].0@) ==> calls@[c].1 + 6
                    <= code@.len(),
            base == iat_rva + table_size(gs.take(g as int)),
            exit == exit_rva(gs.take(g as int), iat_rva as int),
            0 <= exit < 0x2_0000_0000,
            patch_list_view(ps@) == import_patches(gs.take(g as int), iat_rva as int, cv),
            forall|k: int| 0 <= k < ps@.len() ==> #[trigger] ps@[k].1 > -0x1_0000_0000_0000_0000_0000,
        decreases plan@.len() - g,
    {
        proof {
            lemma_table_prefix(gs, g + 1);
            lemma_table_prefix(gs, g as int);
            assert(gs.take(g + 1).drop_last() =~= gs.take(g as int));
            assert(gs.take(g + 1).last() == gs[g as int]);
        }
        let fs = &plan[g].functions;
        let ghost fsv = gs[g as int].1;
        assert(fsv == string_views(fs@));
        let ghost ps_g = patch_list_view(ps@);
        let mut ex_g: i128 = 0;
        let mut f: usize = 0;
        assert(fsv.take(0) =~= Seq::<Seq<char>>::empty());
        while f < fs.len()
            invariant
                f <= fs@.len(),
                gs == group_views(plan@),
                cv == call_views(calls@),
                g < plan@.len(),
                fsv == gs[g as int].1,
                fsv == string_views(fs@),
                fs == &plan@[g as int].functions,
                forall|c: int|
                    0 <= c < calls@.len() && imports_function(gs, #[trigger] calls@[c].0@) ==> calls@[c].1
                        + 6 <= code@.len(),
                0 <= base,
                base + 8 * fs@.len() < 0x2_0000_0000,
                patch_list_view(ps@) == ps_g + function_patches(fsv.take(f as int), base as int, cv),
                ex_g == exit_in(fsv.take(f as int), base as int),
                0 <= ex_g < 0x2_0000_0000,
                forall|k: int| 0 <= k < ps@.len() ==> #[trigger] ps@[k].1 > -0x1_0000_0000_0000_0000_0000,
            decreases fs@.len() - f,
        {
            assert(fsv.take(f + 1).drop_last() =~= fsv.take(f as int));
            assert(fsv.take(f + 1).last() == fsv[f as int]);
            let slot: i128 = base + 8 * (f as i128);
            let ghost ps_f = patch_list_view(ps@);
            let mut c: usize = 0;
            assert(cv.take(0) =~= Seq::<(Seq<char>, int)>::empty());
            while c < calls.len()
                invariant
                    c <= calls@.len(),
                    f < fs@.len(),
                    g < plan@.len(),
                    gs == group_views(plan@),
                    cv == call_views(calls@),
                    fsv == gs[g as int].1,
                    fsv == string_views(fs@),
                    forall|c: int|
                        0 <= c < calls@.len() && imports_function(gs, #[trigger] calls@[c].0@)
                            ==> calls@[c].1 + 6 <= code@.len(),
                    0 <= slot < 0x2_0000_0000,
                    patch_list_view(ps@) == ps_f + call_patches(cv.take(c as int), fsv[f as int], slot as int),
                    forall|k: int| 0 <= k < ps@.len() ==> #[trigger] ps@[k].1 > -0x1_0000_0000_0000_0000_0000,
                decreases calls@.len() - c,
            {
                assert(cv.take(c + 1).drop_last() =~= cv.take(c as int));
                assert(cv.take(c + 1).last() == (calls@[c as int].0@, calls@[c as int].1 as int));
                if str_eq(calls[c].0.as_str(), fs[f].as_str()) {
                    assert(gs[g as int].1[f as int] == calls@[c as int].0@);
                    assert(gs[g as int].1.contains(calls@[c as int].0@));
                    assert(imports_function(gs, calls@[c as int].0@));
                    let pos = calls[c].1;
                    let n = code.len();
                    assert(pos + 6 <= n);
                    let v: i128 = slot - (0x1000 + pos as i128 + 6);
                    let ghost before = patch_list_view(ps@);
                    ps.push((pos + 2, v));
                    assert(patch_list_view(ps@) =~= before.push(((pos + 2) as int, v as int)));
                    assert(call_patches(cv.take(c + 1), fsv[f as int], slot as int) =~= call_patches(
                        cv.take(c as int),
                        fsv[f as int],
                        slot as int,
                    ).push(((pos + 2) as int, v as int)));
                } else {
                    assert(calls@[c as int].0@ != fsv[f as int]);
                }
                c = c + 1;
            }
            assert(cv.take(calls@.len() as int) =~= cv);
            if str_eq(fs[f].as_str(), "ExitProcess") {
                ex_g = slot;
            }
            f = f + 1;
        }
        assert(fsv.take(fs@.len() as int) =~= fsv);
        if ex_g != 0 {
            exit = ex_g;
        }
        base = base + 8 * (fs.len() as i128 + 1);
        g = g + 1;
    }
    assert(gs.take(plan@.len() as int) =~= gs);
    let ghost ip = patch_list_view(ps@);
    if exit != 0 {
        let n = code.len();
        assert(call_exit_pos + 6 <= n);
        let v: i128 = exit - (0x1000 + call_exit_pos as i128 + 6);
        ps.push((call_exit_pos + 2, v));
        assert(patch_list_view(ps@) =~= ip + seq![((call_exit_pos + 2) as int, v as int)]);
    } else {
        assert(patch_list_view(ps@) =~= ip + seq![]);
    }
    assert(patch_list_view(ps@) == link_patches(gs, iat_rva as int, cv, call_exit_pos as int));
    let mut out = code.clone();
    assert(out@ =~= code@);
    apply_patch_list(&mut out, &ps);
    out
}

/// `size` rounded up to a whole number of 4 KiB pages.
pub open spec fn page_span(size: int) -> int {
    ((size + 0xFFF) / 0x1000) * 0x1000
}

/// Where the read-only data of an executable starts and how large its image
/// is, sections laid out from 0x1000 one after another on page boundaries:
/// code, then the import data, then the read-only data if there is any.
#[derive(Debug, Clone, Copy)]
pub struct ImageLayout {
    pub rdata_rva: u32,
    pub size_of_image: u32,
}

fn page_span_u64(size: u64) -> (r: u64)
    requires
        size <= 0xFFFF_FFFF,
    ensures
        r == page_span(size as int),
        size <= r < size + 0x1000,
{
    let r = ((size + 0xFFF) / 0x1000) * 0x1000;
    assert(size <= r < size + 0x1000) by (nonlinear_arith)
        requires
            r == ((size + 0xFFF) / 0x1000) * 0x1000,
    ;
    r
}

/// The layout for code of `code_len` bytes, import data whose section is
/// `idata_size` bytes, and `rdata_len` bytes of read-only data.
pub fn image_layout(code_len: usize, idata_size: u32, rdata_len: usize) -> (r: ImageLayout)
    requires
        0x1000 + page_span(code_len as int) + page_span(idata_size as int) + (if rdata_len > 0 {
            page_span(rdata_len as int)
        } else {
            0
        }) <= 0xFFFF_FFFF,
    ensures
        r.rdata_rva == 0x1000 + page_span(code_len as int) + page_span(idata_size as int),
        r.size_of_image == r.rdata_rva + (if rdata_len > 0 {
            page_span(rdata_len as int)
        } else {
            0
        }),
{
    assert(page_span(code_len as int) >= code_len) by (nonlinear_arith);
    assert(page_span(rdata_len as int) >= rdata_len) by (nonlinear_arith);
    let text = page_span_u64(code_len as u64);
    let idata = page_span_u64(idata_size as u64);
    let rdata_rva = 0x1000 + text + idata;
    let rdata = if rdata_len > 0 {
        page_span_u64(rdata_len as u64)
    } else {
        0
    };
    ImageLayout { rdata_rva: rdata_rva as u32, size_of_image: (rdata_rva + rdata) as u32 }
}

proof fn lemma_apply_len(code: Seq<u8>, ps: Seq<(int, int)>)
    ensures
        apply_patches(code, ps).len() == code.len(),
    decreases ps.len(),
{
    if ps.len() > 0 {
        lemma_apply_len(code, ps.drop_last());
        let c = apply_patches(code, ps.drop_last());
        let at = ps.last().0 as nat;
        if at + 4 <= c.len() {
            crate::backends::x86::lemma_le32_len(ps.last().1);
        }
    }
}

/// The code of an image with each string load bound to its text in the
/// read-only data at `rdata_rva`; an image without read-only data is left
/// as it is.
pub fn link_strings(image: &X86Image, rdata_rva: u32) -> (r: Vec<u8>)
    requires
        image.rdata_content@.len() > 0 ==> forall|k: int|
            0 <= k < image.string_patches@.len() ==> #[trigger] image.string_patches@[k].0 + 4
                <= image.code@.len(),
    ensures
        r@ == if image.rdata_content@.len() == 0 {
            image.code@
        } else {
            apply_patches(image.code@, string_patches(image.string_patches@, rdata_rva as int))
        },
{
    let mut out = image.code.clone();
    assert(out@ =~= image.code@);
    if image.rdata_content.len() == 0 {
        return out;
    }
    let ghost want = string_patches(image.string_patches@, rdata_rva as int);
    let mut ps: Vec<(usize, i128)> = Vec::new();
    let mut k: usize = 0;
    while k < image.string_patches.len()
        invariant
            k <= image.string_patches@.len(),
            want == string_patches(image.string_patches@, rdata_rva as int),
            patch_list_view(ps@) =~= want.take(k as int),
            forall|j: int| 0 <= j < ps@.len() ==> #[trigger] ps@[j].1 > -0x1_0000_0000_0000_0000_0000,
        decreases image.string_patches@.len() - k,
    {
        let (pos, off) = image.string_patches[k];
        let v: i128 = rdata_rva as i128 + off as i128 - (0x1000 + pos as i128 + 4);
        assert(want[k as int] == (pos as int, v as int));
        ps.push((pos, v));
        assert(want.take(k + 1) =~= want.take(k as int).push((pos as int, v as int)));
        k = k + 1;
    }
    assert(want.take(image.string_patches@.len() as int) =~= want);
    apply_patch_list(&mut out, &ps);
    out
}

/// The code of an executable's image once linked: string loads bound to the
/// read-only data at `rdata_rva`, then calls bound to the import address
/// table at `iat_rva`.
pub fn link_image(image: &X86Image, plan: &Vec<ImportGroup>, iat_rva: u32, rdata_rva: u32) -> (r: Vec<u8>)
    requires
        image.rdata_content@.len() > 0 ==> forall|k: int|
            0 <= k < image.string_patches@.len() ==> #[trigger] image.string_patches@[k].0 + 4
                <= image.code@.len(),
        table_size(group_views(plan@)) < 0x1_0000_0000,
        forall|c: int|
            0 <= c < image.external_call_positions@.len() && imports_function(
                group_views(plan@),
                #[trigger] image.external_call_positions@[c].0@,
            ) ==> image.external_call_positions@[c].1 + 6 <= image.code@.len(),
        exit_rva(group_views(plan@), iat_rva as int) != 0 ==> image.call_exit_pos + 6 <= image.code@.len(),
    ensures
        r@.len() == image.code@.len(),
        r@ == apply_patches(
            if image.rdata_content@.len() == 0 {
                image.code@
            } else {
                apply_patches(image.code@, string_patches(image.string_patches@, rdata_rva as int))
            },
            link_patches(
                group_views(plan@),
                iat_rva as int,
                call_views(image.external_call_positions@),
                image.call_exit_pos as int,
            ),
        ),
{
    let code = link_strings(image, rdata_rva);
    proof {
        lemma_apply_len(image.code@, string_patches(image.string_patches@, rdata_rva as int));
    }
    let r = link_imports(&code, plan, iat_rva, &image.external_call_positions, image.call_exit_pos);
    proof {
        lemma_apply_len(
            code@,
            link_patches(
                group_views(plan@),
                iat_rva as int,
                call_views(image.external_call_positions@),
                image.call_exit_pos as int,
            ),
        );
    }
    r
}

proof fn lemma_group_index_range(gs: Seq<(Seq<char>, Seq<Seq<char>>)>, lib: Seq<char>)
    ensures
        -1 <= group_index(gs, lib) < gs.len(),
        group_index(gs, lib) >= 0 ==> gs[group_index(gs, lib)].0 == lib,
    decreases gs.len(),
{
    if gs.len() > 0 && gs.last().0 != lib {
        lemma_group_index_range(gs.drop_last(), lib);
    }
}

proof fn lemma_add_import(gs: Seq<(Seq<char>, Seq<Seq<char>>)>, lib: Seq<char>, sym: Seq<char>)
    ensures
        imports_function(add_import(gs, lib, sym), sym),
        forall|f: Seq<char>| imports_function(gs, f) ==> imports_function(add_import(gs, lib, sym), f),
{
    lemma_group_index_range(gs, lib);
    let i = group_index(gs, lib);
    let n = add_import(gs, lib, sym);
    if i < 0 {
        assert(n[gs.len() as int].1[0] == sym);
        assert(n[gs.len() as int].1.contains(sym));
    } else {
        assert(n[i].1[gs[i].1.len() as int] == sym);
        assert(n[i].1.contains(sym));
    }
    assert forall|f: Seq<char>| imports_function(gs, f) implies imports_function(n, f) by {
        let a = choose|a: int| 0 <= a < gs.len() && #[trigger] gs[a].1.contains(f);
        let b = choose|b: int| 0 <= b < gs[a].1.len() && gs[a].1[b] == f;
        assert(n[a].1[b] == f);
        assert(n[a].1.contains(f));
    }
}

proof fn lemma_add_import_once(gs: Seq<(Seq<char>, Seq<Seq<char>>)>, lib: Seq<char>, sym: Seq<char>)
    ensures
        imports_function(add_import_once(gs, lib, sym), sym),
        forall|f: Seq<char>| imports_function(gs, f) ==> imports_function(add_import_once(gs, lib, sym), f),
{
    lemma_group_index_range(gs, lib);
    lemma_add_import(gs, lib, sym);
    let i = group_index(gs, lib);
    if i >= 0 && gs[i].1.contains(sym) {
        assert(imports_function(gs, sym));
    }
}

proof fn lemma_runtime_groups(gs: Seq<(Seq<char>, Seq<Seq<char>>)>, syms: Seq<Seq<char>>)
    ensures
        forall|f: Seq<char>| imports_function(gs, f) ==> imports_function(runtime_groups(gs, syms), f),
        forall|k: int|
            0 <= k < syms.len() && has_prefix(#[trigger] syms[k], "nyar_"@) ==> imports_function(
                runtime_groups(gs, syms),
                syms[k],
            ),
    decreases syms.len(),
{
    if syms.len() > 0 {
        let d = syms.drop_last();
        lemma_runtime_groups(gs, d);
        let g = runtime_groups(gs, d);
        if has_prefix(syms.last(), "nyar_"@) {
            lemma_add_import_once(g, runtime_dll(), syms.last());
        }
        assert forall|k: int|
            0 <= k < syms.len() && has_prefix(#[trigger] syms[k], "nyar_"@) implies imports_function(
                runtime_groups(gs, syms),
                syms[k],
            ) by {
            if k < syms.len() - 1 {
                assert(d[k] == syms[k]);
            }
        }
    }
}

proof fn lemma_declared_groups(imps: Seq<(Seq<char>, Seq<char>)>)
    ensures
        forall|k: int| 0 <= k < imps.len() ==> imports_function(declared_groups(imps), #[trigger] imps[k].1),
    decreases imps.len(),
{
    if imps.len() > 0 {
        let d = imps.drop_last();
        lemma_declared_groups(d);
        lemma_add_import(declared_groups(d), imps.last().0, imps.last().1);
        assert forall|k: int| 0 <= k < imps.len() implies imports_function(
            declared_groups(imps),
            #[trigger] imps[k].1,
        ) by {
            if k < imps.len() - 1 {
                assert(d[k] == imps[k]);
            }
        }
    }
}

/// The import table of an executable always gives `ExitProcess`, every
/// function the module declares as imported, and every runtime (`nyar_`)
/// function its code calls.
pub proof fn law_import_plan_complete(imps: Seq<(Seq<char>, Seq<char>)>, syms: Seq<Seq<char>>)
    ensures
        imports_function(import_plan_spec(imps, syms), "ExitProcess"@),
        forall|k: int|
            0 <= k < imps.len() ==> imports_function(import_plan_spec(imps, syms), #[trigger] imps[k].1),
        forall|k: int|
            0 <= k < syms.len() && has_prefix(#[trigger] syms[k], "nyar_"@) ==> imports_function(
                import_plan_spec(imps, syms),
                syms[k],
            ),
{
    let dg = declared_groups(imps);
    lemma_declared_groups(imps);
    lemma_runtime_groups(dg, syms);
    let g = runtime_groups(dg, syms);
    lemma_add_import(g, "kernel32.dll"@, "ExitProcess"@);
    assert forall|k: int| 0 <= k < imps.len() implies imports_function(
        import_plan_spec(imps, syms),
        #[trigger] imps[k].1,
    ) by {
        assert(imports_function(dg, imps[k].1));
    }
}

fn find_group(gs: &Vec<ImportGroup>, lib: &str) -> (r: Option<usize>)
    ensures
        match r {
            Some(i) => i < gs@.len() && i as int == group_index(group_views(gs@), lib@),
            None => group_index(group_views(gs@), lib@) == -1,
        },
{
    let ghost v = group_views(gs@);
    let mut i: usize = gs.len();
    assert(v.take(i as int) =~= v);
    while i > 0
        invariant
            i <= gs@.len(),
            v == group_views(gs@),
            group_index(v, lib@) == group_index(v.take(i as int), lib@),
        decreases i,
    {
        assert(v.take(i as int).last() == v[i - 1]);
        if str_eq(gs[i - 1].dll_name.as_str(), lib) {
            return Some(i - 1);
        }
        assert(v.take(i as int).drop_last() =~= v.take(i - 1));
        i = i - 1;
    }
    None
}

fn list_contains(v: &Vec<String>, s: &str) -> (r: bool)
    ensures
        r == string_views(v@).contains(s@),
{
    let mut i: usize = 0;
    while i < v.len()
        invariant
            i <= v@.len(),
            forall|j: int| 0 <= j < i ==> v@[j]@ != s@,
        decreases v@.len() - i,
    {
        if str_eq(v[i].as_str(), s) {
            assert(string_views(v@)[i as int] == s@);
            return true;
        }
        i = i + 1;
    }
    proof {
        if string_views(v@).contains(s@) {
            let j = choose|j: int| 0 <= j < string_views(v@).len() && string_views(v@)[j] == s@;
            assert(v@[j]@ == s@);
        }
    }
    false
}

fn add_import_to(gs: &mut Vec<ImportGroup>, lib: &str, sym: &str)
    ensures
        group_views(final(gs)@) == add_import(group_views(old(gs)@), lib@, sym@),
{
    let ghost v = group_views(gs@);
    match find_group(gs, lib) {
        Some(i) => {
            let g = gs.remove(i);
            let mut fs = g.functions;
            fs.push(owned(sym));
            let ng = ImportGroup { dll_name: owned(lib), functions: fs };
            assert(string_views(ng.functions@) =~= v[i as int].1.push(sym@));
            gs.insert(i, ng);
            assert(group_views(gs@) =~= v.update(i as int, (lib@, v[i as int].1.push(sym@))));
        },
        None => {
            let mut fs: Vec<String> = Vec::new();
            fs.push(owned(sym));
            let ng = ImportGroup { dll_name: owned(lib), functions: fs };
            assert(string_views(ng.functions@) =~= seq![sym@]);
            gs.push(ng);
            assert(group_views(gs@) =~= v.push((lib@, seq![sym@])));
        },
    }
}

fn add_import_once_to(gs: &mut Vec<ImportGroup>, lib: &str, sym: &str)
    ensures
        group_views(final(gs)@) == add_import_once(group_views(old(gs)@), lib@, sym@),
{
    match find_group(gs, lib) {
        Some(i) => {
            if list_contains(&gs[i].functions, sym) {
                return;
            }
        },
        None => {},
    }
    add_import_to(gs, lib, sym);
}

fn any_imports(gs: &Vec<ImportGroup>, f: &str) -> (r: bool)
    ensures
        r == imports_function(group_views(gs@), f@),
{
    let ghost v = group_views(gs@);
    let mut i: usize = 0;
    while i < gs.len()
        invariant
            i <= gs@.len(),
            v == group_views(gs@),
            forall|j: int| 0 <= j < i ==> !(#[trigger] v[j].1.contains(f@)),
        decreases gs@.len() - i,
    {
        if list_contains(&gs[i].functions, f) {
            assert(v[i as int].1.contains(f@));
            return true;
        }
        i = i + 1;
    }
    false
}

/// The import table an executable needs: the module's imports grouped by
/// library (libraries in order of first mention, each library's functions
/// in order, repeats kept), then each called `nyar_` function added once to
/// `nyar_runtime.dll`, then `ExitProcess` from `kernel32.dll` unless some
/// library already gives it.
pub fn import_plan(imports: &Vec<GaiaImport>, calls: &Vec<(String, usize)>) -> (r: Vec<ImportGroup>)
    ensures
        group_views(r@) == import_plan_spec(import_views(imports@), call_symbols(calls@)),
{
    let ghost imps = import_views(imports@);
    let ghost syms = call_symbols(calls@);
    let mut gs: Vec<ImportGroup> = Vec::new();
    let mut i: usize = 0;
    assert(group_views(gs@) =~= declared_groups(imps.take(0)));
    while i < imports.len()
        invariant
            i <= imports@.len(),
            imps == import_views(imports@),
            group_views(gs@) == declared_groups(imps.take(i as int)),
        decreases imports@.len() - i,
    {
        assert(imps.take(i + 1).drop_last() =~= imps.take(i as int));
        add_import_to(&mut gs, imports[i].library.as_str(), imports[i].symbol.as_str());
        i = i + 1;
    }
    assert(imps.take(imports@.len() as int) =~= imps);
    let ghost declared = group_views(gs@);
    let mut k: usize = 0;
    assert(syms.take(0) =~= Seq::<Seq<char>>::empty());
    while k < calls.len()
        invariant
            k <= calls@.len(),
            syms == call_symbols(calls@),
            group_views(gs@) == runtime_groups(declared, syms.take(k as int)),
        decreases calls@.len() - k,
    {
        assert(syms.take(k + 1).drop_last() =~= syms.take(k as int));
        assert(syms.take(k + 1).last() == calls@[k as int].0@);
        if starts_with_runtime_prefix(calls[k].0.as_str()) {
            add_import_once_to(&mut gs, "nyar_runtime.dll", calls[k].0.as_str());
        }
        k = k + 1;
    }
    assert(syms.take(calls@.len() as int) =~= syms);
    if !any_imports(&gs, "ExitProcess") {
        add_import_to(&mut gs, "kernel32.dll", "ExitProcess");
    }
    gs
}

fn starts_with_runtime_prefix(s: &str) -> (r: bool)
    ensures
        r == has_prefix(s@, "nyar_"@),
{
    let cs = crate::text::chars_of(s);
    let p = crate::text::chars_of("nyar_");
    if cs.len() < p.len() {
        return false;
    }
    let mut i: usize = 0;
    while i < p.len()
        invariant
            i <= p@.len(),
            p@.len() <= cs@.len(),
            cs@ == s@,
            p@ == "nyar_"@,
            forall|j: int| 0 <= j < i ==> cs@[j] == p@[j],
        decreases p@.len() - i,
    {
        if cs[i] != p[i] {
            assert(cs@.take(p@.len() as int)[i as int] != p@[i as int]);
            return false;
        }
        i = i + 1;
    }
    assert(cs@.take(p@.len() as int) =~= p@);
    true
}

} // verus!
