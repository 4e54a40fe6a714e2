//! The WASI backend's lowering: a module becomes a WebAssembly program that
//! imports `fd_write`, holds one function per function of the module, and
//! exports the last one as `main`. Floating-point constants travel as their
//! IEEE-754 bits.
use vstd::prelude::*;
use crate::instruction::{CmpCondition, CoreInstruction, GaiaInstruction, ManagedInstruction};
use crate::program::{GaiaBlock, GaiaConstant, GaiaFunction, GaiaModule, GaiaTerminator};
use crate::text::owned;
use crate::types::GaiaType;

verus! {

/// A WebAssembly value type.
#[derive(Debug, Clone, Copy, PartialEq, Eq, Structural)]
pub enum WasmValueType {
    I32,
    I64,
    F32,
    F64,
}

/// The WebAssembly instructions the lowering writes.
#[derive(Debug, Clone, Copy, PartialEq, Eq, Structural)]
pub enum WasiInstruction {
    I32Const { value: i32 },
    I64Const { value: i64 },
    /// A 32-bit float constant by its bits.
    F32Const { bits: u32 },
    /// A 64-bit float constant by its bits.
    F64Const { bits: u64 },
    I32Load { offset: u32, align: u32 },
    I64Load { offset: u32, align: u32 },
    F32Load { offset: u32, align: u32 },
    F64Load { offset: u32, align: u32 },
    I32Store { offset: u32, align: u32 },
    I64Store { offset: u32, align: u32 },
    F32Store { offset: u32, align: u32 },
    F64Store { offset: u32, align: u32 },
    I32Add,
    I32Sub,
    I32Mul,
    I32DivS,
    I32RemS,
    I32And,
    I32Or,
    I32Xor,
    I32Shl,
    I32ShrS,
    I32Eq,
    I32Ne,
    I32LtS,
    I32LeS,
    I32GtS,
    I32GeS,
    Drop,
    LocalGet { local_index: u32 },
    LocalSet { local_index: u32 },
    Return,
    Call { function_index: u32 },
    Br { label_index: u32 },
    BrIf { label_index: u32 },
    StructNew { type_index: u32 },
    StructGet { type_index: u32, field_index: u32 },
    StructSet { type_index: u32, field_index: u32 },
    End,
}

/// A function type: parameters and results.
#[derive(Debug, PartialEq, Eq)]
pub struct WasiFunctionType {
    pub params: Vec<WasmValueType>,
    pub results: Vec<WasmValueType>,
}

/// An imported function: module, field and type index.
#[derive(Debug, PartialEq, Eq)]
pub struct WasiImport {
    pub module: String,
    pub field: String,
    pub type_index: u32,
}

/// A function: its type index, locals and body.
#[derive(Debug, PartialEq, Eq)]
pub struct WasiFunction {
    pub type_index: u32,
    pub locals: Vec<WasmValueType>,
    pub body: Vec<WasiInstruction>,
}

/// An exported function: name and function index.
#[derive(Debug, PartialEq, Eq)]
pub struct WasiExport {
    pub name: String,
    pub function_index: u32,
}

/// A WebAssembly program: function types, imports, functions and exports.
#[derive(Debug, PartialEq, Eq)]
pub struct WasiProgram {
    pub function_types: Vec<WasiFunctionType>,
    pub imports: Vec<WasiImport>,
    pub functions: Vec<WasiFunction>,
    pub exports: Vec<WasiExport>,
}

/// The value type of a type; 32-bit integers stand for the others.
pub open spec fn wasm_type(t: GaiaType) -> WasmValueType {
    match t {
        GaiaType::I64 => WasmValueType::I64,
        GaiaType::F32 => WasmValueType::F32,
        GaiaType::F64 => WasmValueType::F64,
        _ => WasmValueType::I32,
    }
}

pub fn map_type(t: &GaiaType) -> (r: WasmValueType)
    ensures
        r == wasm_type(*t),
{
    match t {
        GaiaType::I64 => WasmValueType::I64,
        GaiaType::F32 => WasmValueType::F32,
        GaiaType::F64 => WasmValueType::F64,
        _ => WasmValueType::I32,
    }
}

/// The instructions of an instruction. Calls go to function 0 and
/// structures to type 0; loads and stores of other types and instructions
/// without a form here give nothing.
pub open spec fn wasi_instr(i: GaiaInstruction) -> Seq<WasiInstruction> {
    match i {
        GaiaInstruction::Core(c) => match c {
            CoreInstruction::PushConstant(k) => match k {
                GaiaConstant::I32(v) => seq![WasiInstruction::I32Const { value: v }],
                GaiaConstant::I64(v) => seq![WasiInstruction::I64Const { value: v }],
                GaiaConstant::F32 { bits, text } => seq![WasiInstruction::F32Const { bits }],
                GaiaConstant::F64 { bits, text } => seq![WasiInstruction::F64Const { bits }],
                _ => seq![],
            },
            CoreInstruction::Load(t) => match t {
                GaiaType::I32 => seq![WasiInstruction::I32Load { offset: 0, align: 0 }],
                GaiaType::I64 => seq![WasiInstruction::I64Load { offset: 0, align: 0 }],
                GaiaType::F32 => seq![WasiInstruction::F32Load { offset: 0, align: 0 }],
                GaiaType::F64 => seq![WasiInstruction::F64Load { offset: 0, align: 0 }],
                _ => seq![],
            },
            CoreInstruction::Store(t) => match t {
                GaiaType::I32 => seq![WasiInstruction::I32Store { offset: 0, align: 0 }],
                GaiaType::I64 => seq![WasiInstruction::I64Store { offset: 0, align: 0 }],
                GaiaType::F32 => seq![WasiInstruction::F32Store { offset: 0, align: 0 }],
                GaiaType::F64 => seq![WasiInstruction::F64Store { offset: 0, align: 0 }],
                _ => seq![],
            },
            CoreInstruction::Add(_) => seq![WasiInstruction::I32Add],
            CoreInstruction::Sub(_) => seq![WasiInstruction::I32Sub],
            CoreInstruction::Mul(_) => seq![WasiInstruction::I32Mul],
            CoreInstruction::Div(_) => seq![WasiInstruction::I32DivS],
            CoreInstruction::Rem(_) => seq![WasiInstruction::I32RemS],
            CoreInstruction::And(_) => seq![WasiInstruction::I32And],
            CoreInstruction::Or(_) => seq![WasiInstruction::I32Or],
            CoreInstruction::Xor(_) => seq![WasiInstruction::I32Xor],
            CoreInstruction::Shl(_) => seq![WasiInstruction::I32Shl],
            CoreInstruction::Shr(_) => seq![WasiInstruction::I32ShrS],
            CoreInstruction::Pop => seq![WasiInstruction::Drop],
            CoreInstruction::LoadLocal(k, _) => seq![WasiInstruction::LocalGet { local_index: k }],
            CoreInstruction::StoreLocal(k, _) => seq![WasiInstruction::LocalSet { local_index: k }],
            CoreInstruction::LoadArg(k, _) => seq![WasiInstruction::LocalGet { local_index: k }],
            CoreInstruction::StoreArg(k, _) => seq![WasiInstruction::LocalSet { local_index: k }],
            CoreInstruction::Ret => seq![WasiInstruction::Return],
            CoreInstruction::Call(_, _) => seq![WasiInstruction::Call { function_index: 0 }],
            CoreInstruction::Cmp(cond, _) => seq![
                match cond {
                    CmpCondition::Eq => WasiInstruction::I32Eq,
                    CmpCondition::Ne => WasiInstruction::I32Ne,
                    CmpCondition::Lt => WasiInstruction::I32LtS,
                    CmpCondition::Le => WasiInstruction::I32LeS,
                    CmpCondition::Gt => WasiInstruction::I32GtS,
                    CmpCondition::Ge => WasiInstruction::I32GeS,
                },
            ],
            CoreInstruction::StructNew(_) => seq![WasiInstruction::StructNew { type_index: 0 }],
            CoreInstruction::StructGet { struct_name, field_index, is_signed } => seq![
                WasiInstruction::StructGet { type_index: 0, field_index },
            ],
            CoreInstruction::StructSet { struct_name, field_index } => seq![
                WasiInstruction::StructSet { type_index: 0, field_index },
            ],
            _ => seq![],
        },
        GaiaInstruction::Managed(ManagedInstruction::CallStatic { .. }) => seq![WasiInstruction::Call { function_index: 0 }],
        _ => seq![],
    }
}

/// The instructions of a block's ending; jumps and branches go to label 0
/// and calls to function 0.
pub open spec fn wasi_terminator(t: GaiaTerminator) -> Seq<WasiInstruction> {
    match t {
        GaiaTerminator::Jump(_) => seq![WasiInstruction::Br { label_index: 0 }],
        GaiaTerminator::Branch { .. } => seq![WasiInstruction::BrIf { label_index: 0 }],
        GaiaTerminator::Return => seq![WasiInstruction::Return],
        GaiaTerminator::Call { .. } => seq![WasiInstruction::Call { function_index: 0 }],
        GaiaTerminator::Halt => seq![WasiInstruction::I32Const { value: 0 }, WasiInstruction::Call { function_index: 0 }],
    }
}

pub open spec fn wasi_instrs(is: Seq<GaiaInstruction>) -> Seq<WasiInstruction>
    decreases is.len(),
{
    if is.len() == 0 {
        seq![]
    } else {
        wasi_instrs(is.drop_last()) + wasi_instr(is.last())
    }
}

pub open spec fn wasi_blocks(bs: Seq<GaiaBlock>) -> Seq<WasiInstruction>
    decreases bs.len(),
{
    if bs.len() == 0 {
        seq![]
    } else {
        wasi_blocks(bs.drop_last()) + wasi_instrs(bs.last().instructions@) + wasi_terminator(bs.last().terminator)
    }
}

/// The body of a function: its blocks, then `end`.
pub open spec fn wasi_body(f: GaiaFunction) -> Seq<WasiInstruction> {
    wasi_blocks(f.blocks@).push(WasiInstruction::End)
}

/// The parameter types of a function.
pub open spec fn wasi_params(f: GaiaFunction) -> Seq<WasmValueType> {
    f.signature.params@.map_values(|t: GaiaType| wasm_type(t))
}

/// The result types of a function: none for `Void`.
pub open spec fn wasi_results(f: GaiaFunction) -> Seq<WasmValueType> {
    if f.signature.return_type is Void {
        seq![]
    } else {
        seq![wasm_type(f.signature.return_type)]
    }
}

fn instr_into(out: &mut Vec<WasiInstruction>, i: &GaiaInstruction)
    ensures
        final(out)@ == old(out)@ + wasi_instr(*i),
{
    let ghost start = out@;
    match i {
        GaiaInstruction::Core(c) => match c {
            CoreInstruction::PushConstant(k) => match k {
                GaiaConstant::I32(v) => out.push(WasiInstruction::I32Const { value: *v }),
                GaiaConstant::I64(v) => out.push(WasiInstruction::I64Const { value: *v }),
                GaiaConstant::F32 { bits, text } => out.push(WasiInstruction::F32Const { bits: *bits }),
                GaiaConstant::F64 { bits, text } => out.push(WasiInstruction::F64Const { bits: *bits }),
                _ => {},
            },
            CoreInstruction::Load(t) => match t {
                GaiaType::I32 => out.push(WasiInstruction::I32Load { offset: 0, align: 0 }),
                GaiaType::I64 => out.push(WasiInstruction::I64Load { offset: 0, align: 0 }),
                GaiaType::F32 => out.push(WasiInstruction::F32Load { offset: 0, align: 0 }),
                GaiaType::F64 => out.push(WasiInstruction::F64Load { offset: 0, align: 0 }),
                _ => {},
            },
            CoreInstruction::Store(t) => match t {
                GaiaType::I32 => out.push(WasiInstruction::I32Store { offset: 0, align: 0 }),
                GaiaType::I64 => out.push(WasiInstruction::I64Store { offset: 0, align: 0 }),
                GaiaType::F32 => out.push(WasiInstruction::F32Store { offset: 0, align: 0 }),
                GaiaType::F64 => out.push(WasiInstruction::F64Store { offset: 0, align: 0 }),
                _ => {},
            },
            CoreInstruction::Add(_) => out.push(WasiInstruction::I32Add),
            CoreInstruction::Sub(_) => out.push(WasiInstruction::I32Sub),
            CoreInstruction::Mul(_) => out.push(WasiInstruction::I32Mul),
            CoreInstruction::Div(_) => out.push(WasiInstruction::I32DivS),
            CoreInstruction::Rem(_) => out.push(WasiInstruction::I32RemS),
            CoreInstruction::And(_) => out.push(WasiInstruction::I32And),
            CoreInstruction::Or(_) => out.push(WasiInstruction::I32Or),
            CoreInstruction::Xor(_) => out.push(WasiInstruction::I32Xor),
            CoreInstruction::Shl(_) => out.push(WasiInstruction::I32Shl),
            CoreInstruction::Shr(_) => out.push(WasiInstruction::I32ShrS),
            CoreInstruction::Pop => out.push(WasiInstruction::Drop),
            CoreInstruction::LoadLocal(k, _) => out.push(WasiInstruction::LocalGet { local_index: *k }),
            CoreInstruction::StoreLocal(k, _) => out.push(WasiInstruction::LocalSet { local_index: *k }),
            CoreInstruction::LoadArg(k, _) => out.push(WasiInstruction::LocalGet { local_index: *k }),
            CoreInstruction::StoreArg(k, _) => out.push(WasiInstruction::LocalSet { local_index: *k }),
            CoreInstruction::Ret => out.push(WasiInstruction::Return),
            CoreInstruction::Call(_, _) => out.push(WasiInstruction::Call { function_index: 0 }),
            CoreInstruction::Cmp(cond, _) => {
                let w = match cond {
                    CmpCondition::Eq => WasiInstruction::I32Eq,
                    CmpCondition::Ne => WasiInstruction::I32Ne,
                    CmpCondition::Lt => WasiInstruction::I32LtS,
                    CmpCondition::Le => WasiInstruction::I32LeS,
                    CmpCondition::Gt => WasiInstruction::I32GtS,
                    CmpCondition::Ge => WasiInstruction::I32GeS,
                };
                out.push(w);
            },
            CoreInstruction::StructNew(_) => out.push(WasiInstruction::StructNew { type_index: 0 }),
            CoreInstruction::StructGet { struct_name, field_index, is_signed } => out.push(
                WasiInstruction::StructGet { type_index: 0, field_index: *field_index },
            ),
            CoreInstruction::StructSet { struct_name, field_index } => out.push(
                WasiInstruction::StructSet { type_index: 0, field_index: *field_index },
            ),
            _ => {},
        },
        GaiaInstruction::Managed(ManagedInstruction::CallStatic { .. }) => out.push(
            WasiInstruction::Call { function_index: 0 },
        ),
        _ => {},
    }
    assert(out@ =~= start + wasi_instr(*i));
}

/// The body of a function (`wasi_body`).
pub fn compile_body(f: &GaiaFunction) -> (r: Vec<WasiInstruction>)
    ensures
        r@ == wasi_body(*f),
{
    let mut out: Vec<WasiInstruction> = Vec::new();
    let bs = &f.blocks;
    let mut b: usize = 0;
    assert(bs@.take(0) =~= seq![]);
    while b < bs.len()
        invariant
            b <= bs@.len(),
            bs == &f.blocks,
            out@ == wasi_blocks(bs@.take(b as int)),
        decreases bs.len() - b,
    {
        proof {
            assert(bs@.take(b + 1).drop_last() =~= bs@.take(b as int));
        }
        let is = &bs[b].instructions;
        let ghost base = out@;
        let mut k: usize = 0;
        assert(is@.take(0) =~= seq![]);
        while k < is.len()
            invariant
                k <= is@.len(),
                out@ == base + wasi_instrs(is@.take(k as int)),
            decreases is.len() - k,
        {
            proof {
                assert(is@.take(k + 1).drop_last() =~= is@.take(k as int));
            }
            instr_into(&mut out, &is[k]);
            k = k + 1;
            assert(out@ =~= base + wasi_instrs(is@.take(k as int)));
        }
        assert(is@.take(k as int) =~= is@);
        let ghost mid = out@;
        match &bs[b].terminator {
            GaiaTerminator::Jump(_) => out.push(WasiInstruction::Br { label_index: 0 }),
            GaiaTerminator::Branch { .. } => out.push(WasiInstruction::BrIf { label_index: 0 }),
            GaiaTerminator::Return => out.push(WasiInstruction::Return),
            GaiaTerminator::Call { .. } => out.push(WasiInstruction::Call { function_index: 0 }),
            GaiaTerminator::Halt => {
                out.push(WasiInstruction::I32Const { value: 0 });
                out.push(WasiInstruction::Call { function_index: 0 });
            },
        }
        assert(out@ =~= mid + wasi_terminator(bs@[b as int].terminator));
        b = b + 1;
        assert(out@ =~= wasi_blocks(bs@.take(b as int)));
    }
    assert(bs@.take(b as int) =~= bs@);
    out.push(WasiInstruction::End);
    out
}

/// The type of `fd_write`: four 32-bit integers to one.
pub open spec fn fd_write_type(t: WasiFunctionType) -> bool {
    t.params@ == seq![WasmValueType::I32, WasmValueType::I32, WasmValueType::I32, WasmValueType::I32]
        && t.results@ == seq![WasmValueType::I32]
}

/// Whether a program is the lowering of a module: the `fd_write` import
/// with type 0, function `i` with type `i + 1` (its parameter and result
/// types) and the body `wasi_body`, and, when there are functions, the
/// export `main` of the last function.
pub open spec fn wasi_program_of(p: WasiProgram, m: GaiaModule) -> bool {
    let fs = m.functions@;
    &&& p.function_types@.len() == fs.len() + 1
    &&& fd_write_type(p.function_types@[0])
    &&& p.imports@.len() == 1
    &&& p.imports@[0].module@ == "wasi_snapshot_preview1"@
    &&& p.imports@[0].field@ == "fd_write"@
    &&& p.imports@[0].type_index == 0
    &&& p.functions@.len() == fs.len()
    &&& forall|i: int|
        0 <= i < fs.len() ==> {
            &&& (#[trigger] p.functions@[i]).type_index == (i + 1) as u32
            &&& p.functions@[i].locals@.len() == 0
            &&& p.functions@[i].body@ == wasi_body(fs[i])
            &&& p.function_types@[i + 1].params@ == wasi_params(fs[i])
            &&& p.function_types@[i + 1].results@ == wasi_results(fs[i])
        }
    &&& if fs.len() == 0 {
        p.exports@.len() == 0
    } else {
        p.exports@.len() == 1 && p.exports@[0].name@ == "main"@ && p.exports@[0].function_index == fs.len() as u32
    }
}

fn function_type_of(f: &GaiaFunction) -> (r: WasiFunctionType)
    ensures
        r.params@ == wasi_params(*f),
        r.results@ == wasi_results(*f),
{
    let mut params: Vec<WasmValueType> = Vec::new();
    let ps = &f.signature.params;
    let mut k: usize = 0;
    while k < ps.len()
        invariant
            k <= ps@.len(),
            ps == &f.signature.params,
            params@ == ps@.take(k as int).map_values(|t: GaiaType| wasm_type(t)),
        decreases ps.len() - k,
    {
        params.push(map_type(&ps[k]));
        k = k + 1;
        assert(params@ =~= ps@.take(k as int).map_values(|t: GaiaType| wasm_type(t)));
    }
    assert(ps@.take(k as int) =~= ps@);
    let mut results: Vec<WasmValueType> = Vec::new();
    match f.signature.return_type {
        GaiaType::Void => {},
        _ => results.push(map_type(&f.signature.return_type)),
    }
    assert(results@ =~= wasi_results(*f));
    WasiFunctionType { params, results }
}

/// The WebAssembly program of a module (`wasi_program_of`).
pub fn compile_program(program: &GaiaModule) -> (r: WasiProgram)
    ensures
        wasi_program_of(r, *program),
{
    let mut function_types: Vec<WasiFunctionType> = Vec::new();
    let mut params: Vec<WasmValueType> = Vec::new();
    params.push(WasmValueType::I32);
    params.push(WasmValueType::I32);
    params.push(WasmValueType::I32);
    params.push(WasmValueType::I32);
    let mut results: Vec<WasmValueType> = Vec::new();
    results.push(WasmValueType::I32);
    assert(params@ =~= seq![WasmValueType::I32, WasmValueType::I32, WasmValueType::I32, WasmValueType::I32]);
    assert(results@ =~= seq![WasmValueType::I32]);
    function_types.push(WasiFunctionType { params, results });
    let mut imports: Vec<WasiImport> = Vec::new();
    imports.push(WasiImport { module: owned("wasi_snapshot_preview1"), field: owned("fd_write"), type_index: 0 });
    let mut functions: Vec<WasiFunction> = Vec::new();
    let fs = &program.functions;
    let mut i: usize = 0;
    while i < fs.len()
        invariant
            i <= fs@.len(),
            fs == &program.functions,
            function_types@.len() == i + 1,
            fd_write_type(function_types@[0]),
            functions@.len() == i,
            forall|j: int|
                0 <= j < i ==> {
                    &&& (#[trigger] functions@[j]).type_index == (j + 1) as u32
                    &&& functions@[j].locals@.len() == 0
                    &&& functions@[j].body@ == wasi_body(fs@[j])
                    &&& function_types@[j + 1].params@ == wasi_params(fs@[j])
                    &&& function_types@[j + 1].results@ == wasi_results(fs@[j])
                },
        decreases fs.len() - i,
    {
        let f = &fs[i];
        let type_index = function_types.len() as u32;
        function_types.push(function_type_of(f));
        functions.push(WasiFunction { type_index, locals: Vec::new(), body: compile_body(f) });
        i = i + 1;
    }
    let mut exports: Vec<WasiExport> = Vec::new();
    if fs.len() > 0 {
        exports.push(WasiExport { name: owned("main"), function_index: fs.len() as u32 });
    }
    WasiProgram { function_types, imports, functions, exports }
}

} // verus!
