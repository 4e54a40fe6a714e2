//! Import from WebAssembly (WASI) instructions.
use vstd::prelude::*;
use super::{import_matches, ImportAdapter, ImportView};
use crate::bytes::{le_signed_value, le_value, pow256};
use crate::error::GaiaError;
use crate::export_adapters::wasi_export::WasiInstruction;
use crate::export_adapters::CodeView;
use crate::ir::{
    instr_views, ConstView, GaiaConstant, GaiaFunction, GaiaInstruction, GaiaProgram, GaiaType,
    InstrView,
};
use crate::target::{Architecture, ArchitectureView};
use crate::text::{decimal_text, format_u64, owned, push_str};

verus! {

/// Options of the WASI import.
#[derive(Debug, Clone)]
pub struct WasiImportConfig {
    pub parse_debug_info: bool,
    pub parse_custom_sections: bool,
    pub parse_import_export_tables: bool,
    pub target_wasm_version: u32,
}

impl WasiImportConfig {
    /// The default options.
    pub open spec fn is_default(&self) -> bool {
        &&& !self.parse_debug_info
        &&& !self.parse_custom_sections
        &&& self.parse_import_export_tables
        &&& self.target_wasm_version == 1
    }
}

impl Default for WasiImportConfig {
    fn default() -> (r: Self)
        ensures
            r.is_default(),
            !r.parse_debug_info,
            !r.parse_custom_sections,
            r.parse_import_export_tables,
            r.target_wasm_version == 1,
    {
        WasiImportConfig {
            parse_debug_info: false,
            parse_custom_sections: false,
            parse_import_export_tables: true,
            target_wasm_version: 1,
        }
    }
}

/// Import adapter from WebAssembly.
#[derive(Debug, Clone)]
pub struct WasiImportAdapter {
    config: WasiImportConfig,
}

pub open spec fn wasi_arch() -> ArchitectureView {
    ArchitectureView::Other("WASI"@)
}

/// What each WebAssembly instruction becomes.
pub open spec fn wasi_import_view(w: CodeView) -> ImportView {
    let ops = w.operands;
    let n = ops.len();
    if w.opcode == 0x00 {
        ImportView::Instr(InstrView::Comment("unreachable"@))
    } else if w.opcode == 0x01 {
        ImportView::Instr(InstrView::Comment("nop"@))
    } else if w.opcode == 0x41 {
        if n >= 4 {
            ImportView::Instr(
                InstrView::LoadConstant(ConstView::Integer32(le_signed_value(ops.take(4)) as i32)),
            )
        } else {
            ImportView::Invalid("i32.const requires 4 operand bytes"@)
        }
    } else if w.opcode == 0x42 {
        if n >= 8 {
            ImportView::Instr(
                InstrView::LoadConstant(ConstView::Integer64(le_signed_value(ops.take(8)) as i64)),
            )
        } else {
            ImportView::Invalid("i64.const requires 8 operand bytes"@)
        }
    } else if w.opcode == 0x43 {
        if n >= 4 {
            ImportView::FloatOperand("f32.const"@, Seq::empty())
        } else {
            ImportView::Invalid("f32.const requires 4 operand bytes"@)
        }
    } else if w.opcode == 0x44 {
        if n >= 8 {
            ImportView::FloatOperand("f64.const"@, Seq::empty())
        } else {
            ImportView::Invalid("f64.const requires 8 operand bytes"@)
        }
    } else if w.opcode == 0x20 {
        if n > 0 {
            ImportView::Instr(InstrView::LoadLocal(ops[0] as u32))
        } else {
            ImportView::Invalid("local.get requires operand"@)
        }
    } else if w.opcode == 0x21 {
        if n > 0 {
            ImportView::Instr(InstrView::StoreLocal(ops[0] as u32))
        } else {
            ImportView::Invalid("local.set requires operand"@)
        }
    } else if w.opcode == 0x22 {
        if n > 0 {
            ImportView::Instr(InstrView::StoreLocal(ops[0] as u32))
        } else {
            ImportView::Invalid("local.tee requires operand"@)
        }
    } else if w.opcode == 0x23 {
        if n > 0 {
            ImportView::Instr(InstrView::LoadArgument(ops[0] as u32))
        } else {
            ImportView::Invalid("global.get requires operand"@)
        }
    } else if w.opcode == 0x24 {
        if n > 0 {
            ImportView::Instr(InstrView::StoreArgument(ops[0] as u32))
        } else {
            ImportView::Invalid("global.set requires operand"@)
        }
    } else if w.opcode == 0x6A || w.opcode == 0x7C || w.opcode == 0x92 || w.opcode == 0xA0 {
        ImportView::Instr(InstrView::Add)
    } else if w.opcode == 0x6B || w.opcode == 0x7D || w.opcode == 0x93 || w.opcode == 0xA1 {
        ImportView::Instr(InstrView::Subtract)
    } else if w.opcode == 0x6C || w.opcode == 0x7E || w.opcode == 0x94 || w.opcode == 0xA2 {
        ImportView::Instr(InstrView::Multiply)
    } else if w.opcode == 0x6D || w.opcode == 0x6E || w.opcode == 0x7F || w.opcode == 0x80
        || w.opcode == 0x95 || w.opcode == 0xA3 {
        ImportView::Instr(InstrView::Divide)
    } else if w.opcode == 0x1A {
        ImportView::Instr(InstrView::Pop)
    } else if w.opcode == 0x1B {
        ImportView::Instr(InstrView::Duplicate)
    } else if w.opcode == 0x10 {
        if n > 0 {
            ImportView::Instr(InstrView::Call("function_"@ + decimal_text(ops[0] as int)))
        } else {
            ImportView::Invalid("call requires function index"@)
        }
    } else if w.opcode == 0x11 {
        ImportView::Instr(InstrView::Call("indirect_call"@))
    } else if w.opcode == 0x0F {
        ImportView::Instr(InstrView::Return)
    } else {
        ImportView::Instr(InstrView::Comment("Unsupported WASI instruction"@))
    }
}

/// The little-endian value of the first `n` bytes.
fn le_value_prefix(s: &Vec<u8>, n: usize) -> (r: u128)
    requires
        n <= s@.len(),
        n <= 8,
    ensures
        r == le_value(s@.take(n as int)),
        r < pow256(n as nat),
{
    let mut acc: u128 = 0;
    let mut k: usize = n;
    proof {
        lemma_pow256_mono(0, 8);
    }
    while k > 0
        invariant
            k <= n <= s@.len(),
            n <= 8,
            acc == le_value(s@.subrange(k as int, n as int)),
            acc < pow256((n - k) as nat),
            pow256((n - k) as nat) <= pow256(8),
        decreases k,
    {
        let ghost old_acc = acc;
        let b = s[k - 1];
        proof {
            let sub = s@.subrange(k - 1, n as int);
            assert(sub.drop_first() =~= s@.subrange(k as int, n as int));
            assert(sub[0] == b);
            assert(pow256((n - k + 1) as nat) == 256 * pow256((n - k) as nat));
            lemma_pow256_mono((n - k + 1) as nat, 8);
            reveal_with_fuel(pow256, 9);
        }
        acc = acc * 256 + b as u128;
        k = k - 1;
    }
    assert(s@.subrange(0, n as int) =~= s@.take(n as int));
    acc
}

proof fn lemma_pow256_mono(a: nat, b: nat)
    requires
        a <= b,
    ensures
        pow256(a) <= pow256(b),
    decreases b,
{
    if a < b {
        lemma_pow256_mono(a, (b - 1) as nat);
    }
}

fn err(message: &str) -> (r: Result<GaiaInstruction, GaiaError>)
    ensures
        import_matches(r, ImportView::Invalid(message@), wasi_arch()),
{
    Err(GaiaError::invalid_instruction(message, Architecture::Other(owned("WASI"))))
}

impl WasiImportAdapter {
    /// An adapter with the default options.
    pub fn new() -> (r: Self)
        ensures
            r.config().is_default(),
            r.config().target_wasm_version == 1,
    {
        WasiImportAdapter { config: WasiImportConfig::default() }
    }

    /// An adapter with the given options.
    pub fn with_config(config: WasiImportConfig) -> (r: Self)
        ensures
            r.config() == config,
    {
        WasiImportAdapter { config }
    }

    pub closed spec fn config(&self) -> WasiImportConfig {
        self.config
    }

    /// Sets the WebAssembly version to target.
    pub fn set_target_wasm_version(&mut self, version: u32)
        ensures
            final(self).config() == (WasiImportConfig {
                target_wasm_version: version,
                ..old(self).config()
            }),
    {
        self.config.target_wasm_version = version;
    }
}

impl Default for WasiImportAdapter {
    fn default() -> (r: Self)
        ensures
            r.config().target_wasm_version == 1,
    {
        Self::new()
    }
}

impl ImportAdapter<WasiInstruction> for WasiImportAdapter {
    fn import_instruction(&self, wasi_instruction: &WasiInstruction) -> (r: Result<
        GaiaInstruction,
        GaiaError,
    >)
        ensures
            import_matches(r, wasi_import_view(wasi_instruction@), wasi_arch()),
    {
        let ops = &wasi_instruction.operands;
        let n = ops.len();
        let op = wasi_instruction.opcode;
        if op == 0x00 {
            Ok(GaiaInstruction::Comment(owned("unreachable")))
        } else if op == 0x01 {
            Ok(GaiaInstruction::Comment(owned("nop")))
        } else if op == 0x41 {
            if n >= 4 {
                proof {
                    reveal_with_fuel(pow256, 5);
                }
                let u = le_value_prefix(ops, 4);
                let v: i32 = if u >= 2147483648 {
                    (u as i64 - 4294967296i64) as i32
                } else {
                    u as i32
                };
                Ok(GaiaInstruction::LoadConstant(GaiaConstant::Integer32(v)))
            } else {
                err("i32.const requires 4 operand bytes")
            }
        } else if op == 0x42 {
            if n >= 8 {
                proof {
                    reveal_with_fuel(pow256, 9);
                }
                let u = le_value_prefix(ops, 8);
                let v: i64 = if u >= 9223372036854775808 {
                    (u as i128 - 18446744073709551616i128) as i64
                } else {
                    u as i64
                };
                Ok(GaiaInstruction::LoadConstant(GaiaConstant::Integer64(v)))
            } else {
                err("i64.const requires 8 operand bytes")
            }
        } else if op == 0x43 {
            if n >= 4 {
                Err(GaiaError::FloatLiteral { opcode: owned("f32.const"), text: String::new() })
            } else {
                err("f32.const requires 4 operand bytes")
            }
        } else if op == 0x44 {
            if n >= 8 {
                Err(GaiaError::FloatLiteral { opcode: owned("f64.const"), text: String::new() })
            } else {
                err("f64.const requires 8 operand bytes")
            }
        } else if op == 0x20 {
            if n > 0 {
                Ok(GaiaInstruction::LoadLocal(ops[0] as u32))
            } else {
                err("local.get requires operand")
            }
        } else if op == 0x21 {
            if n > 0 {
                Ok(GaiaInstruction::StoreLocal(ops[0] as u32))
            } else {
                err("local.set requires operand")
            }
        } else if op == 0x22 {
            if n > 0 {
                Ok(GaiaInstruction::StoreLocal(ops[0] as u32))
            } else {
                err("local.tee requires operand")
            }
        } else if op == 0x23 {
            if n > 0 {
                Ok(GaiaInstruction::LoadArgument(ops[0] as u32))
            } else {
                err("global.get requires operand")
            }
        } else if op == 0x24 {
            if n > 0 {
                Ok(GaiaInstruction::StoreArgument(ops[0] as u32))
            } else {
                err("global.set requires operand")
            }
        } else if op == 0x6A || op == 0x7C || op == 0x92 || op == 0xA0 {
            Ok(GaiaInstruction::Add)
        } else if op == 0x6B || op == 0x7D || op == 0x93 || op == 0xA1 {
            Ok(GaiaInstruction::Subtract)
        } else if op == 0x6C || op == 0x7E || op == 0x94 || op == 0xA2 {
            Ok(GaiaInstruction::Multiply)
        } else if op == 0x6D || op == 0x6E || op == 0x7F || op == 0x80 || op == 0x95 || op
            == 0xA3 {
            Ok(GaiaInstruction::Divide)
        } else if op == 0x1A {
            Ok(GaiaInstruction::Pop)
        } else if op == 0x1B {
            Ok(GaiaInstruction::Duplicate)
        } else if op == 0x10 {
            if n > 0 {
                let mut name = owned("function_");
                let digits = format_u64(ops[0] as u64);
                push_str(&mut name, digits.as_str());
                Ok(GaiaInstruction::Call(name))
            } else {
                err("call requires function index")
            }
        } else if op == 0x11 {
            Ok(GaiaInstruction::Call(owned("indirect_call")))
        } else if op == 0x0F {
            Ok(GaiaInstruction::Return)
        } else {
            Ok(GaiaInstruction::Comment(owned("Unsupported WASI instruction")))
        }
    }

    fn import_program(&self, wasi_instructions: &[WasiInstruction]) -> (r: Result<
        GaiaProgram,
        GaiaError,
    >)
        ensures
            match r {
                Ok(p) => {
                    &&& p.name@ == "ImportedWasiProgram"@
                    &&& p.constants@.len() == 0
                    &&& p.functions@.len() == 1
                    &&& p.functions@[0].name@ == "_start"@
                    &&& p.functions@[0].parameters@.len() == 0
                    &&& p.functions@[0].return_type matches Some(GaiaType::Integer32)
                    &&& p.functions@[0].locals@.len() == 0
                    &&& p.functions@[0].instructions@.len() == wasi_instructions@.len()
                    &&& forall|k: int|
                        0 <= k < wasi_instructions@.len() ==> wasi_import_view(
                            #[trigger] wasi_instructions@[k]@,
                        ) == ImportView::Instr(p.functions@[0].instructions@[k]@)
                },
                Err(e) => exists|k: int|
                    0 <= k < wasi_instructions@.len() && (forall|j: int|
                        0 <= j < k ==> #[trigger] wasi_import_view(wasi_instructions@[j]@) is Instr)
                        && import_matches(
                        Err(e),
                        wasi_import_view(wasi_instructions@[k]@),
                        wasi_arch(),
                    ),
            },
    {
        let mut instructions: Vec<GaiaInstruction> = Vec::new();
        let mut k: usize = 0;
        while k < wasi_instructions.len()
            invariant
                k <= wasi_instructions@.len(),
                instructions@.len() == k,
                forall|j: int|
                    0 <= j < k ==> wasi_import_view(#[trigger] wasi_instructions@[j]@)
                        == ImportView::Instr(instructions@[j]@),
            decreases wasi_instructions@.len() - k,
        {
            let r = self.import_instruction(&wasi_instructions[k]);
            match r {
                Ok(g) => {
                    instructions.push(g);
                },
                Err(e) => {
                    assert(forall|j: int|
                        0 <= j < k ==> #[trigger] wasi_import_view(wasi_instructions@[j]@) is Instr);
                    return Err(e);
                },
            }
            k = k + 1;
        }
        let main_function = GaiaFunction {
            name: owned("_start"),
            parameters: Vec::new(),
            return_type: Some(GaiaType::Integer32),
            locals: Vec::new(),
            instructions,
        };
        Ok(
            GaiaProgram {
                name: owned("ImportedWasiProgram"),
                functions: vec![main_function],
                constants: Vec::new(),
            },
        )
    }

    fn adapter_name(&self) -> (r: &'static str)
        ensures
            r@ == "WASI Import Adapter"@,
    {
        "WASI Import Adapter"
    }
}

} // verus!

verus! {

/// The flat instructions that come back unchanged from WebAssembly: 32- and
/// 64-bit integer constants, locals below 128 (one LEB128 byte), returns,
/// the four arithmetic operations and `Pop`.
pub open spec fn wasi_round_trips(i: InstrView) -> bool {
    match i {
        InstrView::LoadConstant(ConstView::Integer32(_)) => true,
        InstrView::LoadConstant(ConstView::Integer64(_)) => true,
        InstrView::LoadLocal(index) => index < 128,
        InstrView::StoreLocal(index) => index < 128,
        InstrView::Return => true,
        InstrView::Add => true,
        InstrView::Subtract => true,
        InstrView::Multiply => true,
        InstrView::Divide => true,
        InstrView::Pop => true,
        _ => false,
    }
}

/// Exporting an instruction to WebAssembly and importing the result gives
/// the instruction back, for every instruction that the WebAssembly form
/// can carry whole.
pub proof fn law_wasi_round_trip(i: GaiaInstruction)
    requires
        wasi_round_trips(i@),
    ensures
        wasi_import_view(crate::export_adapters::wasi_export::wasi_export_view(i))
            == ImportView::Instr(i@),
{
    crate::bytes::lemma_pow256_values();
    match i {
        GaiaInstruction::LoadConstant(GaiaConstant::Integer32(v)) => {
            crate::bytes::lemma_le_bytes_signed_roundtrip(v as int, 4);
            assert(crate::bytes::le_bytes(v as int, 4).take(4) =~= crate::bytes::le_bytes(
                v as int,
                4,
            ));
        },
        GaiaInstruction::LoadConstant(GaiaConstant::Integer64(v)) => {
            crate::bytes::lemma_le_bytes_signed_roundtrip(v as int, 8);
            assert(crate::bytes::le_bytes(v as int, 8).take(8) =~= crate::bytes::le_bytes(
                v as int,
                8,
            ));
        },
        _ => {},
    }
}

} // verus!
