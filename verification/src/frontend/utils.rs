//! Services on program descriptors and source trees: version, formatting,
//! completion, validation, optimisation, templates.
use vstd::prelude::*;
use crate::frontend::{
    AstNode, AstNodeType, CompletionItem, CompletionType, DataType, DescriptorFormat, Diagnostic,
    ControlFlowEdge, ControlFlowNode, FormatOptions, GaiaDescriptor, Instruction, InstructionEntry,
    OptimizationOptions, SourceLocation, SourceRange, SymbolInfo, SymbolType, ValidationError,
    ValidationResult, ValidationWarning,
};
use crate::text::{
    copy_string, decimal_text, format_i64, format_u64, owned, parse_i64, parse_i64_spec, push_str,
    str_eq, string_views,
};
use crate::frontend::lexical::{trim, trimmed};

verus! {

/// The version line of the assembler.
pub fn get_version() -> (r: String)
    ensures
        r@ == "Gaia Assembler v0.1.0"@,
{
    owned("Gaia Assembler v0.1.0")
}

/// Where the cursor stands, for completion.
#[derive(Debug, Clone, Copy, PartialEq, Eq, Structural)]
pub enum CompletionContext {
    Instruction,
    Type,
    Variable,
    Function,
    General,
}

/// Whether a position lies in a range: its line and its column each lie
/// between those of the two ends, both included.
pub open spec fn in_range(p: SourceLocation, r: SourceRange) -> bool {
    r.start.line <= p.line <= r.end.line && r.start.column <= p.column <= r.end.column
}

pub fn is_position_in_range(position: &SourceLocation, range: &SourceRange) -> (r: bool)
    ensures
        r == in_range(*position, *range),
{
    position.line >= range.start.line && position.line <= range.end.line && position.column
        >= range.start.column && position.column <= range.end.column
}

/// The innermost node whose span holds the position: the node itself when
/// its span holds it and no child's search finds one, the first child's
/// find otherwise; nothing when the node has no span or it misses.
pub open spec fn node_at(n: AstNode, p: SourceLocation) -> Option<AstNode>
    decreases n, 1nat,
{
    match n.location {
        Some(r) => if in_range(p, r) {
            match first_found(n.children@, p) {
                Some(f) => Some(f),
                None => Some(n),
            }
        } else {
            None
        },
        None => None,
    }
}

/// The find of the first child, in order, whose search finds a node.
pub open spec fn first_found(cs: Seq<AstNode>, p: SourceLocation) -> Option<AstNode>
    decreases cs, 0nat,
{
    if cs.len() == 0 {
        None
    } else {
        match node_at(cs[0], p) {
            Some(f) => Some(f),
            None => first_found(cs.drop_first(), p),
        }
    }
}

proof fn lemma_first_found_split(cs: Seq<AstNode>, i: int, p: SourceLocation)
    requires
        0 <= i < cs.len(),
        forall|j: int| 0 <= j < i ==> node_at(#[trigger] cs[j], p) is None,
    ensures
        first_found(cs, p) == first_found(cs.skip(i), p),
    decreases i,
{
    if i > 0 {
        assert(node_at(cs[0], p) is None);
        assert forall|j: int| 0 <= j < i - 1 implies node_at(#[trigger] cs.drop_first()[j], p) is None by {
            assert(cs.drop_first()[j] == cs[j + 1]);
        }
        lemma_first_found_split(cs.drop_first(), i - 1, p);
        assert(cs.drop_first().skip(i - 1) =~= cs.skip(i));
    } else {
        assert(cs.skip(0) =~= cs);
    }
}

/// The innermost node at a position (see `node_at`).
pub fn find_node_at_position<'a>(node: &'a AstNode, position: &SourceLocation) -> (r: Option<&'a AstNode>)
    ensures
        match r {
            Some(x) => node_at(*node, *position) == Some(*x),
            None => node_at(*node, *position) is None,
        },
    decreases node,
{
    match &node.location {
        Some(range) => {
            if is_position_in_range(position, range) {
                let n = node.children.len();
                let mut i: usize = 0;
                while i < n
                    invariant
                        i <= n == node.children@.len(),
                        node.location == Some(*range),
                        in_range(*position, *range),
                        forall|j: int| 0 <= j < i ==> node_at(#[trigger] node.children@[j], *position) is None,
                    decreases n - i,
                {
                    proof {
                        assert(decreases_to!(node => node.children@[i as int]));
                    }
                    match find_node_at_position(&node.children[i], position) {
                        Some(found) => {
                            proof {
                                lemma_first_found_split(node.children@, i as int, *position);
                                assert(node.children@.skip(i as int)[0] == node.children@[i as int]);
                            }
                            return Some(found);
                        },
                        None => {},
                    }
                    i = i + 1;
                }
                proof {
                    if n > 0 {
                        lemma_first_found_split(node.children@, n - 1, *position);
                        assert(node.children@.skip(n - 1)[0] == node.children@[n - 1]);
                        assert(node.children@.skip(n - 1).drop_first().len() == 0);
                        assert(first_found(node.children@.skip(n - 1).drop_first(), *position) is None);
                        assert(node_at(node.children@[n - 1], *position) is None);
                    }
                    assert(first_found(node.children@, *position) is None);
                }
                Some(node)
            } else {
                None
            }
        },
        None => None,
    }
}

/// The context of a node kind: definitions of functions ask for functions,
/// declarations of variables ask for types, instructions ask for
/// instructions, anything else is general.
pub open spec fn context_of(t: AstNodeType) -> CompletionContext {
    match t {
        AstNodeType::FunctionDef => CompletionContext::Function,
        AstNodeType::VariableDecl => CompletionContext::Type,
        AstNodeType::Instruction => CompletionContext::Instruction,
        _ => CompletionContext::General,
    }
}

/// The completion context at a position of a source tree: that of the
/// innermost node there, or general when there is none.
pub fn analyze_completion_context(ast: &AstNode, position: &SourceLocation) -> (r: CompletionContext)
    ensures
        r == (match node_at(*ast, *position) {
            Some(n) => context_of(n.node_type),
            None => CompletionContext::General,
        }),
{
    match find_node_at_position(ast, position) {
        Some(node) => match node.node_type {
            AstNodeType::FunctionDef => CompletionContext::Function,
            AstNodeType::VariableDecl => CompletionContext::Type,
            AstNodeType::Instruction => CompletionContext::Instruction,
            _ => CompletionContext::General,
        },
        None => CompletionContext::General,
    }
}

/// The completion context at a position of a descriptor, which carries no
/// source tree: always general.
pub fn analyze_completion_context_from_descriptor(
    descriptor: &GaiaDescriptor,
    position: &SourceLocation,
) -> (r: CompletionContext)
    ensures
        r == CompletionContext::General,
{
    CompletionContext::General
}

/// A completion suggestion as a mathematical value.
pub ghost struct CompletionView {
    pub label: Seq<char>,
    pub kind: CompletionType,
    pub detail: Option<Seq<char>>,
    pub documentation: Option<Seq<char>>,
    pub insert_text: Option<Seq<char>>,
    pub filter_text: Option<Seq<char>>,
    pub sort_text: Option<Seq<char>>,
    pub additional_text_edits: Seq<Seq<char>>,
}

/// The text of an optional string.
pub open spec fn opt_str(o: Option<String>) -> Option<Seq<char>> {
    match o {
        Some(s) => Some(s@),
        None => None,
    }
}

pub open spec fn item_view(c: CompletionItem) -> CompletionView {
    CompletionView {
        label: c.label@,
        kind: c.kind,
        detail: opt_str(c.detail),
        documentation: opt_str(c.documentation),
        insert_text: opt_str(c.insert_text),
        filter_text: opt_str(c.filter_text),
        sort_text: opt_str(c.sort_text),
        additional_text_edits: string_views(c.additional_text_edits@),
    }
}

pub open spec fn items_view(v: Seq<CompletionItem>) -> Seq<CompletionView> {
    v.map_values(|c: CompletionItem| item_view(c))
}

/// A suggestion with a label, a kind, a detail and a documentation, whose
/// inserted text is the label.
pub open spec fn simple_item(
    label: Seq<char>,
    kind: CompletionType,
    detail: Seq<char>,
    doc: Seq<char>,
) -> CompletionView {
    CompletionView {
        label,
        kind,
        detail: Some(detail),
        documentation: Some(doc),
        insert_text: Some(label),
        filter_text: None,
        sort_text: None,
        additional_text_edits: seq![],
    }
}

/// The suggestion for an instruction: documented as a Gaia assembly
/// instruction.
pub open spec fn instruction_item(name: Seq<char>, desc: Seq<char>) -> CompletionView {
    simple_item(name, CompletionType::Keyword, desc, "Gaia 汇编指令: "@ + desc)
}

/// The suggestion for a data type.
pub open spec fn type_item(name: Seq<char>, desc: Seq<char>) -> CompletionView {
    simple_item(name, CompletionType::Type, desc, "数据类型: "@ + desc)
}

/// The instructions suggested, in order.
pub open spec fn instruction_items() -> Seq<CompletionView> {
    seq![
        instruction_item("load"@, "加载指令"@),
        instruction_item("store"@, "存储指令"@),
        instruction_item("add"@, "加法指令"@),
        instruction_item("sub"@, "减法指令"@),
        instruction_item("mul"@, "乘法指令"@),
        instruction_item("div"@, "除法指令"@),
        instruction_item("br"@, "跳转指令"@),
        instruction_item("call"@, "调用指令"@),
        instruction_item("ret"@, "返回指令"@),
    ]
}

/// The data types suggested, in order.
pub open spec fn type_items() -> Seq<CompletionView> {
    seq![
        type_item("i32"@, "32位整数"@),
        type_item("i64"@, "64位整数"@),
        type_item("f32"@, "32位浮点数"@),
        type_item("f64"@, "64位浮点数"@),
        type_item("bool"@, "布尔值"@),
        type_item("string"@, "字符串"@),
    ]
}

fn push_simple_item(
    completions: &mut Vec<CompletionItem>,
    label: &str,
    kind: CompletionType,
    detail: &str,
    doc_prefix: &str,
)
    ensures
        items_view(final(completions)@) == items_view(old(completions)@).push(
            simple_item(label@, kind, detail@, doc_prefix@ + detail@),
        ),
{
    let mut doc = owned(doc_prefix);
    push_str(&mut doc, detail);
    let item = CompletionItem {
        label: owned(label),
        kind,
        detail: Some(owned(detail)),
        documentation: Some(doc),
        insert_text: Some(owned(label)),
        filter_text: None,
        sort_text: None,
        additional_text_edits: Vec::new(),
    };
    assert(string_views(item.additional_text_edits@) =~= seq![]);
    completions.push(item);
    assert(items_view(completions@) =~= items_view(old(completions)@).push(item_view(item)));
}

/// Appends the instruction suggestions.
pub fn add_instruction_completions(completions: &mut Vec<CompletionItem>)
    ensures
        items_view(final(completions)@) == items_view(old(completions)@) + instruction_items(),
{
    let k = CompletionType::Keyword;
    let p = "Gaia 汇编指令: ";
    push_simple_item(completions, "load", k, "加载指令", p);
    push_simple_item(completions, "store", k, "存储指令", p);
    push_simple_item(completions, "add", k, "加法指令", p);
    push_simple_item(completions, "sub", k, "减法指令", p);
    push_simple_item(completions, "mul", k, "乘法指令", p);
    push_simple_item(completions, "div", k, "除法指令", p);
    push_simple_item(completions, "br", k, "跳转指令", p);
    push_simple_item(completions, "call", k, "调用指令", p);
    push_simple_item(completions, "ret", k, "返回指令", p);
    assert(items_view(completions@) =~= items_view(old(completions)@) + instruction_items());
}

/// Appends the data-type suggestions.
pub fn add_type_completions(completions: &mut Vec<CompletionItem>)
    ensures
        items_view(final(completions)@) == items_view(old(completions)@) + type_items(),
{
    let k = CompletionType::Type;
    let p = "数据类型: ";
    push_simple_item(completions, "i32", k, "32位整数", p);
    push_simple_item(completions, "i64", k, "64位整数", p);
    push_simple_item(completions, "f32", k, "32位浮点数", p);
    push_simple_item(completions, "f64", k, "64位浮点数", p);
    push_simple_item(completions, "bool", k, "布尔值", p);
    push_simple_item(completions, "string", k, "字符串", p);
    assert(items_view(completions@) =~= items_view(old(completions)@) + type_items());
}

/// The name `{:?}` gives a data type.
pub open spec fn data_type_name(d: DataType) -> Seq<char> {
    match d {
        DataType::I32 => "I32"@,
        DataType::I64 => "I64"@,
        DataType::F32 => "F32"@,
        DataType::F64 => "F64"@,
        DataType::Bool => "Bool"@,
        DataType::Str => "Str"@,
        DataType::Void => "Void"@,
    }
}

/// The debug name of a data type.
pub fn data_type_debug(d: DataType) -> (r: String)
    ensures
        r@ == data_type_name(d),
{
    match d {
        DataType::I32 => owned("I32"),
        DataType::I64 => owned("I64"),
        DataType::F32 => owned("F32"),
        DataType::F64 => owned("F64"),
        DataType::Bool => owned("Bool"),
        DataType::Str => owned("Str"),
        DataType::Void => owned("Void"),
    }
}

/// The suggestion for a variable symbol.
pub open spec fn variable_symbol_item(s: SymbolInfo) -> CompletionView {
    CompletionView {
        label: s.name@,
        kind: CompletionType::Variable,
        detail: Some("变量: "@ + data_type_name(s.data_type)),
        documentation: None,
        insert_text: Some(s.name@),
        filter_text: Some(s.name@),
        sort_text: Some("1_"@ + s.name@),
        additional_text_edits: seq![],
    }
}

/// The suggestion for a function symbol: inserting it writes a call.
pub open spec fn function_symbol_item(s: SymbolInfo) -> CompletionView {
    CompletionView {
        label: s.name@,
        kind: CompletionType::Function,
        detail: Some("函数"@),
        documentation: None,
        insert_text: Some(s.name@ + "()"@),
        filter_text: Some(s.name@),
        sort_text: Some("2_"@ + s.name@),
        additional_text_edits: seq![],
    }
}

/// Suggestions for the symbols of kind `t`, in order.
pub open spec fn symbol_items(syms: Seq<SymbolInfo>, t: SymbolType) -> Seq<CompletionView>
    decreases syms.len(),
{
    if syms.len() == 0 {
        seq![]
    } else {
        let rest = symbol_items(syms.drop_last(), t);
        if syms.last().symbol_type == t {
            rest.push(
                if t == SymbolType::Variable {
                    variable_symbol_item(syms.last())
                } else {
                    function_symbol_item(syms.last())
                },
            )
        } else {
            rest
        }
    }
}

fn push_symbol_items(completions: &mut Vec<CompletionItem>, descriptor: &GaiaDescriptor, t: SymbolType)
    requires
        t == SymbolType::Variable || t == SymbolType::Function,
    ensures
        items_view(final(completions)@) == items_view(old(completions)@) + symbol_items(
            descriptor.symbols@,
            t,
        ),
{
    let syms = &descriptor.symbols;
    let mut i: usize = 0;
    while i < syms.len()
        invariant
            i <= syms@.len(),
            syms == &descriptor.symbols,
            t == SymbolType::Variable || t == SymbolType::Function,
            items_view(completions@) == items_view(old(completions)@) + symbol_items(
                syms@.take(i as int),
                t,
            ),
        decreases syms.len() - i,
    {
        let sym = &syms[i];
        let ghost before = completions@;
        proof {
            assert(syms@.take(i + 1).drop_last() =~= syms@.take(i as int));
        }
        if sym.symbol_type == t {
            let (prefix, detail, insert) = if t == SymbolType::Variable {
                let mut d = owned("变量: ");
                let n = data_type_debug(sym.data_type);
                push_str(&mut d, n.as_str());
                (owned("1_"), d, copy_string(&sym.name))
            } else {
                let mut ins = copy_string(&sym.name);
                push_str(&mut ins, "()");
                (owned("2_"), owned("函数"), ins)
            };
            let mut sort = prefix;
            push_str(&mut sort, sym.name.as_str());
            let item = CompletionItem {
                label: copy_string(&sym.name),
                kind: if t == SymbolType::Variable {
                    CompletionType::Variable
                } else {
                    CompletionType::Function
                },
                detail: Some(detail),
                documentation: None,
                insert_text: Some(insert),
                filter_text: Some(copy_string(&sym.name)),
                sort_text: Some(sort),
                additional_text_edits: Vec::new(),
            };
            assert(string_views(item.additional_text_edits@) =~= seq![]);
            completions.push(item);
            assert(items_view(completions@) =~= items_view(before).push(item_view(item)));
        }
        i = i + 1;
    }
    assert(syms@.take(i as int) =~= syms@);
}

/// Appends a suggestion for each variable symbol of the descriptor.
pub fn add_variable_completions_from_descriptor(
    completions: &mut Vec<CompletionItem>,
    descriptor: &GaiaDescriptor,
)
    ensures
        items_view(final(completions)@) == items_view(old(completions)@) + symbol_items(
            descriptor.symbols@,
            SymbolType::Variable,
        ),
{
    push_symbol_items(completions, descriptor, SymbolType::Variable);
}

/// Appends a suggestion for each function symbol of the descriptor.
pub fn add_function_completions_from_descriptor(
    completions: &mut Vec<CompletionItem>,
    descriptor: &GaiaDescriptor,
)
    ensures
        items_view(final(completions)@) == items_view(old(completions)@) + symbol_items(
            descriptor.symbols@,
            SymbolType::Function,
        ),
{
    push_symbol_items(completions, descriptor, SymbolType::Function);
}

/// Completion suggestions at a position of a descriptor. A descriptor gives
/// a general context, which suggests the instructions, then the data types.
pub fn get_completions(descriptor: GaiaDescriptor, position: SourceLocation, target: crate::frontend::Target) -> (r: Vec<CompletionItem>)
    ensures
        items_view(r@) == instruction_items() + type_items(),
{
    let mut completions: Vec<CompletionItem> = Vec::new();
    let context = analyze_completion_context_from_descriptor(&descriptor, &position);
    assert(items_view(completions@) =~= seq![]);
    match context {
        CompletionContext::Instruction => {
            add_instruction_completions(&mut completions);
        },
        CompletionContext::Type => {
            add_type_completions(&mut completions);
        },
        CompletionContext::Variable => {
            add_variable_completions_from_descriptor(&mut completions, &descriptor);
        },
        CompletionContext::Function => {
            add_function_completions_from_descriptor(&mut completions, &descriptor);
        },
        CompletionContext::General => {
            add_instruction_completions(&mut completions);
            add_type_completions(&mut completions);
        },
    }
    assert(items_view(completions@) =~= instruction_items() + type_items());
    completions
}

/// Formats one instruction entry; entries carry no layout, so it stays as it is.
pub fn format_instruction_entry(instruction_entry: &mut InstructionEntry, options: &FormatOptions)
    ensures
        *final(instruction_entry) == *old(instruction_entry),
{
}

/// Formats one symbol; symbols carry no layout, so it stays as it is.
pub fn format_symbol_info(symbol: &mut SymbolInfo, options: &FormatOptions)
    ensures
        *final(symbol) == *old(symbol),
{
}

/// Whether two descriptors hold the same instructions, symbols and
/// control-flow graph.
pub open spec fn same_descriptor(a: GaiaDescriptor, b: GaiaDescriptor) -> bool {
    &&& a.instructions@ == b.instructions@
    &&& a.symbols@ == b.symbols@
    &&& a.control_flow.nodes@ == b.control_flow.nodes@
    &&& a.control_flow.edges@ == b.control_flow.edges@
}

/// Formats a descriptor: each instruction entry, then each symbol. The
/// descriptor comes back with the same contents.
pub fn format_descriptor(descriptor: GaiaDescriptor, options: FormatOptions) -> (r: Result<
    GaiaDescriptor,
    Vec<Diagnostic>,
>)
    ensures
        r matches Ok(d) && same_descriptor(d, descriptor),
{
    let ghost original = descriptor;
    let mut formatted = descriptor;
    let mut i: usize = 0;
    while i < formatted.instructions.len()
        invariant
            i <= formatted.instructions@.len(),
            same_descriptor(formatted, original),
        decreases formatted.instructions@.len() - i,
    {
        format_instruction_entry(&mut formatted.instructions[i], &options);
        assert(formatted.instructions@ =~= original.instructions@);
        i = i + 1;
    }
    let mut j: usize = 0;
    while j < formatted.symbols.len()
        invariant
            j <= formatted.symbols@.len(),
            same_descriptor(formatted, original),
        decreases formatted.symbols@.len() - j,
    {
        format_symbol_info(&mut formatted.symbols[j], &options);
        assert(formatted.symbols@ =~= original.symbols@);
        j = j + 1;
    }
    Ok(formatted)
}

/// Formatting is idempotent: formatting again what formatting gave has the
/// same instructions, symbols and control flow as the first result, and as
/// the descriptor it started from.
pub proof fn law_format_idempotent(d: GaiaDescriptor, once: GaiaDescriptor, twice: GaiaDescriptor)
    requires
        same_descriptor(once, d),
        same_descriptor(twice, once),
    ensures
        same_descriptor(twice, once),
        same_descriptor(twice, d),
        twice.instructions@.len() == d.instructions@.len(),
        twice.symbols@.len() == d.symbols@.len(),
{
}

/// Constant folding over a descriptor's instructions: none of its
/// instructions carries a constant, so the descriptor stays as it is.
pub fn fold_constants_in_descriptor(descriptor: GaiaDescriptor) -> (r: GaiaDescriptor)
    ensures
        r == descriptor,
{
    descriptor
}

/// Dead-code elimination over a descriptor: it stays as it is.
pub fn eliminate_dead_code_in_descriptor(descriptor: GaiaDescriptor) -> (r: GaiaDescriptor)
    ensures
        r == descriptor,
{
    descriptor
}

/// Instruction combining over a descriptor: it stays as it is.
pub fn combine_instructions(descriptor: GaiaDescriptor) -> (r: GaiaDescriptor)
    ensures
        r == descriptor,
{
    descriptor
}

/// Optimises a descriptor: constant folding and dead-code elimination unless
/// switched off, instruction combining only when switched on. Each pass
/// keeps the descriptor, so it comes back as it was.
pub fn optimize_descriptor(descriptor: GaiaDescriptor, options: OptimizationOptions) -> (r: Result<
    GaiaDescriptor,
    Vec<Diagnostic>,
>)
    ensures
        r == Ok::<GaiaDescriptor, Vec<Diagnostic>>(descriptor),
{
    let mut optimized = descriptor;
    if options.constant_folding.unwrap_or(true) {
        optimized = fold_constants_in_descriptor(optimized);
    }
    if options.dead_code_elimination.unwrap_or(true) {
        optimized = eliminate_dead_code_in_descriptor(optimized);
    }
    if options.instruction_combining.unwrap_or(false) {
        optimized = combine_instructions(optimized);
    }
    Ok(optimized)
}

/// Converts a descriptor to another format; the in-memory descriptor is the
/// same in every format, so it comes back as it was.
pub fn convert_format(descriptor: GaiaDescriptor, target_format: DescriptorFormat) -> (r: Result<
    GaiaDescriptor,
    Vec<Diagnostic>,
>)
    ensures
        r == Ok::<GaiaDescriptor, Vec<Diagnostic>>(descriptor),
{
    let converted = descriptor;
    match target_format {
        DescriptorFormat::Binary => {},
        DescriptorFormat::Json => {},
        DescriptorFormat::Xml => {},
        DescriptorFormat::Yaml => {},
    }
    Ok(converted)
}

/// The symbol a call refers to: `call_target_` and the decimal index.
pub open spec fn call_target_name(n: u32) -> Seq<char> {
    "call_target_"@ + decimal_text(n as int)
}

/// The symbol an instruction refers to, if any (only calls refer to one).
pub open spec fn symbol_ref(i: Instruction) -> Option<Seq<char>> {
    match i {
        Instruction::Call(n) => Some(call_target_name(n)),
        _ => None,
    }
}

/// The symbol an instruction refers to.
pub fn extract_symbol_reference_from_instruction(instruction: &Instruction) -> (r: Option<String>)
    ensures
        opt_str(r) == symbol_ref(*instruction),
{
    match instruction {
        Instruction::Call(call_op) => {
            let mut name = owned("call_target_");
            let digits = format_u64(*call_op as u64);
            push_str(&mut name, digits.as_str());
            Some(name)
        },
        _ => None,
    }
}

/// A validation finding as a mathematical value: message, place, code.
pub ghost struct IssueView {
    pub message: Seq<char>,
    pub location: Option<SourceRange>,
    pub code: Seq<char>,
}

pub open spec fn error_views(v: Seq<ValidationError>) -> Seq<IssueView> {
    v.map_values(
        |e: ValidationError| IssueView { message: e.message@, location: e.location, code: e.error_code@ },
    )
}

pub open spec fn warning_views(v: Seq<ValidationWarning>) -> Seq<IssueView> {
    v.map_values(
        |w: ValidationWarning|
            IssueView { message: w.message@, location: w.location, code: w.warning_code@ },
    )
}

/// Whether a symbol of that name is defined.
pub open spec fn has_symbol(syms: Seq<SymbolInfo>, name: Seq<char>) -> bool {
    exists|k: int| 0 <= k < syms.len() && (#[trigger] syms[k]).name@ == name
}

/// Whether a node of that id exists.
pub open spec fn has_node(nodes: Seq<ControlFlowNode>, id: u32) -> bool {
    exists|k: int| 0 <= k < nodes.len() && (#[trigger] nodes[k]).id == id
}

/// One `E001` error for each instruction, in order, that refers to a symbol
/// that is not defined.
pub open spec fn undefined_symbol_errors(
    instrs: Seq<InstructionEntry>,
    syms: Seq<SymbolInfo>,
) -> Seq<IssueView>
    decreases instrs.len(),
{
    if instrs.len() == 0 {
        seq![]
    } else {
        let rest = undefined_symbol_errors(instrs.drop_last(), syms);
        let e = instrs.last();
        match symbol_ref(e.instruction) {
            Some(name) => if has_symbol(syms, name) {
                rest
            } else {
                rest.push(
                    IssueView {
                        message: "未定义的符号引用: "@ + name,
                        location: e.location,
                        code: "E001"@,
                    },
                )
            },
            None => rest,
        }
    }
}

/// One `E002` error for each edge, in order, with an end that is not a node.
pub open spec fn dangling_edge_errors(
    edges: Seq<ControlFlowEdge>,
    nodes: Seq<ControlFlowNode>,
) -> Seq<IssueView>
    decreases edges.len(),
{
    if edges.len() == 0 {
        seq![]
    } else {
        let rest = dangling_edge_errors(edges.drop_last(), nodes);
        let e = edges.last();
        if has_node(nodes, e.from) && has_node(nodes, e.to) {
            rest
        } else {
            rest.push(
                IssueView {
                    message: "控制流边引用了不存在的节点: "@ + decimal_text(e.from as int) + " -> "@
                        + decimal_text(e.to as int),
                    location: None,
                    code: "E002"@,
                },
            )
        }
    }
}

/// The warnings of validation: `W001` when no symbol is defined.
pub open spec fn validation_warnings(syms: Seq<SymbolInfo>) -> Seq<IssueView> {
    if syms.len() == 0 {
        seq![IssueView { message: "程序没有定义任何符号"@, location: None, code: "W001"@ }]
    } else {
        seq![]
    }
}

fn symbol_defined(syms: &Vec<SymbolInfo>, name: &String) -> (r: bool)
    ensures
        r == has_symbol(syms@, name@),
{
    let mut k: usize = 0;
    while k < syms.len()
        invariant
            k <= syms@.len(),
            forall|j: int| 0 <= j < k ==> (#[trigger] syms@[j]).name@ != name@,
        decreases syms.len() - k,
    {
        if str_eq(syms[k].name.as_str(), name.as_str()) {
            return true;
        }
        k = k + 1;
    }
    false
}

fn node_defined(nodes: &Vec<ControlFlowNode>, id: u32) -> (r: bool)
    ensures
        r == has_node(nodes@, id),
{
    let mut k: usize = 0;
    while k < nodes.len()
        invariant
            k <= nodes@.len(),
            forall|j: int| 0 <= j < k ==> (#[trigger] nodes@[j]).id != id,
        decreases nodes.len() - k,
    {
        if nodes[k].id == id {
            return true;
        }
        k = k + 1;
    }
    false
}

/// Checks a descriptor for consistency: each reference to an undefined
/// symbol (`E001`), then each control-flow edge with a missing end (`E002`),
/// are errors; a program without symbols draws the warning `W001`. It is
/// valid when there is no error.
pub fn validate_consistency(descriptor: GaiaDescriptor) -> (r: ValidationResult)
    ensures
        error_views(r.errors@) == undefined_symbol_errors(descriptor.instructions@, descriptor.symbols@)
            + dangling_edge_errors(descriptor.control_flow.edges@, descriptor.control_flow.nodes@),
        warning_views(r.warnings@) == validation_warnings(descriptor.symbols@),
        r.is_valid == (r.errors@.len() == 0),
{
    let mut errors: Vec<ValidationError> = Vec::new();
    let mut warnings: Vec<ValidationWarning> = Vec::new();
    let instrs = &descriptor.instructions;
    let mut i: usize = 0;
    while i < instrs.len()
        invariant
            i <= instrs@.len(),
            instrs == &descriptor.instructions,
            error_views(errors@) == undefined_symbol_errors(instrs@.take(i as int), descriptor.symbols@),
        decreases instrs.len() - i,
    {
        let entry = &instrs[i];
        let ghost before = errors@;
        proof {
            assert(instrs@.take(i + 1).drop_last() =~= instrs@.take(i as int));
        }
        match extract_symbol_reference_from_instruction(&entry.instruction) {
            Some(symbol_name) => {
                if !symbol_defined(&descriptor.symbols, &symbol_name) {
                    let mut message = owned("未定义的符号引用: ");
                    push_str(&mut message, symbol_name.as_str());
                    let e = ValidationError {
                        message,
                        location: entry.location,
                        error_code: owned("E001"),
                    };
                    errors.push(e);
                    assert(error_views(errors@) =~= error_views(before).push(
                        IssueView { message: e.message@, location: e.location, code: e.error_code@ },
                    ));
                }
            },
            None => {},
        }
        i = i + 1;
    }
    assert(instrs@.take(i as int) =~= instrs@);
    let ghost first = errors@;
    let edges = &descriptor.control_flow.edges;
    let mut j: usize = 0;
    while j < edges.len()
        invariant
            j <= edges@.len(),
            edges == &descriptor.control_flow.edges,
            error_views(errors@) == error_views(first) + dangling_edge_errors(
                edges@.take(j as int),
                descriptor.control_flow.nodes@,
            ),
        decreases edges.len() - j,
    {
        let edge = edges[j];
        let ghost before = errors@;
        proof {
            assert(edges@.take(j + 1).drop_last() =~= edges@.take(j as int));
        }
        let from_exists = node_defined(&descriptor.control_flow.nodes, edge.from);
        let to_exists = node_defined(&descriptor.control_flow.nodes, edge.to);
        if !from_exists || !to_exists {
            let mut message = owned("控制流边引用了不存在的节点: ");
            let a = format_u64(edge.from as u64);
            push_str(&mut message, a.as_str());
            push_str(&mut message, " -> ");
            let b = format_u64(edge.to as u64);
            push_str(&mut message, b.as_str());
            let e = ValidationError { message, location: None, error_code: owned("E002") };
            errors.push(e);
            assert(error_views(errors@) =~= error_views(before).push(
                IssueView { message: e.message@, location: e.location, code: e.error_code@ },
            ));
        }
        j = j + 1;
    }
    assert(edges@.take(j as int) =~= edges@);
    if descriptor.symbols.len() == 0 {
        warnings.push(
            ValidationWarning {
                message: owned("程序没有定义任何符号"),
                location: None,
                warning_code: owned("W001"),
            },
        );
    }
    assert(warning_views(warnings@) =~= validation_warnings(descriptor.symbols@));
    let is_valid = errors.len() == 0;
    ValidationResult { is_valid, errors, warnings }
}

/// The contents of a syntax-tree node as a mathematical value.
pub ghost struct AstView {
    pub node_type: AstNodeType,
    pub value: Option<Seq<char>>,
    pub children: Seq<AstView>,
    pub location: Option<SourceRange>,
}

pub open spec fn node_view(n: AstNode) -> AstView
    decreases n, 1nat,
{
    AstView {
        node_type: n.node_type,
        value: opt_str(n.value),
        children: nodes_view(n.children@),
        location: n.location,
    }
}

pub open spec fn nodes_view(cs: Seq<AstNode>) -> Seq<AstView>
    decreases cs, 0nat,
{
    if cs.len() == 0 {
        seq![]
    } else {
        nodes_view(cs.drop_last()).push(node_view(cs.last()))
    }
}

proof fn lemma_nodes_view_push(cs: Seq<AstNode>, x: AstNode)
    ensures
        nodes_view(cs.push(x)) == nodes_view(cs).push(node_view(x)),
{
    assert(cs.push(x).drop_last() =~= cs);
}

proof fn lemma_nodes_view_index(cs: Seq<AstNode>)
    ensures
        nodes_view(cs).len() == cs.len(),
        forall|i: int| 0 <= i < cs.len() ==> nodes_view(cs)[i] == node_view(#[trigger] cs[i]),
    decreases cs.len(),
{
    if cs.len() > 0 {
        lemma_nodes_view_index(cs.drop_last());
        assert forall|i: int| 0 <= i < cs.len() implies nodes_view(cs)[i] == node_view(
            #[trigger] cs[i],
        ) by {
            if i < cs.len() - 1 {
                assert(cs[i] == cs.drop_last()[i]);
            }
        }
    }
}

fn copy_opt_string(o: &Option<String>) -> (r: Option<String>)
    ensures
        opt_str(r) == opt_str(*o),
{
    match o {
        Some(s) => Some(copy_string(s)),
        None => None,
    }
}

/// Whether formatting trims the text of a node of this kind.
pub open spec fn trims_value(t: AstNodeType) -> bool {
    t == AstNodeType::FunctionDef || t == AstNodeType::VariableDecl
}

/// An optional text, trimmed.
pub open spec fn trim_opt(o: Option<Seq<char>>) -> Option<Seq<char>> {
    match o {
        Some(v) => Some(trimmed(v)),
        None => None,
    }
}

/// A formatted tree: the same shape, with the texts of function definitions
/// and variable declarations trimmed.
pub open spec fn formatted_view(n: AstNode) -> AstView
    decreases n, 1nat,
{
    AstView {
        node_type: n.node_type,
        value: if trims_value(n.node_type) {
            trim_opt(opt_str(n.value))
        } else {
            opt_str(n.value)
        },
        children: formatted_list(n.children@),
        location: n.location,
    }
}

pub open spec fn formatted_list(cs: Seq<AstNode>) -> Seq<AstView>
    decreases cs, 0nat,
{
    if cs.len() == 0 {
        seq![]
    } else {
        formatted_list(cs.drop_last()).push(formatted_view(cs.last()))
    }
}

fn trim_value(node: &mut AstNode)
    ensures
        final(node).node_type == old(node).node_type,
        final(node).children == old(node).children,
        final(node).location == old(node).location,
        opt_str(final(node).value) == trim_opt(opt_str(old(node).value)),
{
    let v = match &node.value {
        Some(value) => Some(trim(value.as_str())),
        None => None,
    };
    node.value = v;
}

/// Formats a function definition: its text is trimmed.
pub fn format_function_definition(node: &mut AstNode, options: &FormatOptions)
    ensures
        final(node).node_type == old(node).node_type,
        final(node).children == old(node).children,
        final(node).location == old(node).location,
        opt_str(final(node).value) == trim_opt(opt_str(old(node).value)),
{
    trim_value(node);
}

/// Formats a block: statements carry no layout of their own, so it stays
/// as it is.
pub fn format_block(node: &mut AstNode, options: &FormatOptions, depth: usize)
    ensures
        *final(node) == *old(node),
{
}

/// Formats a variable declaration: its text is trimmed.
pub fn format_variable_declaration(node: &mut AstNode, options: &FormatOptions)
    ensures
        final(node).node_type == old(node).node_type,
        final(node).children == old(node).children,
        final(node).location == old(node).location,
        opt_str(final(node).value) == trim_opt(opt_str(old(node).value)),
{
    trim_value(node);
}

/// Formats a tree, children first (see `formatted_view`); `depth` is the
/// nesting depth of `node`.
pub fn apply_formatting(node: &AstNode, options: &FormatOptions, depth: usize) -> (r: AstNode)
    ensures
        node_view(r) == formatted_view(*node),
    decreases node,
{
    let mut kids: Vec<AstNode> = Vec::new();
    let n = node.children.len();
    let mut i: usize = 0;
    while i < n
        invariant
            i <= n == node.children@.len(),
            nodes_view(kids@) == formatted_list(node.children@.take(i as int)),
        decreases n - i,
    {
        proof {
            assert(decreases_to!(node => node.children@[i as int]));
        }
        let child = apply_formatting(&node.children[i], options, depth.saturating_add(1));
        proof {
            lemma_nodes_view_push(kids@, child);
            assert(node.children@.take(i + 1).drop_last() =~= node.children@.take(i as int));
        }
        kids.push(child);
        i = i + 1;
    }
    assert(node.children@.take(n as int) =~= node.children@);
    let mut formatted = AstNode {
        node_type: node.node_type,
        value: copy_opt_string(&node.value),
        children: kids,
        location: node.location,
    };
    match node.node_type {
        AstNodeType::FunctionDef => {
            format_function_definition(&mut formatted, options);
        },
        AstNodeType::Block => {
            format_block(&mut formatted, options, depth);
        },
        AstNodeType::VariableDecl => {
            format_variable_declaration(&mut formatted, options);
        },
        _ => {},
    }
    formatted
}

/// The integer a node's text reads as, by `str::parse::<i64>`.
pub open spec fn const_of(v: AstView) -> Option<i64> {
    match v.value {
        Some(s) => parse_i64_spec(s),
        None => None,
    }
}

/// The integer a node's text reads as.
pub fn get_constant_value(node: &AstNode) -> (r: Option<i64>)
    ensures
        r == const_of(node_view(*node)),
{
    match &node.value {
        Some(value) => parse_i64(value.as_str()),
        None => None,
    }
}

/// Division rounding toward zero, as Rust's `/` on integers.
pub open spec fn trunc_div(l: int, r: int) -> int {
    let q = (if l < 0 { -l } else { l }) / (if r < 0 { -r } else { r });
    if (l < 0) == (r < 0) {
        q
    } else {
        -q
    }
}

/// The value of `left op right` for the operators `add`, `sub`, `mul` and
/// `div` (with a divisor other than zero); nothing otherwise.
pub open spec fn eval_op(op: Option<Seq<char>>, l: int, r: int) -> Option<int> {
    match op {
        Some(o) => if o == "add"@ {
            Some(l + r)
        } else if o == "sub"@ {
            Some(l - r)
        } else if o == "mul"@ {
            Some(l * r)
        } else if o == "div"@ && r != 0 {
            Some(trunc_div(l, r))
        } else {
            None
        },
        None => None,
    }
}

/// Whether an optional value fits in an `i64`.
pub open spec fn fits_i64(v: Option<int>) -> bool {
    match v {
        Some(x) => i64::MIN <= x <= i64::MAX,
        None => true,
    }
}

/// Evaluates a constant expression; the result must fit in an `i64`.
pub fn evaluate_constant_expression(op: &Option<String>, left: i64, right: i64) -> (r: Option<i64>)
    requires
        fits_i64(eval_op(opt_str(*op), left as int, right as int)),
    ensures
        r matches Some(v) ==> eval_op(opt_str(*op), left as int, right as int) == Some(v as int),
        r is None ==> eval_op(opt_str(*op), left as int, right as int) is None,
{
    match op {
        None => None,
        Some(o) => {
            let o = o.as_str();
            if str_eq(o, "add") {
                Some(left + right)
            } else if str_eq(o, "sub") {
                Some(left - right)
            } else if str_eq(o, "mul") {
                Some(left * right)
            } else if str_eq(o, "div") && right != 0 {
                let la: u64 = magnitude(left);
                let lb: u64 = magnitude(right);
                let qa: u64 = la / lb;
                if (left < 0) == (right < 0) {
                    Some(qa as i64)
                } else {
                    let neg: i128 = -(qa as i128);
                    Some(neg as i64)
                }
            } else {
                None
            }
        },
    }
}

/// The magnitude of a signed number.
fn magnitude(v: i64) -> (r: u64)
    ensures
        r == (if v < 0 { -(v as int) } else { v as int }),
{
    if v == i64::MIN {
        9223372036854775808u64
    } else if v < 0 {
        (-v) as u64
    } else {
        v as u64
    }
}

/// What folding makes of an expression node with these folded children:
/// the value of its operator on two children that read as integers.
pub open spec fn fold_result(t: AstNodeType, op: Option<Seq<char>>, kids: Seq<AstView>) -> Option<int> {
    if t == AstNodeType::Expression && kids.len() == 2 {
        match (const_of(kids[0]), const_of(kids[1])) {
            (Some(a), Some(b)) => eval_op(op, a as int, b as int),
            _ => None,
        }
    } else {
        None
    }
}

/// A tree after constant folding, children first: an expression over two
/// constants becomes a leaf holding the decimal text of its value.
pub open spec fn folded_view(n: AstNode) -> AstView
    decreases n, 1nat,
{
    let kids = folded_list(n.children@);
    match fold_result(n.node_type, opt_str(n.value), kids) {
        Some(v) => AstView {
            node_type: n.node_type,
            value: Some(decimal_text(v)),
            children: seq![],
            location: n.location,
        },
        None => AstView {
            node_type: n.node_type,
            value: opt_str(n.value),
            children: kids,
            location: n.location,
        },
    }
}

pub open spec fn folded_list(cs: Seq<AstNode>) -> Seq<AstView>
    decreases cs, 0nat,
{
    if cs.len() == 0 {
        seq![]
    } else {
        folded_list(cs.drop_last()).push(folded_view(cs.last()))
    }
}

/// Whether every value folding computes in the tree fits in an `i64`.
pub open spec fn fold_safe(n: AstNode) -> bool
    decreases n, 1nat,
{
    fold_safe_list(n.children@) && fits_i64(
        fold_result(n.node_type, opt_str(n.value), folded_list(n.children@)),
    )
}

pub open spec fn fold_safe_list(cs: Seq<AstNode>) -> bool
    decreases cs, 0nat,
{
    cs.len() == 0 || (fold_safe_list(cs.drop_last()) && fold_safe(cs.last()))
}

proof fn lemma_fold_safe_list(cs: Seq<AstNode>, i: int)
    requires
        fold_safe_list(cs),
        0 <= i < cs.len(),
    ensures
        fold_safe(cs[i]),
    decreases cs.len(),
{
    if i < cs.len() - 1 {
        lemma_fold_safe_list(cs.drop_last(), i);
        assert(cs.drop_last()[i] == cs[i]);
    }
}

/// Constant folding (see `folded_view`); every value it computes must fit
/// in an `i64`.
pub fn fold_constants(ast: AstNode) -> (r: AstNode)
    requires
        fold_safe(ast),
    ensures
        node_view(r) == folded_view(ast),
    decreases ast,
{
    let ghost cs = ast.children@;
    let mut src = ast.children;
    let mut kids: Vec<AstNode> = Vec::new();
    let n = src.len();
    let mut i: usize = 0;
    while i < n
        invariant
            i <= n == cs.len(),
            cs == ast.children@,
            fold_safe_list(cs),
            src@ == cs.skip(i as int),
            nodes_view(kids@) == folded_list(cs.take(i as int)),
        decreases n - i,
    {
        let child = src.remove(0);
        proof {
            assert(cs.skip(i as int)[0] == cs[i as int]);
            assert(src@ =~= cs.skip(i + 1));
            assert(decreases_to!(ast => ast.children@[i as int]));
            lemma_fold_safe_list(cs, i as int);
        }
        let folded = fold_constants(child);
        proof {
            lemma_nodes_view_push(kids@, folded);
            assert(cs.take(i + 1).drop_last() =~= cs.take(i as int));
        }
        kids.push(folded);
        i = i + 1;
    }
    assert(cs.take(n as int) =~= cs);
    proof {
        lemma_nodes_view_index(kids@);
    }
    let node_type = ast.node_type;
    let value = ast.value;
    let location = ast.location;
    if node_type == AstNodeType::Expression && kids.len() == 2 {
        let left = get_constant_value(&kids[0]);
        let right = get_constant_value(&kids[1]);
        match (left, right) {
            (Some(l), Some(r)) => {
                match evaluate_constant_expression(&value, l, r) {
                    Some(result) => {
                        let text = format_i64(result);
                        let empty: Vec<AstNode> = Vec::new();
                        assert(nodes_view(empty@) =~= seq![]);
                        return AstNode { node_type, value: Some(text), children: empty, location };
                    },
                    None => {},
                }
            },
            _ => {},
        }
    }
    AstNode { node_type, value, children: kids, location }
}

/// Whether a node is dead code; no node is found dead.
pub fn is_dead_code(node: &AstNode) -> (r: bool)
    ensures
        !r,
{
    match node.node_type {
        AstNodeType::VariableDecl => false,
        _ => false,
    }
}

/// Dead-code elimination, children first: the children found dead are
/// dropped. No node is found dead, so the tree keeps its contents.
pub fn eliminate_dead_code(ast: AstNode) -> (r: AstNode)
    ensures
        node_view(r) == node_view(ast),
    decreases ast,
{
    let ghost cs = ast.children@;
    let mut src = ast.children;
    let mut kids: Vec<AstNode> = Vec::new();
    let n = src.len();
    let mut i: usize = 0;
    while i < n
        invariant
            i <= n == cs.len(),
            cs == ast.children@,
            src@ == cs.skip(i as int),
            nodes_view(kids@) == nodes_view(cs.take(i as int)),
        decreases n - i,
    {
        let child = src.remove(0);
        proof {
            assert(cs.skip(i as int)[0] == cs[i as int]);
            assert(src@ =~= cs.skip(i + 1));
            assert(decreases_to!(ast => ast.children@[i as int]));
            assert(cs.take(i + 1).drop_last() =~= cs.take(i as int));
        }
        let kept = eliminate_dead_code(child);
        if !is_dead_code(&kept) {
            proof {
                lemma_nodes_view_push(kids@, kept);
            }
            kids.push(kept);
        }
        i = i + 1;
    }
    assert(cs.take(n as int) =~= cs);
    AstNode { node_type: ast.node_type, value: ast.value, children: kids, location: ast.location }
}

/// Inlining of small functions, children first; no call is inlined, so the
/// tree keeps its contents.
pub fn inline_small_functions(ast: AstNode) -> (r: AstNode)
    ensures
        node_view(r) == node_view(ast),
    decreases ast,
{
    let ghost cs = ast.children@;
    let mut src = ast.children;
    let mut kids: Vec<AstNode> = Vec::new();
    let n = src.len();
    let mut i: usize = 0;
    while i < n
        invariant
            i <= n == cs.len(),
            cs == ast.children@,
            src@ == cs.skip(i as int),
            nodes_view(kids@) == nodes_view(cs.take(i as int)),
        decreases n - i,
    {
        let child = src.remove(0);
        proof {
            assert(cs.skip(i as int)[0] == cs[i as int]);
            assert(src@ =~= cs.skip(i + 1));
            assert(decreases_to!(ast => ast.children@[i as int]));
            assert(cs.take(i + 1).drop_last() =~= cs.take(i as int));
        }
        let inlined = inline_small_functions(child);
        proof {
            lemma_nodes_view_push(kids@, inlined);
        }
        kids.push(inlined);
        i = i + 1;
    }
    assert(cs.take(n as int) =~= cs);
    AstNode { node_type: ast.node_type, value: ast.value, children: kids, location: ast.location }
}

/// The texts of the nodes of kind `t`, in pre-order.
pub open spec fn names_of(n: AstNode, t: AstNodeType) -> Seq<Seq<char>>
    decreases n, 1nat,
{
    let own = if n.node_type == t && n.value is Some {
        seq![n.value->0@]
    } else {
        seq![]
    };
    own + names_list(n.children@, t)
}

pub open spec fn names_list(cs: Seq<AstNode>, t: AstNodeType) -> Seq<Seq<char>>
    decreases cs, 0nat,
{
    if cs.len() == 0 {
        seq![]
    } else {
        names_list(cs.drop_last(), t) + names_of(cs.last(), t)
    }
}

fn collect_names(node: &AstNode, t: AstNodeType) -> (r: Vec<String>)
    ensures
        string_views(r@) == names_of(*node, t),
    decreases node,
{
    let mut names: Vec<String> = Vec::new();
    if node.node_type == t {
        match &node.value {
            Some(name) => {
                names.push(copy_string(name));
            },
            None => {},
        }
    }
    let ghost own = string_views(names@);
    assert(own =~= (if node.node_type == t && node.value is Some {
        seq![node.value->0@]
    } else {
        seq![]
    }));
    let n = node.children.len();
    let mut i: usize = 0;
    while i < n
        invariant
            i <= n == node.children@.len(),
            string_views(names@) == own + names_list(node.children@.take(i as int), t),
        decreases n - i,
    {
        proof {
            assert(decreases_to!(node => node.children@[i as int]));
        }
        let mut sub = collect_names(&node.children[i], t);
        let ghost before = names@;
        names.append(&mut sub);
        proof {
            assert(node.children@.take(i + 1).drop_last() =~= node.children@.take(i as int));
            assert(string_views(names@) =~= string_views(before) + names_of(
                node.children@[i as int],
                t,
            ));
        }
        i = i + 1;
    }
    assert(node.children@.take(n as int) =~= node.children@);
    names
}

/// The names of the declared variables, in pre-order.
pub fn extract_variables(node: &AstNode) -> (r: Vec<String>)
    ensures
        string_views(r@) == names_of(*node, AstNodeType::VariableDecl),
{
    collect_names(node, AstNodeType::VariableDecl)
}

/// The names of the defined functions, in pre-order.
pub fn extract_functions(node: &AstNode) -> (r: Vec<String>)
    ensures
        string_views(r@) == names_of(*node, AstNodeType::FunctionDef),
{
    collect_names(node, AstNodeType::FunctionDef)
}

/// The suggestion for a name found in a tree: `变量` or `函数` as detail,
/// and that word, a colon and the name as documentation.
pub open spec fn tree_name_item(name: Seq<char>, kind: CompletionType, word: Seq<char>) -> CompletionView {
    simple_item(name, kind, word, word + ": "@ + name)
}

fn push_name_items(completions: &mut Vec<CompletionItem>, names: Vec<String>, kind: CompletionType, word: &str)
    ensures
        items_view(final(completions)@) == items_view(old(completions)@) + string_views(names@).map_values(
            |n: Seq<char>| tree_name_item(n, kind, word@),
        ),
{
    let mut i: usize = 0;
    while i < names.len()
        invariant
            i <= names@.len(),
            items_view(completions@) == items_view(old(completions)@) + string_views(
                names@.take(i as int),
            ).map_values(|n: Seq<char>| tree_name_item(n, kind, word@)),
        decreases names.len() - i,
    {
        let name = &names[i];
        let mut doc = owned(word);
        push_str(&mut doc, ": ");
        push_str(&mut doc, name.as_str());
        let item = CompletionItem {
            label: copy_string(name),
            kind,
            detail: Some(owned(word)),
            documentation: Some(doc),
            insert_text: Some(copy_string(name)),
            filter_text: None,
            sort_text: None,
            additional_text_edits: Vec::new(),
        };
        assert(string_views(item.additional_text_edits@) =~= seq![]);
        let ghost before = completions@;
        completions.push(item);
        proof {
            assert(item_view(item) == tree_name_item(name@, kind, word@));
            assert(string_views(names@.take(i + 1)) =~= string_views(names@.take(i as int)).push(
                name@,
            ));
            assert(items_view(completions@) =~= items_view(before).push(item_view(item)));
        }
        i = i + 1;
    }
    assert(names@.take(i as int) =~= names@);
}

/// Appends a suggestion for each variable declared in a tree.
pub fn add_variable_completions(completions: &mut Vec<CompletionItem>, ast: &AstNode)
    ensures
        items_view(final(completions)@) == items_view(old(completions)@) + names_of(
            *ast,
            AstNodeType::VariableDecl,
        ).map_values(|n: Seq<char>| tree_name_item(n, CompletionType::Variable, "变量"@)),
{
    let variables = extract_variables(ast);
    push_name_items(completions, variables, CompletionType::Variable, "变量");
}

/// Appends a suggestion for each function defined in a tree.
pub fn add_function_completions(completions: &mut Vec<CompletionItem>, ast: &AstNode)
    ensures
        items_view(final(completions)@) == items_view(old(completions)@) + names_of(
            *ast,
            AstNodeType::FunctionDef,
        ).map_values(|n: Seq<char>| tree_name_item(n, CompletionType::Function, "函数"@)),
{
    let functions = extract_functions(ast);
    push_name_items(completions, functions, CompletionType::Function, "函数");
}


/// The CLR hello-world template.
pub const CLR_HELLO_WORLD: &'static str = r#"// CLR Hello World 示例
.assembly extern mscorlib {}
.assembly hello {}

.method static void Main() cil managed
{
    .entrypoint
    ldstr "Hello, World!"
    call void [mscorlib]System.Console::WriteLine(string)
    ret
}"#;

/// The JVM hello-world template.
pub const JVM_HELLO_WORLD: &'static str = r#"// JVM Hello World 示例
.class public HelloWorld
.super java/lang/Object

.method public static main([Ljava/lang/String;)V
    .limit stack 2
    .limit locals 1
    
    getstatic java/lang/System/out Ljava/io/PrintStream;
    ldc "Hello, World!"
    invokevirtual java/io/PrintStream/println(Ljava/lang/String;)V
    return
.end method"#;

/// The PE hello-world template.
pub const PE_HELLO_WORLD: &'static str = r#"// PE Hello World 示例
.section .data
    hello_msg db "Hello, World!", 0

.section .text
    global _start

_start:
    // 调用 Windows API 输出字符串
    push hello_msg
    call print_string
    
    // 退出程序
    push 0
    call exit"#;

/// The WASI hello-world template.
pub const WASI_HELLO_WORLD: &'static str = r#"// WASI Hello World 示例
(module
    (import "wasi_snapshot_preview1" "fd_write" 
        (func $fd_write (param i32 i32 i32 i32) (result i32)))
    
    (memory 1)
    (export "memory" (memory 0))
    
    (data (i32.const 8) "Hello, World!\n")
    
    (func $main (export "_start")
        (i32.store (i32.const 0) (i32.const 8))  ;; iov.iov_base
        (i32.store (i32.const 4) (i32.const 14)) ;; iov.iov_len
        
        (call $fd_write
            (i32.const 1)  ;; stdout
            (i32.const 0)  ;; iov
            (i32.const 1)  ;; iovcnt
            (i32.const 20) ;; nwritten
        )
        drop
    )
)"#;

/// The CLR arithmetic template.
pub const CLR_ARITHMETIC: &'static str = r#"// CLR 算术测试示例
.assembly extern mscorlib {}
.assembly arithmetic {}

.method static void Main() cil managed
{
    .entrypoint
    .locals init (int32 a, int32 b, int32 result)
    
    ldc.i4 10
    stloc.0     // a = 10
    
    ldc.i4 5
    stloc.1     // b = 5
    
    ldloc.0
    ldloc.1
    add
    stloc.2     // result = a + b
    
    ldloc.2
    call void [mscorlib]System.Console::WriteLine(int32)
    ret
}"#;

/// The JVM arithmetic template.
pub const JVM_ARITHMETIC: &'static str = r#"// JVM 算术测试示例
.class public ArithmeticTest
.super java/lang/Object

.method public static main([Ljava/lang/String;)V
    .limit stack 3
    .limit locals 4
    
    bipush 10
    istore_1    // a = 10
    
    bipush 5
    istore_2    // b = 5
    
    iload_1
    iload_2
    iadd
    istore_3    // result = a + b
    
    getstatic java/lang/System/out Ljava/io/PrintStream;
    iload_3
    invokevirtual java/io/PrintStream/println(I)V
    return
.end method"#;

/// The PE arithmetic template.
pub const PE_ARITHMETIC: &'static str = r#"// PE 算术测试示例
.section .data
    a dd 10
    b dd 5
    result dd 0

.section .text
    global _start

_start:
    mov eax, [a]
    add eax, [b]
    mov [result], eax
    
    // 输出结果
    push [result]
    call print_number
    
    // 退出程序
    push 0
    call exit"#;

/// The WASI arithmetic template.
pub const WASI_ARITHMETIC: &'static str = r#"// WASI 算术测试示例
(module
    (func $add (param $a i32) (param $b i32) (result i32)
        local.get $a
        local.get $b
        i32.add
    )
    
    (func $main (export "_start")
        (local $result i32)
        
        i32.const 10
        i32.const 5
        call $add
        local.set $result
        
        ;; 这里可以添加输出逻辑
    )
)"#;

/// The CLR hello-world template.
pub fn generate_clr_hello_world() -> (r: String)
    ensures
        r@ == CLR_HELLO_WORLD@,
{
    owned(CLR_HELLO_WORLD)
}

/// The JVM hello-world template.
pub fn generate_jvm_hello_world() -> (r: String)
    ensures
        r@ == JVM_HELLO_WORLD@,
{
    owned(JVM_HELLO_WORLD)
}

/// The PE hello-world template.
pub fn generate_pe_hello_world() -> (r: String)
    ensures
        r@ == PE_HELLO_WORLD@,
{
    owned(PE_HELLO_WORLD)
}

/// The WASI hello-world template.
pub fn generate_wasi_hello_world() -> (r: String)
    ensures
        r@ == WASI_HELLO_WORLD@,
{
    owned(WASI_HELLO_WORLD)
}

/// The CLR arithmetic template.
pub fn generate_clr_arithmetic() -> (r: String)
    ensures
        r@ == CLR_ARITHMETIC@,
{
    owned(CLR_ARITHMETIC)
}

/// The JVM arithmetic template.
pub fn generate_jvm_arithmetic() -> (r: String)
    ensures
        r@ == JVM_ARITHMETIC@,
{
    owned(JVM_ARITHMETIC)
}

/// The PE arithmetic template.
pub fn generate_pe_arithmetic() -> (r: String)
    ensures
        r@ == PE_ARITHMETIC@,
{
    owned(PE_ARITHMETIC)
}

/// The WASI arithmetic template.
pub fn generate_wasi_arithmetic() -> (r: String)
    ensures
        r@ == WASI_ARITHMETIC@,
{
    owned(WASI_ARITHMETIC)
}

/// The name of a target platform in template headers.
pub open spec fn target_label(t: crate::frontend::Target) -> Seq<char> {
    match t {
        crate::frontend::Target::Clr => "CLR"@,
        crate::frontend::Target::Jvm => "JVM"@,
        crate::frontend::Target::Pe => "PE"@,
        crate::frontend::Target::Wasi => "WASI"@,
    }
}

/// A template with a header comment naming its platform.
pub fn add_comments_to_template(template: String, target: crate::frontend::Target) -> (r: String)
    ensures
        r@ == "// "@ + target_label(target) + " 目标平台代码示例\n// 由 Gaia 汇编器生成\n\n"@
            + template@,
{
    let mut header = owned("// ");
    match target {
        crate::frontend::Target::Clr => push_str(&mut header, "CLR"),
        crate::frontend::Target::Jvm => push_str(&mut header, "JVM"),
        crate::frontend::Target::Pe => push_str(&mut header, "PE"),
        crate::frontend::Target::Wasi => push_str(&mut header, "WASI"),
    }
    push_str(&mut header, " 目标平台代码示例\n// 由 Gaia 汇编器生成\n\n");
    push_str(&mut header, template.as_str());
    header
}

} // verus!
