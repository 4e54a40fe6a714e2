use gaia_assembler::frontend::lexical::{
    classify_token, first_word_of, get_instruction_description, get_instruction_documentation, is_block_end_instruction,
    is_block_start_instruction, is_float_literal, is_instruction, is_keyword, trim, TokenType,
};
use gaia_assembler::frontend::utils::{
    add_comments_to_template, add_function_completions, add_variable_completions, analyze_completion_context,
    apply_formatting, convert_format, eliminate_dead_code, evaluate_constant_expression, extract_functions,
    extract_variables, extract_symbol_reference_from_instruction, find_node_at_position, fold_constants,
    format_descriptor, generate_clr_hello_world, generate_wasi_arithmetic, get_completions, get_constant_value,
    get_version, inline_small_functions, is_position_in_range, optimize_descriptor, validate_consistency,
    CompletionContext,
};
use gaia_assembler::frontend::{
    AstNode, AstNodeType, CompletionType, ControlFlow, ControlFlowEdge, ControlFlowNode, DataType, DescriptorFormat,
    FormatOptions, GaiaDescriptor, Instruction, InstructionEntry, OptimizationOptions, SourceLocation, SourceRange,
    SymbolInfo, SymbolType, Target,
};

fn loc(line: u32, column: u32) -> SourceLocation {
    SourceLocation { line, column }
}

fn range(a: (u32, u32), b: (u32, u32)) -> Option<SourceRange> {
    Some(SourceRange { start: loc(a.0, a.1), end: loc(b.0, b.1) })
}

fn leaf(t: AstNodeType, value: Option<&str>, location: Option<SourceRange>) -> AstNode {
    AstNode { node_type: t, value: value.map(|s| s.to_string()), children: vec![], location }
}

fn descriptor(symbols: Vec<SymbolInfo>, instructions: Vec<InstructionEntry>, edges: Vec<ControlFlowEdge>) -> GaiaDescriptor {
    GaiaDescriptor {
        instructions,
        symbols,
        control_flow: ControlFlow { nodes: vec![ControlFlowNode { id: 1 }, ControlFlowNode { id: 2 }], edges },
    }
}

fn symbol(name: &str, t: SymbolType, d: DataType) -> SymbolInfo {
    SymbolInfo { name: name.to_string(), symbol_type: t, data_type: d, location: None }
}

#[test]
fn version_text() {
    assert_eq!(get_version(), "Gaia Assembler v0.1.0");
}

#[test]
fn general_completions_list_instructions_then_types() {
    let d = descriptor(vec![], vec![], vec![]);
    let items = get_completions(d, loc(1, 1), Target::Jvm);
    assert_eq!(items.len(), 15);
    assert_eq!(items[0].label, "load");
    assert_eq!(items[0].kind, CompletionType::Keyword);
    assert_eq!(items[0].documentation.as_deref(), Some("Gaia 汇编指令: 加载指令"));
    assert_eq!(items[8].label, "ret");
    assert_eq!(items[9].label, "i32");
    assert_eq!(items[9].kind, CompletionType::Type);
    assert_eq!(items[14].detail.as_deref(), Some("字符串"));
}

#[test]
fn validation_reports_undefined_calls_and_dangling_edges() {
    let d = descriptor(
        vec![symbol("call_target_7", SymbolType::Function, DataType::Void)],
        vec![
            InstructionEntry { instruction: Instruction::Call(7), location: None },
            InstructionEntry { instruction: Instruction::Call(3), location: range((2, 1), (2, 9)) },
            InstructionEntry { instruction: Instruction::Nop, location: None },
        ],
        vec![ControlFlowEdge { from: 1, to: 2 }, ControlFlowEdge { from: 2, to: 9 }],
    );
    let r = validate_consistency(d);
    assert!(!r.is_valid);
    assert_eq!(r.errors.len(), 2);
    assert_eq!(r.errors[0].message, "未定义的符号引用: call_target_3");
    assert_eq!(r.errors[0].error_code, "E001");
    assert_eq!(r.errors[0].location, range((2, 1), (2, 9)));
    assert_eq!(r.errors[1].message, "控制流边引用了不存在的节点: 2 -> 9");
    assert_eq!(r.errors[1].error_code, "E002");
    assert!(r.warnings.is_empty());
}

#[test]
fn validation_warns_without_symbols() {
    let r = validate_consistency(descriptor(vec![], vec![], vec![]));
    assert!(r.is_valid);
    assert_eq!(r.warnings.len(), 1);
    assert_eq!(r.warnings[0].warning_code, "W001");
    assert_eq!(r.warnings[0].message, "程序没有定义任何符号");
}

#[test]
fn descriptor_services_keep_contents() {
    let d = descriptor(vec![symbol("x", SymbolType::Variable, DataType::I32)], vec![], vec![]);
    let f = format_descriptor(d.clone(), FormatOptions { indent_size: 4, use_tabs: false }).unwrap();
    assert_eq!(f.symbols[0].name, "x");
    let o = optimize_descriptor(
        d.clone(),
        OptimizationOptions { constant_folding: None, dead_code_elimination: Some(false), instruction_combining: Some(true) },
    )
    .unwrap();
    assert_eq!(o.symbols.len(), 1);
    let c = convert_format(d, DescriptorFormat::Yaml).unwrap();
    assert_eq!(c.control_flow.nodes.len(), 2);
}

#[test]
fn symbol_references() {
    assert_eq!(extract_symbol_reference_from_instruction(&Instruction::Call(42)).as_deref(), Some("call_target_42"));
    assert_eq!(extract_symbol_reference_from_instruction(&Instruction::Return), None);
}

fn tree() -> AstNode {
    AstNode {
        node_type: AstNodeType::Program,
        value: None,
        children: vec![
            AstNode {
                node_type: AstNodeType::FunctionDef,
                value: Some("  main  ".to_string()),
                children: vec![
                    leaf(AstNodeType::VariableDecl, Some(" a"), range((2, 0), (2, 10))),
                    leaf(AstNodeType::Instruction, Some("load"), range((3, 0), (3, 10))),
                ],
                location: range((1, 0), (4, 10)),
            },
            leaf(AstNodeType::VariableDecl, Some("b"), None),
        ],
        location: range((0, 0), (9, 20)),
    }
}

#[test]
fn positions_and_contexts() {
    assert!(is_position_in_range(&loc(2, 5), &SourceRange { start: loc(1, 0), end: loc(4, 10) }));
    assert!(!is_position_in_range(&loc(2, 11), &SourceRange { start: loc(1, 0), end: loc(4, 10) }));
    let t = tree();
    let n = find_node_at_position(&t, &loc(3, 2)).unwrap();
    assert_eq!(n.node_type, AstNodeType::Instruction);
    assert_eq!(analyze_completion_context(&t, &loc(3, 2)), CompletionContext::Instruction);
    assert_eq!(analyze_completion_context(&t, &loc(2, 2)), CompletionContext::Type);
    assert_eq!(analyze_completion_context(&t, &loc(4, 2)), CompletionContext::Function);
    assert_eq!(analyze_completion_context(&t, &loc(8, 2)), CompletionContext::General);
    assert_eq!(analyze_completion_context(&t, &loc(30, 2)), CompletionContext::General);
}

#[test]
fn names_and_tree_completions() {
    let t = tree();
    assert_eq!(extract_variables(&t), vec![" a".to_string(), "b".to_string()]);
    assert_eq!(extract_functions(&t), vec!["  main  ".to_string()]);
    let mut items = Vec::new();
    add_variable_completions(&mut items, &t);
    add_function_completions(&mut items, &t);
    assert_eq!(items.len(), 3);
    assert_eq!(items[1].label, "b");
    assert_eq!(items[1].documentation.as_deref(), Some("变量: b"));
    assert_eq!(items[2].detail.as_deref(), Some("函数"));
    assert_eq!(items[2].documentation.as_deref(), Some("函数:   main  "));
}

#[test]
fn formatting_trims_definitions() {
    let t = tree();
    let f = apply_formatting(&t, &FormatOptions { indent_size: 2, use_tabs: true }, 0);
    assert_eq!(f.children[0].value.as_deref(), Some("main"));
    assert_eq!(f.children[0].children[0].value.as_deref(), Some("a"));
    assert_eq!(f.children[0].children[1].value.as_deref(), Some("load"));
    assert_eq!(f.children.len(), 2);
}

fn expr(op: &str, l: &str, r: &str) -> AstNode {
    AstNode {
        node_type: AstNodeType::Expression,
        value: Some(op.to_string()),
        children: vec![leaf(AstNodeType::Literal, Some(l), None), leaf(AstNodeType::Literal, Some(r), None)],
        location: None,
    }
}

#[test]
fn constant_folding() {
    let folded = fold_constants(expr("add", "40", "2"));
    assert_eq!(folded.value.as_deref(), Some("42"));
    assert!(folded.children.is_empty());
    let nested = AstNode {
        node_type: AstNodeType::Expression,
        value: Some("mul".to_string()),
        children: vec![expr("sub", "1", "4"), leaf(AstNodeType::Literal, Some("+7"), None)],
        location: None,
    };
    assert_eq!(fold_constants(nested).value.as_deref(), Some("-21"));
    assert_eq!(fold_constants(expr("div", "-7", "2")).value.as_deref(), Some("-3"));
    let kept = fold_constants(expr("div", "1", "0"));
    assert_eq!(kept.value.as_deref(), Some("div"));
    assert_eq!(kept.children.len(), 2);
    let not_number = fold_constants(expr("add", "x", "1"));
    assert_eq!(not_number.children.len(), 2);
    assert_eq!(get_constant_value(&leaf(AstNodeType::Literal, Some("-12"), None)), Some(-12));
    assert_eq!(evaluate_constant_expression(&Some("sub".to_string()), 3, 10), Some(-7));
    assert_eq!(evaluate_constant_expression(&Some("mod".to_string()), 3, 10), None);
    assert_eq!(evaluate_constant_expression(&None, 3, 10), None);
}

#[test]
fn dead_code_and_inlining_keep_the_tree() {
    let t = eliminate_dead_code(tree());
    assert_eq!(t.children.len(), 2);
    assert_eq!(t.children[0].children.len(), 2);
    let u = inline_small_functions(tree());
    assert_eq!(u.children[1].value.as_deref(), Some("b"));
}

#[test]
fn templates() {
    assert!(generate_clr_hello_world().starts_with("// CLR Hello World 示例\n.assembly extern mscorlib {}"));
    assert!(generate_wasi_arithmetic().ends_with(")\n)"));
    let t = add_comments_to_template("x".to_string(), Target::Pe);
    assert_eq!(t, "// PE 目标平台代码示例\n// 由 Gaia 汇编器生成\n\nx");
}

#[test]
fn lexical_words() {
    assert_eq!(trim("  \t hi there \n"), "hi there");
    assert_eq!(first_word_of("   loop x").as_deref(), Some("loop"));
    assert_eq!(first_word_of("   "), None);
    assert!(is_instruction("br_if"));
    assert!(!is_instruction("jmp"));
    assert!(is_keyword(".section"));
    assert!(is_block_start_instruction("  .method public"));
    assert!(!is_block_start_instruction(""));
    assert!(is_block_end_instruction("} // done"));
    assert!(!is_block_end_instruction("endx"));
}

#[test]
fn token_classes() {
    assert_eq!(classify_token("//x"), TokenType::Comment);
    assert_eq!(classify_token("start:"), TokenType::Label);
    assert_eq!(classify_token("\"s\""), TokenType::String);
    assert_eq!(classify_token("-12"), TokenType::Number);
    assert_eq!(classify_token("1.5e3"), TokenType::Number);
    assert_eq!(classify_token("inf"), TokenType::Number);
    assert_eq!(classify_token("add"), TokenType::Instruction);
    assert_eq!(classify_token("else"), TokenType::Keyword);
    assert_eq!(classify_token("foo"), TokenType::Identifier);
    assert!(is_float_literal(".5"));
    assert!(is_float_literal("5."));
    assert!(!is_float_literal("."));
    assert!(!is_float_literal("1e"));
    assert!(is_float_literal("-NaN"));
}

#[test]
fn instruction_texts() {
    assert_eq!(get_instruction_description("swap"), "交换栈顶两个值");
    assert_eq!(get_instruction_description("jmp"), "未知指令");
    assert_eq!(get_instruction_documentation("add").as_deref(), Some("弹出栈顶两个值，相加后压入栈\n语法：add\n示例：load 1; load 2; add"));
    assert_eq!(get_instruction_documentation("sub"), None);
}
