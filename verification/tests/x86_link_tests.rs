use gaia_assembler::backends::x86::X86Image;
use gaia_assembler::backends::x86_link::{image_layout, import_plan, link_image, link_imports, link_strings, ImportGroup};
use gaia_assembler::program::GaiaImport;

fn import(library: &str, symbol: &str) -> GaiaImport {
    GaiaImport { library: library.to_string(), symbol: symbol.to_string() }
}

fn groups(plan: &[ImportGroup]) -> Vec<(String, Vec<String>)> {
    plan.iter().map(|g| (g.dll_name.clone(), g.functions.clone())).collect()
}

fn strings(v: &[&str]) -> Vec<String> {
    v.iter().map(|s| s.to_string()).collect()
}

#[test]
fn import_plan_groups_by_library_and_adds_runtime_and_exit() {
    let imports = vec![
        import("kernel32.dll", "GetStdHandle"),
        import("user32.dll", "MessageBoxA"),
        import("kernel32.dll", "WriteFile"),
    ];
    let calls = vec![
        ("nyar_init_runtime".to_string(), 4),
        ("puts".to_string(), 57),
        ("nyar_init_runtime".to_string(), 90),
    ];
    let plan = import_plan(&imports, &calls);
    assert_eq!(
        groups(&plan),
        vec![
            ("kernel32.dll".to_string(), strings(&["GetStdHandle", "WriteFile", "ExitProcess"])),
            ("user32.dll".to_string(), strings(&["MessageBoxA"])),
            ("nyar_runtime.dll".to_string(), strings(&["nyar_init_runtime"])),
        ]
    );
}

#[test]
fn import_plan_keeps_a_given_exit_process() {
    let imports = vec![import("msvcrt.dll", "ExitProcess")];
    let plan = import_plan(&imports, &vec![]);
    assert_eq!(groups(&plan), vec![("msvcrt.dll".to_string(), strings(&["ExitProcess"]))]);
}

#[test]
fn import_plan_of_nothing_imports_exit_process() {
    let plan = import_plan(&vec![], &vec![("puts".to_string(), 3)]);
    assert_eq!(groups(&plan), vec![("kernel32.dll".to_string(), strings(&["ExitProcess"]))]);
}

#[test]
fn link_imports_binds_calls_and_exit() {
    let code = vec![0u8; 20];
    let plan = vec![ImportGroup { dll_name: "kernel32.dll".to_string(), functions: strings(&["ExitProcess", "puts"]) }];
    let calls = vec![("puts".to_string(), 8), ("printf".to_string(), 14)];
    let linked = link_imports(&code, &plan, 0x2000, &calls, 0);
    let mut expected = vec![0u8; 20];
    // ExitProcess's slot 0x2000, reached from 0x1006
    expected[2..6].copy_from_slice(&[0xFA, 0x0F, 0, 0]);
    // puts's slot 0x2008, reached from 0x100E
    expected[10..14].copy_from_slice(&[0xFA, 0x0F, 0, 0]);
    assert_eq!(linked, expected);
}

#[test]
fn link_imports_second_library_slots_follow_the_first() {
    let code = vec![0u8; 12];
    let plan = vec![
        ImportGroup { dll_name: "a.dll".to_string(), functions: strings(&["f"]) },
        ImportGroup { dll_name: "b.dll".to_string(), functions: strings(&["g"]) },
    ];
    let calls = vec![("g".to_string(), 0)];
    let linked = link_imports(&code, &plan, 0x3000, &calls, 6);
    // g's slot: 0x3000 + 8 (f) + 8 (end of a.dll) = 0x3010; 0x3010 - 0x1006 = 0x200A
    assert_eq!(linked, vec![0, 0, 0x0A, 0x20, 0, 0, 0, 0, 0, 0, 0, 0]);
}

fn image_with_string() -> X86Image {
    X86Image {
        code: vec![0u8; 60],
        call_exit_pos: 0,
        external_call_positions: vec![],
        rdata_content: b"hi\0".to_vec(),
        string_patches: vec![(51, 0)],
    }
}

#[test]
fn link_strings_binds_loads_to_rdata() {
    let image = image_with_string();
    let linked = link_strings(&image, 0x3000);
    // 0x3000 - (0x1000 + 51 + 4) = 0x1FC9
    assert_eq!(&linked[51..55], &[0xC9, 0x1F, 0, 0]);
    assert_eq!(&linked[..51], &[0u8; 51][..]);
    assert_eq!(&linked[55..], &[0u8; 5][..]);
}

#[test]
fn link_strings_without_rdata_leaves_code() {
    let mut image = image_with_string();
    image.rdata_content = vec![];
    assert_eq!(link_strings(&image, 0x3000), vec![0u8; 60]);
}

#[test]
fn link_image_does_strings_then_calls() {
    let mut image = image_with_string();
    image.external_call_positions = vec![("puts".to_string(), 10)];
    let plan = vec![ImportGroup { dll_name: "msvcrt.dll".to_string(), functions: strings(&["puts"]) }];
    let linked = link_image(&image, &plan, 0x2000, 0x3000);
    assert_eq!(&linked[51..55], &[0xC9, 0x1F, 0, 0]);
    // 0x2000 - (0x1000 + 10 + 6) = 0xFF0
    assert_eq!(&linked[12..16], &[0xF0, 0x0F, 0, 0]);
    // no ExitProcess slot: the entry stub's call stays as it is
    assert_eq!(&linked[0..6], &[0u8; 6]);
}

#[test]
fn image_layout_on_page_boundaries() {
    let l = image_layout(100, 0x50, 3);
    assert_eq!(l.rdata_rva, 0x3000);
    assert_eq!(l.size_of_image, 0x4000);
    let l = image_layout(0x1001, 0, 0);
    assert_eq!(l.rdata_rva, 0x3000);
    assert_eq!(l.size_of_image, 0x3000);
}
