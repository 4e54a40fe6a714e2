//! The .NET PE image: intermediate-language text wrapped in a minimal
//! executable layout.
use vstd::prelude::*;
use vstd::string::StrSliceExecFns;
use vstd::utf8::{decode_utf8, encode_utf8, valid_utf8};
use crate::error::GaiaError;
use crate::text::{owned, push_str};
use crate::adapters::{apply_mappings, default_table};
use crate::backends::msil::{msil_field_types, msil_module, msil_output, render};
use crate::config::GaiaSettings;
use crate::program::GaiaModule;

verus! {

/// The text `String::from_utf8_lossy` reads from bytes.
pub uninterp spec fn utf8_lossy(bytes: Seq<u8>) -> Seq<char>;

/// Reads bytes as text (calls `String::from_utf8_lossy`). Valid UTF-8 reads
/// as what it encodes; other bytes read with replacement characters, which
/// is left to the name `utf8_lossy`.
#[verifier::external_body]
fn lossy_text(bytes: &[u8]) -> (r: String)
    ensures
        r@ == utf8_lossy(bytes@),
        valid_utf8(bytes@) ==> r@ == decode_utf8(bytes@),
{
    String::from_utf8_lossy(bytes).into_owned()
}

/// The headers of the image: `MZ` padded to 0x80 bytes, the `PE\0\0`
/// signature, a COFF header for a 32-bit executable with three sections,
/// and the start of a PE32 optional header.
pub open spec fn pe_headers() -> Seq<u8> {
    seq![0x4Du8, 0x5Au8] + Seq::new(0x7E, |i: int| 0u8) + seq![0x50u8, 0x45u8, 0u8, 0u8] + seq![
        0x4Cu8, 0x01u8, 0x03u8, 0x00u8, 0u8, 0u8, 0u8, 0u8, 0u8, 0u8, 0u8, 0u8, 0u8, 0u8, 0u8, 0u8,
        0xE0u8, 0x00u8, 0x02u8, 0x01u8,
    ] + seq![0x0Bu8, 0x01u8, 0x0Eu8, 0x00u8]
}

/// Bytes cut or padded with zeros to exactly `n`.
pub open spec fn fit_to(s: Seq<u8>, n: nat) -> Seq<u8> {
    if s.len() >= n {
        s.take(n as int)
    } else {
        s + Seq::new((n - s.len()) as nat, |i: int| 0u8)
    }
}

/// The image: the headers, then the UTF-8 text `// IL Code for <name>`, a
/// newline and the code, all cut or padded to 1024 bytes.
pub open spec fn dotnet_pe_image(il: Seq<char>, name: Seq<char>) -> Seq<u8> {
    fit_to(pe_headers() + encode_utf8("// IL Code for "@ + name + "\n"@ + il), 1024)
}

fn push_all(dst: &mut Vec<u8>, src: &[u8])
    ensures
        final(dst)@ == old(dst)@ + src@,
{
    let mut i: usize = 0;
    while i < src.len()
        invariant
            i <= src@.len(),
            dst@ == old(dst)@ + src@.take(i as int),
        decreases src.len() - i,
    {
        dst.push(src[i]);
        i = i + 1;
        assert(dst@ =~= old(dst)@ + src@.take(i as int));
    }
    assert(src@.take(i as int) =~= src@);
}

fn pad_to(dst: &mut Vec<u8>, n: usize)
    requires
        old(dst)@.len() <= n,
    ensures
        final(dst)@ == old(dst)@ + Seq::new((n - old(dst)@.len()) as nat, |i: int| 0u8),
{
    while dst.len() < n
        invariant
            old(dst)@.len() <= dst@.len() <= n,
            dst@ == old(dst)@ + Seq::new((dst@.len() - old(dst)@.len()) as nat, |i: int| 0u8),
        decreases n - dst.len(),
    {
        dst.push(0);
        assert(dst@ =~= old(dst)@ + Seq::new((dst@.len() - old(dst)@.len()) as nat, |i: int| 0u8));
    }
}

/// Makes the image of intermediate-language text (see `dotnet_pe_image`).
pub fn create_minimal_dotnet_pe(il_code: &str, program_name: &str) -> (r: Result<Vec<u8>, GaiaError>)
    ensures
        r matches Ok(b) && b@ == dotnet_pe_image(il_code@, program_name@),
{
    let mut pe_data: Vec<u8> = Vec::new();
    pe_data.push(0x4D);
    pe_data.push(0x5A);
    pad_to(&mut pe_data, 0x80);
    let sig: [u8; 4] = [0x50, 0x45, 0, 0];
    let coff: [u8; 20] = [
        0x4C, 0x01, 0x03, 0x00, 0, 0, 0, 0, 0, 0, 0, 0, 0, 0, 0, 0, 0xE0, 0x00, 0x02, 0x01,
    ];
    let opt: [u8; 4] = [0x0B, 0x01, 0x0E, 0x00];
    push_all(&mut pe_data, &sig);
    push_all(&mut pe_data, &coff);
    push_all(&mut pe_data, &opt);
    proof {
        assert(pe_data@ =~= pe_headers());
    }
    let mut comment = owned("// IL Code for ");
    push_str(&mut comment, program_name);
    push_str(&mut comment, "\n");
    push_str(&mut comment, il_code);
    let mut text_bytes = comment.as_str().as_bytes_vec();
    let ghost head = pe_data@;
    pe_data.append(&mut text_bytes);
    let ghost whole = pe_data@;
    if pe_data.len() >= 1024 {
        pe_data.truncate(1024);
    } else {
        pad_to(&mut pe_data, 1024);
    }
    assert(pe_data@ =~= fit_to(whole, 1024));
    Ok(pe_data)
}

/// The image of intermediate-language code given as bytes, read as text.
pub fn generate_dotnet_pe_file(il_code: &[u8], program_name: &str) -> (r: Result<Vec<u8>, GaiaError>)
    ensures
        r matches Ok(b) && b@ == dotnet_pe_image(utf8_lossy(il_code@), program_name@),
        valid_utf8(il_code@) ==> (r matches Ok(b) && b@ == dotnet_pe_image(decode_utf8(il_code@), program_name@)),
{
    let il_text = lossy_text(il_code);
    create_minimal_dotnet_pe(il_text.as_str(), program_name)
}

/// The .NET PE image of a module: its intermediate-language text, with the
/// function mappings of the default settings, wrapped as
/// `create_minimal_dotnet_pe` does.
pub fn compile(program: &GaiaModule) -> (r: Result<Vec<u8>, GaiaError>)
    ensures
        match msil_module(*program, msil_field_types(*program), crate::adapters::default_mapper_table()) {
            Some(ps) => r matches Ok(b) && b@ == dotnet_pe_image(render(ps, 0), program.name@),
            None => r matches Err(GaiaError::Custom { message }) && message@ == "Unsupported constant type for CLR"@,
        },
{
    let il = crate::backends::msil::compile(program);
    match il {
        Ok(bytes) => {
            proof {
                let ps = msil_module(*program, msil_field_types(*program), crate::adapters::default_mapper_table())->Some_0;
                vstd::utf8::encode_utf8_valid_utf8(render(ps, 0));
                vstd::utf8::encode_utf8_decode_utf8(render(ps, 0));
            }
            generate_dotnet_pe_file(bytes.as_slice(), program.name.as_str())
        },
        Err(e) => Err(e),
    }
}

impl crate::backends::PEBackend {
    /// The .NET PE image of a module (see `compile`).
    pub fn compile(program: &GaiaModule) -> (r: Result<Vec<u8>, GaiaError>)
        ensures
            match msil_module(*program, msil_field_types(*program), crate::adapters::default_mapper_table()) {
                Some(ps) => r matches Ok(b) && b@ == dotnet_pe_image(render(ps, 0), program.name@),
                None => r matches Err(GaiaError::Custom { message }) && message@ == "Unsupported constant type for CLR"@,
            },
    {
        compile(program)
    }
}

} // verus!
