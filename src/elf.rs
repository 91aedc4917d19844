//! Program images: the code section of an ELF file, placed on the bus.
use object::{Object, ObjectSection};
use vstd::prelude::*;

use crate::cpu::CPU;
use crate::memory::MEM_SIZE;

verus! {

/// The contents of the section called `name` in the object file `image`, as
/// the object crate reads them: none where the file does not parse, holds no
/// such section, or the section's data cannot be read.
pub uninterp spec fn object_section(image: Seq<u8>, name: Seq<char>) -> Option<Seq<u8>>;

/// Relies on object's `File::parse`, `Object::section_by_name` and
/// `ObjectSection::data`: the raw bytes of the named section, which depend on
/// the bytes of the file and on the name alone.
#[verifier::external_body]
fn section_data(image: &[u8], name: &str) -> (r: Option<Vec<u8>>)
    ensures
        match r {
            Some(v) => object_section(image@, name@) == Some(v@),
            None => object_section(image@, name@) is None,
        },
{
    let file = object::File::parse(image).ok()?;
    let section = file.section_by_name(name)?;
    let data = section.data().ok()?;
    Some(data.to_vec())
}

/// An ELF file on disk, named by its path.
pub struct ELF {
    path: String,
}

impl View for ELF {
    /// The path of the file.
    type V = Seq<char>;

    closed spec fn view(&self) -> Seq<char> {
        self.path@
    }
}

impl ELF {
    pub fn new(path: &str) -> (r: ELF)
        ensures
            r@ == path@,
    {
        ELF { path: path.to_owned() }
    }

    /// The path of the file.
    pub fn path(&self) -> (r: &str)
        ensures
            r@ == self@,
    {
        self.path.as_str()
    }
}

/// Why a program image could not be placed on the bus.
#[derive(Debug, Clone, Copy, PartialEq, Eq, Structural)]
pub enum LoadError {
    /// The image is no object file with a readable code section.
    NoCodeSection,
    /// The code section is longer than memory.
    TooLarge,
}

/// The name of the section that holds the program's code.
pub open spec fn code_section_name() -> Seq<char> {
    ".text.init"@
}

/// Copies the code section of the object file `image` to the start of
/// memory. Registers and the program counter are left as they are; so is the
/// whole hart when the image is refused.
pub fn load_program(cpu: &mut CPU, image: &[u8]) -> (r: Result<(), LoadError>)
    ensures
        match object_section(image@, code_section_name()) {
            None => r == Err::<(), LoadError>(LoadError::NoCodeSection) && final(cpu)@ == old(cpu)@,
            Some(text) => if text.len() <= MEM_SIZE {
                &&& r == Ok::<(), LoadError>(())
                &&& final(cpu)@.mem == text + old(cpu)@.mem.subrange(text.len() as int, MEM_SIZE as int)
                &&& final(cpu)@.regs == old(cpu)@.regs
                &&& final(cpu)@.pc == old(cpu)@.pc
            } else {
                r == Err::<(), LoadError>(LoadError::TooLarge) && final(cpu)@ == old(cpu)@
            },
        },
{
    let text = match section_data(image, ".text.init") {
        Some(t) => t,
        None => return Err(LoadError::NoCodeSection),
    };
    match cpu.bus.init_memory(text.as_slice()) {
        Ok(()) => Ok(()),
        Err(_) => Err(LoadError::TooLarge),
    }
}

} // verus!
