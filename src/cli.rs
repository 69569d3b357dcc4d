use vstd::prelude::*;

verus! {

/// The options of a run: the file of machine code to read, the file to
/// write the listing to (none is written when absent), and whether to
/// simulate the register effects.
#[derive(Debug, Clone)]
pub struct Args {
    pub asm_bin_path: String,
    pub output_file: Option<String>,
    pub sim: bool,
}

} // verus!
