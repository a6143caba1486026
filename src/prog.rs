use vstd::prelude::*;

verus! {

/// The kinds of program file a runtime can load.
#[derive(Clone, Copy, Debug, PartialEq, Eq, Structural)]
pub enum PrgType {
    /// An OpenCL source file
    Src,
    /// An IR (Intermediate Representation) file, typically specific to an architecture
    Ir,
    /// A bitstream, typically loaded to an FPGA
    Bin,
    /// A bitstream, typically loaded to a dataflow or CGRA architecture
    Graph,
}

/// A container of computational kernels: a file path, its type, and the
/// arguments to pass to the compiler when its kernels are built.
pub struct Prog {
    prog_path: String,
    compile_args: String,
    program_type: PrgType,
}

impl Prog {
    pub closed spec fn path(&self) -> Seq<char> {
        self.prog_path@
    }

    pub closed spec fn args(&self) -> Seq<char> {
        self.compile_args@
    }

    pub closed spec fn kind(&self) -> PrgType {
        self.program_type
    }

    /// A program read from `prog_path`, with no compiler arguments.
    pub fn from(prog_path: &str, prog_type: PrgType) -> (r: Prog)
        ensures
            r.path() == prog_path@,
            r.args() == Seq::<char>::empty(),
            r.kind() == prog_type,
    {
        proof {
            reveal_strlit("");
        }
        Prog {
            prog_path: prog_path.to_owned(),
            compile_args: "".to_owned(),
            program_type: prog_type,
        }
    }

    /// The same program, with `compile_args` as the compiler arguments.
    pub fn with_compile_args(self, compile_args: &str) -> (r: Prog)
        ensures
            r.path() == self.path(),
            r.args() == compile_args@,
            r.kind() == self.kind(),
    {
        Prog {
            prog_path: self.prog_path,
            compile_args: compile_args.to_owned(),
            program_type: self.program_type,
        }
    }

    /// Path of the program file.
    pub fn prog_path(&self) -> (r: &str)
        ensures
            r@ == self.path(),
    {
        self.prog_path.as_str()
    }

    /// Arguments for the compiler.
    pub fn compile_args(&self) -> (r: &str)
        ensures
            r@ == self.args(),
    {
        self.compile_args.as_str()
    }

    /// Type of the program file.
    pub fn program_type(&self) -> (r: PrgType)
        ensures
            r == self.kind(),
    {
        self.program_type
    }
}

} // verus!
