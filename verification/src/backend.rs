//! The backend emitter, as far as it is decided here: which tools of the
//! native toolchain are run on the textual IR of a module, with which
//! arguments and in which order, and what the end of each run means. The
//! tools themselves are run by the caller.

use vstd::prelude::*;
use vstd::string::StringExecFns;
use crate::error::{ErrorView, TranslateError};

verus! {

/// Which symbols the linked module exports.
#[derive(Clone, Debug, PartialEq, Eq)]
pub enum ExportPolicy {
    /// Every symbol. This exposes what the module did not declare public.
    All,
    /// The named functions only.
    Only(Vec<String>),
}

/// What the toolchain is asked to do.
#[derive(Clone, Debug, PartialEq, Eq)]
pub struct BackendOptions {
    /// The program that turns textual IR into an object file.
    pub object_tool: String,
    /// The program that links the object file into a loadable module.
    pub link_tool: String,
    /// The program that renders the loadable module as text.
    pub text_tool: String,
    /// The target triple of the object file.
    pub target_triple: String,
    /// Whether the module is linked without an entry point.
    pub no_entry: bool,
    pub exports: ExportPolicy,
    /// Whether the loadable module is rendered as text, for inspection.
    pub disassemble: bool,
    /// Where the textual IR is written before the first tool runs.
    pub ir_path: String,
    pub object_path: String,
    pub binary_path: String,
    /// Where the text that the third tool prints is kept.
    pub text_path: String,
}

/// The stages of the backend, in their order.
#[derive(Clone, Copy, Debug, PartialEq, Eq, Structural)]
pub enum Stage {
    ObjectCode,
    Link,
    Disassemble,
}

/// One run of a tool.
#[derive(Clone, Debug, PartialEq, Eq)]
pub struct ToolInvocation {
    pub stage: Stage,
    pub program: String,
    pub args: Vec<String>,
    /// Where the artifact of the run is kept.
    pub artifact: String,
    /// Whether the artifact is what the tool prints on its standard
    /// output, which the caller then writes to `artifact`.
    pub captures_output: bool,
}

/// How a run of a tool ended.
#[derive(Clone, Copy, Debug, PartialEq, Eq, Structural)]
pub enum ToolStatus {
    /// The program could not be started.
    NotStarted,
    /// The program exited with the code.
    Exited(i32),
    /// The program ended without an exit code.
    Killed,
}

/// The views of strings.
pub open spec fn texts(strings: Seq<String>) -> Seq<Seq<char>> {
    strings.map_values(|s: String| s@)
}

/// The arguments of the first tool: the target, the kind of output, the
/// file of textual IR and the object file.
pub open spec fn object_code_args(o: &BackendOptions) -> Seq<Seq<char>> {
    seq!["-mtriple="@ + o.target_triple@, "-filetype=obj"@, o.ir_path@, "-o="@ + o.object_path@]
}

/// The arguments that select the exported symbols.
pub open spec fn export_args(policy: &ExportPolicy) -> Seq<Seq<char>> {
    match policy {
        ExportPolicy::All => seq!["--export-all"@],
        ExportPolicy::Only(names) => names@.map_values(|name: String| "--export="@ + name@),
    }
}

/// The arguments of the second tool: the object file, the loadable module,
/// the entry-point mode and the exported symbols.
pub open spec fn link_args(o: &BackendOptions) -> Seq<Seq<char>> {
    seq![o.object_path@, "-o"@, o.binary_path@] + (if o.no_entry {
        seq!["--no-entry"@]
    } else {
        Seq::empty()
    }) + export_args(&o.exports)
}

/// The arguments of the third tool: the loadable module.
pub open spec fn disassemble_args(o: &BackendOptions) -> Seq<Seq<char>> {
    seq![o.binary_path@]
}

/// The invocation runs `program` with `args` for the stage and keeps its artifact at `artifact`.
pub open spec fn invocation_is(
    inv: ToolInvocation,
    stage: Stage,
    program: Seq<char>,
    args: Seq<Seq<char>>,
    artifact: Seq<char>,
    captures_output: bool,
) -> bool {
    &&& inv.stage == stage
    &&& inv.program@ == program
    &&& texts(inv.args@) == args
    &&& inv.artifact@ == artifact
    &&& inv.captures_output == captures_output
}

/// The options under which the toolchain of LLVM 15 makes a WebAssembly
/// module without an entry point that exports every symbol, and renders it
/// as text, with its artifacts under `/tmp`.
pub fn default_options() -> (o: BackendOptions)
    ensures
        o.object_tool@ == "llc-15"@,
        o.link_tool@ == "wasm-ld-15"@,
        o.text_tool@ == "wasm2wat"@,
        o.target_triple@ == "wasm32-unknown-unknown"@,
        o.no_entry,
        o.exports == ExportPolicy::All,
        o.disassemble,
        o.ir_path@ == "/tmp/main.ll"@,
        o.object_path@ == "/tmp/main.o"@,
        o.binary_path@ == "/tmp/main.wasm"@,
        o.text_path@ == "/tmp/main.wat"@,
{
    BackendOptions {
        object_tool: String::from_str("llc-15"),
        link_tool: String::from_str("wasm-ld-15"),
        text_tool: String::from_str("wasm2wat"),
        target_triple: String::from_str("wasm32-unknown-unknown"),
        no_entry: true,
        exports: ExportPolicy::All,
        disassemble: true,
        ir_path: String::from_str("/tmp/main.ll"),
        object_path: String::from_str("/tmp/main.o"),
        binary_path: String::from_str("/tmp/main.wasm"),
        text_path: String::from_str("/tmp/main.wat"),
    }
}

/// The arguments that select the exported symbols.
fn export_arguments(policy: &ExportPolicy, args: &mut Vec<String>)
    ensures
        texts(final(args)@) == texts(old(args)@) + export_args(policy),
{
    let ghost before = texts(args@);
    match policy {
        ExportPolicy::All => {
            args.push(String::from_str("--export-all"));
            assert(texts(args@) =~= before + export_args(policy));
        },
        ExportPolicy::Only(names) => {
            let mut i: usize = 0;
            assert(texts(args@) =~= before + export_args(policy).take(0));
            while i < names.len()
                invariant
                    i <= names.len(),
                    policy == (ExportPolicy::Only(*names)),
                    export_args(policy).len() == names.len(),
                    texts(args@) == before + export_args(policy).take(i as int),
                decreases names.len() - i,
            {
                let ghost so_far = texts(args@);
                args.push(String::from_str("--export=").concat(names[i].as_str()));
                assert(texts(args@) =~= so_far.push(export_args(policy)[i as int]));
                assert(export_args(policy).take(i + 1) =~= export_args(policy).take(i as int).push(
                    export_args(policy)[i as int],
                ));
                i += 1;
            }
            assert(export_args(policy).take(names.len() as int) =~= export_args(policy));
        },
    }
}

/// The runs of the backend for one module, in their order: object code,
/// linking and, where it is asked for, disassembly. Each run reads the
/// artifact of the run before it.
pub fn plan(o: &BackendOptions) -> (runs: Vec<ToolInvocation>)
    ensures
        runs.len() == if o.disassemble {
            3int
        } else {
            2int
        },
        invocation_is(runs[0], Stage::ObjectCode, o.object_tool@, object_code_args(o), o.object_path@, false),
        invocation_is(runs[1], Stage::Link, o.link_tool@, link_args(o), o.binary_path@, false),
        o.disassemble ==> invocation_is(
            runs[2],
            Stage::Disassemble,
            o.text_tool@,
            disassemble_args(o),
            o.text_path@,
            true,
        ),
{
    let mut runs: Vec<ToolInvocation> = Vec::new();

    let mut args: Vec<String> = Vec::new();
    args.push(String::from_str("-mtriple=").concat(o.target_triple.as_str()));
    args.push(String::from_str("-filetype=obj"));
    args.push(o.ir_path.clone());
    args.push(String::from_str("-o=").concat(o.object_path.as_str()));
    assert(texts(args@) =~= object_code_args(o));
    runs.push(
        ToolInvocation {
            stage: Stage::ObjectCode,
            program: o.object_tool.clone(),
            args,
            artifact: o.object_path.clone(),
            captures_output: false,
        },
    );

    let mut args: Vec<String> = Vec::new();
    args.push(o.object_path.clone());
    args.push(String::from_str("-o"));
    args.push(o.binary_path.clone());
    if o.no_entry {
        args.push(String::from_str("--no-entry"));
    }
    let ghost head = texts(args@);
    assert(head =~= seq![o.object_path@, "-o"@, o.binary_path@] + (if o.no_entry {
        seq!["--no-entry"@]
    } else {
        Seq::empty()
    }));
    export_arguments(&o.exports, &mut args);
    runs.push(
        ToolInvocation {
            stage: Stage::Link,
            program: o.link_tool.clone(),
            args,
            artifact: o.binary_path.clone(),
            captures_output: false,
        },
    );

    if o.disassemble {
        let mut args: Vec<String> = Vec::new();
        args.push(o.binary_path.clone());
        assert(texts(args@) =~= disassemble_args(o));
        runs.push(
            ToolInvocation {
                stage: Stage::Disassemble,
                program: o.text_tool.clone(),
                args,
                artifact: o.text_path.clone(),
                captures_output: true,
            },
        );
    }
    runs
}

/// What follows the run at position `at` of `runs`, given how it ended.
/// Only an exit with code zero lets the backend go on: to the next run, or,
/// after the last one, to its end. Any other end fails the backend for the
/// module, with the name of the program and what it wrote to its standard
/// error stream.
pub fn advance(runs: &Vec<ToolInvocation>, at: usize, status: ToolStatus, stderr: String) -> (next: Result<
    Option<usize>,
    TranslateError,
>)
    requires
        at < runs.len(),
    ensures
        status == ToolStatus::Exited(0) ==> next == Ok::<Option<usize>, TranslateError>(
            if at + 1 < runs.len() {
                Some((at + 1) as usize)
            } else {
                None
            },
        ),
        status != ToolStatus::Exited(0) ==> (next matches Err(e) && e@ == (ErrorView::BackendToolFailure {
            tool: runs[at as int].program@,
            stderr: stderr@,
        })),
{
    match status {
        ToolStatus::Exited(0) => {
            if at + 1 < runs.len() {
                Ok(Some(at + 1))
            } else {
                Ok(None)
            }
        },
        _ => Err(TranslateError::BackendToolFailure { tool: runs[at].program.clone(), stderr }),
    }
}

} // verus!
