//! Argument resolution: a source file path and a compile-stage selector.
//!
//! Recognized arguments, after the program name: the stage flags `--lex`,
//! `--parse`, `--code-gen` and `-S`; `--help` or `-h`, which is not
//! implemented and stops with a message; and any path ending in `.c`.
//! Anything else is an unknown-argument error. At most one distinct stage
//! flag may be set, and a `.c` path must be present.

use vstd::prelude::*;
use vstd::string::{StrSliceExecFns, StringExecFns};

verus! {

/// The compile stage selected on the command line.
#[derive(PartialEq, Eq, Structural, Clone, Copy, Debug)]
pub enum CompileStage {
    Lex,
    Parse,
    CodeGen,
    EmitCode,
    All,
}

/// An argument error. Every variant is fatal: the driver reports it and
/// terminates with a non-zero status before any compilation work begins.
#[derive(Debug)]
pub enum ArgError {
    /// `--help` or `-h` was passed; help is not implemented.
    Help,
    /// An argument that is neither a stage flag nor a `.c` path.
    Unknown { arg: String },
    /// No `.c` source file among the arguments.
    NoSourceFile,
    /// More than one distinct stage flag.
    ConflictingFlags,
}

/// Mathematical image of an `ArgError`.
pub enum ArgErrorView {
    Help,
    Unknown { arg: Seq<char> },
    NoSourceFile,
    ConflictingFlags,
}

impl View for ArgError {
    type V = ArgErrorView;

    open spec fn view(&self) -> ArgErrorView {
        match self {
            ArgError::Help => ArgErrorView::Help,
            ArgError::Unknown { arg } => ArgErrorView::Unknown { arg: arg@ },
            ArgError::NoSourceFile => ArgErrorView::NoSourceFile,
            ArgError::ConflictingFlags => ArgErrorView::ConflictingFlags,
        }
    }
}

impl DeepView for ArgError {
    type V = ArgErrorView;

    open spec fn deep_view(&self) -> ArgErrorView {
        self.view()
    }
}

/// An argument naming a C source file: it ends in `.c`.
pub open spec fn is_c_path(a: Seq<char>) -> bool {
    a.len() >= 2 && a[a.len() - 2] == '.' && a[a.len() - 1] == 'c'
}

/// How a `.c` argument lands in the path buffer: the first one is taken as it
/// stands; a further absolute one replaces the buffer; a further relative one
/// is appended behind a separator.
pub open spec fn push_path(cur: Seq<char>, a: Seq<char>) -> Seq<char> {
    if cur.len() == 0 {
        a
    } else if a.len() > 0 && a[0] == '/' {
        a
    } else {
        cur + "/"@ + a
    }
}

/// The scan over the arguments from index `i` on, carrying the four stage
/// flags and the path buffer: the state left when every argument is consumed,
/// or the first error.
pub open spec fn spec_scan_args(
    args: Seq<Seq<char>>,
    i: int,
    lex: bool,
    parse_flag: bool,
    code_gen: bool,
    emit: bool,
    path: Seq<char>,
) -> Result<(bool, bool, bool, bool, Seq<char>), ArgErrorView>
    decreases args.len() - i,
{
    if i >= args.len() {
        Ok((lex, parse_flag, code_gen, emit, path))
    } else {
        let a = args[i];
        if a == "--lex"@ {
            spec_scan_args(args, i + 1, true, parse_flag, code_gen, emit, path)
        } else if a == "--parse"@ {
            spec_scan_args(args, i + 1, lex, true, code_gen, emit, path)
        } else if a == "--code-gen"@ {
            spec_scan_args(args, i + 1, lex, parse_flag, true, emit, path)
        } else if a == "-S"@ {
            spec_scan_args(args, i + 1, lex, parse_flag, code_gen, true, path)
        } else if a == "--help"@ || a == "-h"@ {
            Err(ArgErrorView::Help)
        } else if is_c_path(a) {
            spec_scan_args(args, i + 1, lex, parse_flag, code_gen, emit, push_path(path, a))
        } else {
            Err(ArgErrorView::Unknown { arg: a })
        }
    }
}

/// What `parse` returns on an argument vector: the argument at index 0 is the
/// program name and is skipped; the rest are scanned in order; then a missing
/// source file is reported before conflicting stage flags, and exactly zero
/// or one distinct stage flag selects the stage.
pub open spec fn spec_parse(args: Seq<Seq<char>>) -> Result<
    (Seq<char>, CompileStage),
    ArgErrorView,
> {
    match spec_scan_args(args, 1, false, false, false, false, Seq::empty()) {
        Err(e) => Err(e),
        Ok((lex, parse_flag, code_gen, emit, path)) => {
            if path.len() == 0 {
                Err(ArgErrorView::NoSourceFile)
            } else if !lex && !parse_flag && !code_gen && !emit {
                Ok((path, CompileStage::All))
            } else if lex && !parse_flag && !code_gen && !emit {
                Ok((path, CompileStage::Lex))
            } else if !lex && parse_flag && !code_gen && !emit {
                Ok((path, CompileStage::Parse))
            } else if !lex && !parse_flag && code_gen && !emit {
                Ok((path, CompileStage::CodeGen))
            } else if !lex && !parse_flag && !code_gen && emit {
                Ok((path, CompileStage::EmitCode))
            } else {
                Err(ArgErrorView::ConflictingFlags)
            }
        },
    }
}

/// Character-for-character string equality.
fn str_eq(a: &str, b: &str) -> (r: bool)
    ensures
        r == (a@ == b@),
{
    let n = a.unicode_len();
    let m = b.unicode_len();
    if n != m {
        return false;
    }
    let mut j: usize = 0;
    while j < n
        invariant
            n == a@.len(),
            n == b@.len(),
            j <= n,
            forall|k: int| 0 <= k < j ==> a@[k] == b@[k],
        decreases n - j,
    {
        if a.get_char(j) != b.get_char(j) {
            return false;
        }
        j += 1;
    }
    proof {
        assert(a@ =~= b@);
    }
    true
}

/// Resolves the command-line arguments to a source file path and a compile
/// stage: exactly `spec_parse` of the argument vector.
pub fn parse(args: Vec<String>) -> (r: Result<(String, CompileStage), ArgError>)
    ensures
        match r {
            Ok(p) => spec_parse(args.deep_view()) == Ok::<(Seq<char>, CompileStage), ArgErrorView>(
                (p.0@, p.1),
            ),
            Err(e) => spec_parse(args.deep_view()) == Err::<
                (Seq<char>, CompileStage),
                ArgErrorView,
            >(e@),
        },
{
    let ghost vargs = args.deep_view();
    let mut lex = false;
    let mut parse_flag = false;
    let mut code_gen = false;
    let mut emit = false;
    let mut path = String::new();
    let mut i: usize = 1;
    while i < args.len()
        invariant
            vargs == args.deep_view(),
            1 <= i,
            spec_scan_args(vargs, 1, false, false, false, false, Seq::empty()) == spec_scan_args(
                vargs,
                i as int,
                lex,
                parse_flag,
                code_gen,
                emit,
                path@,
            ),
        decreases args.len() - i,
    {
        let arg: &String = &args[i];
        proof {
            assert(vargs[i as int] == arg@);
        }
        if str_eq(arg.as_str(), "--lex") {
            lex = true;
        } else if str_eq(arg.as_str(), "--parse") {
            parse_flag = true;
        } else if str_eq(arg.as_str(), "--code-gen") {
            code_gen = true;
        } else if str_eq(arg.as_str(), "-S") {
            emit = true;
        } else if str_eq(arg.as_str(), "--help") || str_eq(arg.as_str(), "-h") {
            return Err(ArgError::Help);
        } else {
            let m = arg.as_str().unicode_len();
            if m >= 2 && arg.as_str().get_char(m - 2) == '.' && arg.as_str().get_char(m - 1)
                == 'c' {
                if path.as_str().is_empty() {
                    path = arg.clone();
                } else if arg.as_str().get_char(0) == '/' {
                    path = arg.clone();
                } else {
                    path.append("/");
                    path.append(arg.as_str());
                }
            } else {
                return Err(ArgError::Unknown { arg: arg.clone() });
            }
        }
        i = i + 1;
    }
    if path.as_str().is_empty() {
        return Err(ArgError::NoSourceFile);
    }
    if !lex && !parse_flag && !code_gen && !emit {
        return Ok((path, CompileStage::All));
    }
    if lex && !parse_flag && !code_gen && !emit {
        return Ok((path, CompileStage::Lex));
    }
    if !lex && parse_flag && !code_gen && !emit {
        return Ok((path, CompileStage::Parse));
    }
    if !lex && !parse_flag && code_gen && !emit {
        return Ok((path, CompileStage::CodeGen));
    }
    if !lex && !parse_flag && !code_gen && emit {
        return Ok((path, CompileStage::EmitCode));
    }
    Err(ArgError::ConflictingFlags)
}

} // verus!
