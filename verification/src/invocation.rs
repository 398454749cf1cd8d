//! The runner's own command line: `--target <name> -- <arguments>`.

use vstd::prelude::*;
use crate::errors::RunnerError;
use crate::text::{same_text, texts};

verus! {

/// The platforms a test binary can be run for.
#[derive(Debug, Clone, Copy, PartialEq, Eq)]
pub enum Target {
    /// WebAssembly with the second preview of WASI, run by `wasmtime`.
    Wasm32WasiP2,
}

/// A command line that was understood.
#[derive(Debug, Clone, PartialEq, Eq)]
pub struct Invocation {
    pub target: Target,
    /// The arguments after `--`, which belong to the test binary.
    pub trailing: Vec<String>,
}

/// Whether `i` is the place of the first `token` among `tokens`.
pub open spec fn is_first(tokens: Seq<Seq<char>>, token: Seq<char>, i: int) -> bool {
    &&& 0 <= i < tokens.len()
    &&& tokens[i] == token
    &&& forall|j: int| 0 <= j < i ==> tokens[j] != token
}

/// `tokens` without each occurrence of `token`.
pub open spec fn without(tokens: Seq<Seq<char>>, token: Seq<char>) -> Seq<Seq<char>>
    decreases tokens.len(),
{
    if tokens.len() == 0 {
        Seq::empty()
    } else if tokens.last() == token {
        without(tokens.drop_last(), token)
    } else {
        without(tokens.drop_last(), token).push(tokens.last())
    }
}

/// Whether `r` is the right reading of a command line whose first `--` has
/// `program` before it and `trailing` after it.
pub open spec fn reads_as(
    r: Result<Invocation, RunnerError>,
    program: Seq<Seq<char>>,
    trailing: Seq<Seq<char>>,
) -> bool {
    if program == seq!["--target"@, "wasm32-wasip2"@] {
        r matches Ok(invocation) && invocation.target == Target::Wasm32WasiP2 && texts(
            invocation.trailing@,
        ) == trailing
    } else if program.contains("--target"@) {
        r matches Err(RunnerError::UnrecognizedTarget { tokens }) && texts(tokens@) == without(
            program,
            "--target"@,
        )
    } else {
        r matches Err(RunnerError::MissingTargetArgument)
    }
}

/// The place of the first `token` among `tokens`, if it occurs.
pub fn find_token(tokens: &Vec<String>, token: &str) -> (r: Option<usize>)
    ensures
        match r {
            Some(i) => is_first(texts(tokens@), token@, i as int),
            None => !texts(tokens@).contains(token@),
        },
{
    let mut i: usize = 0;
    while i < tokens.len()
        invariant
            i <= tokens.len(),
            forall|j: int| 0 <= j < i ==> #[trigger] texts(tokens@)[j] != token@,
        decreases tokens.len() - i,
    {
        if same_text(tokens[i].as_str(), token) {
            return Some(i);
        }
        i += 1;
    }
    None
}

/// The tokens that are not `token`, in order.
pub fn tokens_without(tokens: &Vec<String>, token: &str) -> (r: Vec<String>)
    ensures
        texts(r@) == without(texts(tokens@), token@),
{
    let ghost all = texts(tokens@);
    let mut kept: Vec<String> = Vec::new();
    let mut i: usize = 0;
    proof {
        assert(all.take(0) =~= Seq::<Seq<char>>::empty());
        assert(texts(kept@) =~= without(all.take(0), token@));
    }
    while i < tokens.len()
        invariant
            i <= tokens.len(),
            all == texts(tokens@),
            texts(kept@) == without(all.take(i as int), token@),
        decreases tokens.len() - i,
    {
        proof {
            assert(all.take(i + 1).drop_last() =~= all.take(i as int));
            assert(all.take(i + 1).last() == tokens@[i as int]@);
        }
        if !same_text(tokens[i].as_str(), token) {
            let ghost before = texts(kept@);
            kept.push(tokens[i].clone());
            proof {
                assert(texts(kept@) =~= before.push(tokens@[i as int]@));
            }
        }
        i += 1;
    }
    proof {
        assert(all.take(i as int) =~= all);
    }
    kept
}

/// Reads the runner's command line, without the program's own name.
///
/// The tokens before the first `--` must be exactly `--target
/// wasm32-wasip2`; those after it are the test binary's arguments and are
/// handed back unchanged. A command line without `--` is refused with
/// `MissingSeparator`; one whose leading tokens hold no `--target` with
/// `MissingTargetArgument`; any other with `UnrecognizedTarget`, which
/// carries the leading tokens that are not `--target`.
pub fn parse_invocation(args: Vec<String>) -> (r: Result<Invocation, RunnerError>)
    ensures
        !texts(args@).contains("--"@) ==> r matches Err(RunnerError::MissingSeparator),
        forall|i: int|
            is_first(texts(args@), "--"@, i) ==> reads_as(
                r,
                #[trigger] texts(args@).take(i),
                texts(args@).skip(i + 1),
            ),
{
    let ghost all = texts(args@);
    let mut program = args;
    let at = match find_token(&program, "--") {
        Some(i) => i,
        None => {
            return Err(RunnerError::MissingSeparator);
        },
    };
    assert(at < program.len()) by {
        assert(is_first(texts(program@), "--"@, at as int));
    }
    let trailing = program.split_off(at + 1);
    program.truncate(at);
    proof {
        assert(texts(program@) =~= all.take(at as int));
        assert(texts(trailing@) =~= all.skip(at + 1));
        assert forall|i: int| is_first(all, "--"@, i) implies i == at by {
            if i < at {
                assert(all[i] == "--"@);
            } else if at < i {
                assert(all[at as int] == "--"@);
            }
        }
    }
    let exact = program.len() == 2 && same_text(program[0].as_str(), "--target") && same_text(
        program[1].as_str(),
        "wasm32-wasip2",
    );
    proof {
        if exact {
            assert(texts(program@) =~= seq!["--target"@, "wasm32-wasip2"@]);
        } else if texts(program@) == seq!["--target"@, "wasm32-wasip2"@] {
            assert(texts(program@).len() == 2);
            assert(texts(program@)[0] == "--target"@);
            assert(texts(program@)[1] == "wasm32-wasip2"@);
        }
    }
    if exact {
        Ok(Invocation { target: Target::Wasm32WasiP2, trailing })
    } else {
        match find_token(&program, "--target") {
            Some(_) => {
                let tokens = tokens_without(&program, "--target");
                Err(RunnerError::UnrecognizedTarget { tokens })
            },
            None => Err(RunnerError::MissingTargetArgument),
        }
    }
}

} // verus!
