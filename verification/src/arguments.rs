//! The argument vector handed to the sandbox runtime: ancestor preopens,
//! translated environment variables, the forced preopen of the working
//! directory, and the caller's own arguments.

use vstd::prelude::*;
use crate::errors::RunnerError;
use crate::paths::{
    ancestor_chain, ancestor_chain_of, climbs, is_same_directory, join_segments, joined,
    lemma_ancestor_chain_complete, relative_components, relativize, same_directory,
};
use crate::text::texts;

verus! {

/// The path-valued variables of the build environment that the sandboxed
/// program needs, as they stood when the runner started. A variable that was
/// not set is `None`.
#[derive(Debug, Clone, PartialEq, Eq)]
pub struct EnvironmentSnapshot {
    /// The value of `OUT_DIR`: the build's output directory.
    pub out_dir: Option<String>,
    /// The value of `CARGO_MANIFEST_DIR`: the directory of the manifest.
    pub manifest_dir: Option<String>,
}

/// An environment variable with its value rewritten relative to the working
/// directory.
#[derive(Debug, Clone, PartialEq, Eq)]
pub struct EnvTranslation {
    pub name: String,
    pub path: String,
}

impl View for EnvTranslation {
    type V = (Seq<char>, Seq<char>);

    open spec fn view(&self) -> (Seq<char>, Seq<char>) {
        (self.name@, self.path@)
    }
}

/// The views of a sequence of translations.
pub open spec fn pairs(v: Seq<EnvTranslation>) -> Seq<(Seq<char>, Seq<char>)> {
    v.map_values(|t: EnvTranslation| t@)
}

/// What the build of an argument vector is to yield.
pub enum Expected {
    /// The argument vector.
    Arguments(Seq<Seq<char>>),
    /// The failure to write `target` relative to `base`.
    Unrelatable { target: Seq<char>, base: Seq<char> },
}

/// Whether `r` is what `expected` asks for.
pub open spec fn meets(r: Result<Vec<String>, RunnerError>, expected: Expected) -> bool {
    match expected {
        Expected::Arguments(args) => r is Ok && texts(r.unwrap()@) == args,
        Expected::Unrelatable { target, base } => r matches Err(
            RunnerError::PathRelativization { target: t, base: b },
        ) && t@ == target && b@ == base,
    }
}

/// One `--dir <path>` pair for each path that is not empty, in order.
pub open spec fn dir_flags(paths: Seq<Seq<char>>) -> Seq<Seq<char>>
    decreases paths.len(),
{
    if paths.len() == 0 {
        Seq::empty()
    } else if paths.last().len() == 0 {
        dir_flags(paths.drop_last())
    } else {
        dir_flags(paths.drop_last()) + seq!["--dir"@, paths.last()]
    }
}

/// The four tokens of one translated variable: `--env NAME=<path>`, then
/// `--dir <path>`.
pub open spec fn env_tokens(name: Seq<char>, path: Seq<char>) -> Seq<Seq<char>> {
    seq!["--env"@, name + "="@ + path, "--dir"@, path]
}

/// The tokens of all translated variables, in order.
pub open spec fn env_flags(translations: Seq<(Seq<char>, Seq<char>)>) -> Seq<Seq<char>>
    decreases translations.len(),
{
    if translations.len() == 0 {
        Seq::empty()
    } else {
        env_flags(translations.drop_last()) + env_tokens(
            translations.last().0,
            translations.last().1,
        )
    }
}

/// Everything that precedes the caller's own arguments: `run`, the ancestor
/// preopens, the translated variables, and last the forced `--dir .`.
pub open spec fn preamble(
    chain: Seq<Seq<char>>,
    translations: Seq<(Seq<char>, Seq<char>)>,
) -> Seq<Seq<char>> {
    seq!["run"@] + dir_flags(chain) + env_flags(translations) + seq!["--dir"@, "."@]
}

/// The whole argument vector.
pub open spec fn argument_vector(
    chain: Seq<Seq<char>>,
    translations: Seq<(Seq<char>, Seq<char>)>,
    trailing: Seq<Seq<char>>,
) -> Seq<Seq<char>> {
    preamble(chain, translations) + trailing
}

/// The value of a variable rewritten relative to the working directory: `.`
/// where the value is the working directory itself, else the joined relative
/// path, and `None` where there is none.
pub open spec fn env_path(value: Seq<char>, cwd: Seq<char>) -> Option<Seq<char>> {
    if same_directory(value, cwd) {
        Some("."@)
    } else {
        match relative_components(value, cwd) {
            Some(segments) => Some(joined(segments)),
            None => None,
        }
    }
}

/// The translation of one variable, where it is set.
pub open spec fn translation_of(name: Seq<char>, value: Option<Seq<char>>, cwd: Seq<char>) -> Seq<
    (Seq<char>, Seq<char>),
> {
    match value {
        Some(v) => seq![(name, env_path(v, cwd).unwrap())],
        None => Seq::empty(),
    }
}

/// Whether a variable is set to a value that cannot be rewritten.
pub open spec fn untranslatable(value: Option<Seq<char>>, cwd: Seq<char>) -> bool {
    value is Some && env_path(value.unwrap(), cwd) is None
}

/// What `build_arguments` yields: the first path that cannot be rewritten
/// (the root, then `OUT_DIR`, then `CARGO_MANIFEST_DIR`) is reported; with
/// none, the argument vector is built.
pub open spec fn expected_build(
    root: Seq<char>,
    cwd: Seq<char>,
    out_dir: Option<Seq<char>>,
    manifest_dir: Option<Seq<char>>,
    trailing: Seq<Seq<char>>,
) -> Expected {
    match relative_components(root, cwd) {
        None => Expected::Unrelatable { target: root, base: cwd },
        Some(segments) => if untranslatable(out_dir, cwd) {
            Expected::Unrelatable { target: out_dir.unwrap(), base: cwd }
        } else if untranslatable(manifest_dir, cwd) {
            Expected::Unrelatable { target: manifest_dir.unwrap(), base: cwd }
        } else {
            Expected::Arguments(
                argument_vector(
                    ancestor_chain_of(segments),
                    translation_of("OUT_DIR"@, out_dir, cwd) + translation_of(
                        "CARGO_MANIFEST_DIR"@,
                        manifest_dir,
                        cwd,
                    ),
                    trailing,
                ),
            )
        },
    }
}

/// A variable whose value is the working directory itself is rewritten to
/// `.`, which is not `./`.
pub proof fn lemma_working_directory_is_dot(cwd: Seq<char>)
    ensures
        env_path(cwd, cwd) == Some("."@),
        "."@ != "./"@,
{
    reveal_strlit(".");
    reveal_strlit("./");
    assert("."@.len() == 1);
    assert("./"@.len() == 2);
}

/// Paths of which none is empty get one `--dir` pair each, in order.
pub proof fn lemma_dir_flags_of_nonempty(paths: Seq<Seq<char>>)
    requires
        forall|i: int| 0 <= i < paths.len() ==> (#[trigger] paths[i]).len() > 0,
    ensures
        dir_flags(paths).len() == 2 * paths.len(),
        forall|i: int|
            0 <= i < paths.len() ==> dir_flags(paths).subrange(2 * i, 2 * i + 2) == seq![
                "--dir"@,
                #[trigger] paths[i],
            ],
    decreases paths.len(),
{
    if paths.len() > 0 {
        let front = paths.drop_last();
        lemma_dir_flags_of_nonempty(front);
        assert forall|i: int| 0 <= i < paths.len() implies dir_flags(paths).subrange(
            2 * i,
            2 * i + 2,
        ) == seq!["--dir"@, #[trigger] paths[i]] by {
            if i < front.len() {
                assert(front[i] == paths[i]);
                assert(dir_flags(paths).subrange(2 * i, 2 * i + 2) =~= dir_flags(front).subrange(
                    2 * i,
                    2 * i + 2,
                ));
            } else {
                assert(dir_flags(paths).subrange(2 * i, 2 * i + 2) =~= seq![
                    "--dir"@,
                    paths[i],
                ]);
            }
        }
    }
}

/// Each translated variable gives four tokens, in order.
pub proof fn lemma_env_flags_layout(translations: Seq<(Seq<char>, Seq<char>)>)
    ensures
        env_flags(translations).len() == 4 * translations.len(),
        forall|j: int|
            0 <= j < translations.len() ==> env_flags(translations).subrange(4 * j, 4 * j + 4)
                == env_tokens((#[trigger] translations[j]).0, translations[j].1),
    decreases translations.len(),
{
    if translations.len() > 0 {
        let front = translations.drop_last();
        lemma_env_flags_layout(front);
        assert forall|j: int| 0 <= j < translations.len() implies env_flags(
            translations,
        ).subrange(4 * j, 4 * j + 4) == env_tokens(
            (#[trigger] translations[j]).0,
            translations[j].1,
        ) by {
            if j < front.len() {
                assert(front[j] == translations[j]);
                assert(env_flags(translations).subrange(4 * j, 4 * j + 4) =~= env_flags(
                    front,
                ).subrange(4 * j, 4 * j + 4));
            } else {
                assert(env_flags(translations).subrange(4 * j, 4 * j + 4) =~= env_tokens(
                    translations[j].0,
                    translations[j].1,
                ));
            }
        }
    }
}

/// Whether `args` ends with `--dir .` and then `trailing`, token for token.
pub open spec fn ends_with_working_directory(
    args: Seq<Seq<char>>,
    trailing: Seq<Seq<char>>,
) -> bool {
    let n = args.len() - trailing.len();
    &&& n >= 2
    &&& args[n - 2] == "--dir"@
    &&& args[n - 1] == "."@
    &&& args.subrange(n, args.len() as int) == trailing
}

/// The ancestor chain of a path that only climbs is preopened entry by
/// entry: `d` segments give `d + 1` pairs `--dir <entry>`, in the order of
/// the chain.
pub proof fn lemma_chain_is_preopened(segments: Seq<Seq<char>>)
    requires
        climbs(segments),
    ensures
        ({
            let chain = ancestor_chain_of(segments);
            &&& dir_flags(chain).len() == 2 * (segments.len() + 1)
            &&& forall|k: int|
                0 <= k <= segments.len() ==> dir_flags(chain).subrange(2 * k, 2 * k + 2) == seq![
                    "--dir"@,
                    #[trigger] chain[k],
                ]
        }),
{
    lemma_ancestor_chain_complete(segments);
    lemma_dir_flags_of_nonempty(ancestor_chain_of(segments));
}

/// The working directory is preopened last: whatever the ancestor chain
/// and the translated variables are, the two tokens just before the
/// caller's own arguments are `--dir` and `.`.
pub proof fn lemma_final_dir_wins(
    chain: Seq<Seq<char>>,
    translations: Seq<(Seq<char>, Seq<char>)>,
    trailing: Seq<Seq<char>>,
)
    ensures
        ({
            let args = argument_vector(chain, translations, trailing);
            let n = args.len() - trailing.len();
            &&& n >= 3
            &&& args[0] == "run"@
            &&& args[n - 2] == "--dir"@
            &&& args[n - 1] == "."@
        }),
{
}

/// The caller's own arguments end the argument vector, each token as it
/// was and in the order it came in.
pub proof fn lemma_trailing_unchanged(
    chain: Seq<Seq<char>>,
    translations: Seq<(Seq<char>, Seq<char>)>,
    trailing: Seq<Seq<char>>,
)
    ensures
        ({
            let args = argument_vector(chain, translations, trailing);
            &&& args.len() >= trailing.len()
            &&& args.subrange(args.len() - trailing.len(), args.len() as int) == trailing
        }),
{
    let args = argument_vector(chain, translations, trailing);
    assert(args.subrange(args.len() - trailing.len(), args.len() as int) =~= trailing);
}

/// A translated variable is announced and preopened under one path: its
/// tokens stand together in the preamble, after `run` and the ancestor
/// preopens, as `--env NAME=<path>` and `--dir <path>` with the same
/// `<path>`.
pub proof fn lemma_env_tokens_share_path(
    chain: Seq<Seq<char>>,
    translations: Seq<(Seq<char>, Seq<char>)>,
    trailing: Seq<Seq<char>>,
    j: int,
)
    requires
        0 <= j < translations.len(),
    ensures
        ({
            let args = argument_vector(chain, translations, trailing);
            let at = 1 + dir_flags(chain).len() + 4 * j;
            &&& at + 4 <= args.len() - trailing.len() - 2
            &&& args[at] == "--env"@
            &&& args[at + 1] == translations[j].0 + "="@ + translations[j].1
            &&& args[at + 2] == "--dir"@
            &&& args[at + 3] == translations[j].1
        }),
{
    lemma_env_flags_layout(translations);
    let flags = env_flags(translations);
    let four = flags.subrange(4 * j, 4 * j + 4);
    let front = seq!["run"@] + dir_flags(chain);
    let args = argument_vector(chain, translations, trailing);
    let at = front.len() + 4 * j;
    assert(four == env_tokens(translations[j].0, translations[j].1));
    assert(args == front + flags + seq!["--dir"@, "."@] + trailing);
    assert forall|m: int| 0 <= m < 4 implies args[at + m] == #[trigger] four[m] by {
        assert(four[m] == flags[4 * j + m]);
        assert((front + flags)[at + m] == flags[4 * j + m]);
    }
    assert(args[at] == four[0]);
    assert(args[at + 1] == four[1]);
    assert(args[at + 2] == four[2]);
    assert(args[at + 3] == four[3]);
}

/// Where an argument vector is built, each variable that is set is
/// announced and preopened under one and the same path, which is its value
/// rewritten relative to the working directory: `OUT_DIR` right after the
/// ancestor preopens, `CARGO_MANIFEST_DIR` after it.
pub proof fn lemma_variables_keep_one_path(
    root: Seq<char>,
    cwd: Seq<char>,
    out_dir: Option<Seq<char>>,
    manifest_dir: Option<Seq<char>>,
    trailing: Seq<Seq<char>>,
)
    ensures
        match expected_build(root, cwd, out_dir, manifest_dir, trailing) {
            Expected::Arguments(args) => {
                let chain = ancestor_chain_of(relative_components(root, cwd).unwrap());
                let first = 1 + dir_flags(chain).len() as int;
                let second: int = if out_dir is Some {
                    first + 4
                } else {
                    first
                };
                &&& out_dir matches Some(value) ==> {
                    let path = env_path(value, cwd).unwrap();
                    &&& env_path(value, cwd) is Some
                    &&& args.subrange(first, first + 4) == env_tokens("OUT_DIR"@, path)
                }
                &&& manifest_dir matches Some(value) ==> {
                    let path = env_path(value, cwd).unwrap();
                    &&& env_path(value, cwd) is Some
                    &&& args.subrange(second, second + 4) == env_tokens(
                        "CARGO_MANIFEST_DIR"@,
                        path,
                    )
                }
            },
            Expected::Unrelatable { .. } => true,
        },
{
    match expected_build(root, cwd, out_dir, manifest_dir, trailing) {
        Expected::Arguments(args) => {
            let chain = ancestor_chain_of(relative_components(root, cwd).unwrap());
            let translations = translation_of("OUT_DIR"@, out_dir, cwd) + translation_of(
                "CARGO_MANIFEST_DIR"@,
                manifest_dir,
                cwd,
            );
            let first = 1 + dir_flags(chain).len() as int;
            if out_dir is Some {
                lemma_env_tokens_share_path(chain, translations, trailing, 0);
                assert(args.subrange(first, first + 4) =~= env_tokens(
                    "OUT_DIR"@,
                    env_path(out_dir.unwrap(), cwd).unwrap(),
                ));
            }
            if manifest_dir is Some {
                let j: int = if out_dir is Some {
                    1
                } else {
                    0
                };
                lemma_env_tokens_share_path(chain, translations, trailing, j);
                assert(args.subrange(first + 4 * j, first + 4 * j + 4) =~= env_tokens(
                    "CARGO_MANIFEST_DIR"@,
                    env_path(manifest_dir.unwrap(), cwd).unwrap(),
                ));
            }
        },
        Expected::Unrelatable { .. } => {},
    }
}

/// The text of an optional string.
pub open spec fn text_of(value: Option<String>) -> Option<Seq<char>> {
    match value {
        Some(s) => Some(s@),
        None => None,
    }
}

/// Rewrites the value of an environment variable relative to the working
/// directory. A value that is the working directory itself becomes `.`.
pub fn env_relative_path(value: &str, cwd: &str) -> (r: Result<String, RunnerError>)
    ensures
        match env_path(value@, cwd@) {
            Some(path) => r is Ok && r.unwrap()@ == path,
            None => r matches Err(RunnerError::PathRelativization { target: t, base: b })
                && t@ == value@ && b@ == cwd@,
        },
        value@ == cwd@ ==> r is Ok && r.unwrap()@ == "."@,
{
    if is_same_directory(value, cwd) {
        Ok(".".to_owned())
    } else {
        match relativize(value, cwd) {
            Ok(segments) => Ok(join_segments(&segments)),
            Err(e) => Err(e),
        }
    }
}

/// Translates one variable and appends the translation, where the variable
/// is set; an unset variable leaves the list as it is, and so does one whose
/// value cannot be rewritten, which is reported.
pub fn translate_into(
    translations: &mut Vec<EnvTranslation>,
    name: &str,
    value: &Option<String>,
    cwd: &str,
) -> (r: Result<(), RunnerError>)
    ensures
        untranslatable(text_of(*value), cwd@) ==> {
            &&& r matches Err(RunnerError::PathRelativization { target: t, base: b })
            &&& t@ == value.unwrap()@
            &&& b@ == cwd@
            &&& final(translations)@ == old(translations)@
        },
        !untranslatable(text_of(*value), cwd@) ==> {
            &&& r is Ok
            &&& pairs(final(translations)@) == pairs(old(translations)@) + translation_of(
                name@,
                text_of(*value),
                cwd@,
            )
        },
{
    match value {
        None => {
            proof {
                assert(pairs(translations@) + Seq::empty() =~= pairs(translations@));
            }
            Ok(())
        },
        Some(v) => {
            match env_relative_path(v.as_str(), cwd) {
                Ok(path) => {
                    let ghost before = translations@;
                    let t = EnvTranslation { name: name.to_owned(), path };
                    translations.push(t);
                    proof {
                        assert(pairs(translations@) =~= pairs(before) + seq![t@]);
                    }
                    Ok(())
                },
                Err(e) => Err(e),
            }
        },
    }
}

/// Appends `--dir <path>` to `args`.
fn push_dir(args: &mut Vec<String>, path: &str)
    ensures
        texts(final(args)@) == texts(old(args)@) + seq!["--dir"@, path@],
{
    let ghost before = args@;
    args.push("--dir".to_owned());
    args.push(path.to_owned());
    proof {
        assert(texts(args@) =~= texts(before) + seq!["--dir"@, path@]);
    }
}

/// Assembles the argument vector from an ancestor chain, the translated
/// variables and the caller's own arguments, which end it unchanged.
pub fn assemble(chain: &Vec<String>, translations: &Vec<EnvTranslation>, trailing: Vec<String>) -> (r:
    Vec<String>)
    ensures
        texts(r@) == argument_vector(texts(chain@), pairs(translations@), texts(trailing@)),
        ends_with_working_directory(texts(r@), texts(trailing@)),
{
    let ghost dirs = texts(chain@);
    let ghost vars = pairs(translations@);
    let mut args: Vec<String> = Vec::new();
    args.push("run".to_owned());
    let mut i: usize = 0;
    proof {
        assert(dirs.take(0) =~= Seq::<Seq<char>>::empty());
        assert(texts(args@) =~= seq!["run"@] + dir_flags(dirs.take(0)));
    }
    while i < chain.len()
        invariant
            i <= chain.len(),
            dirs == texts(chain@),
            texts(args@) == seq!["run"@] + dir_flags(dirs.take(i as int)),
        decreases chain.len() - i,
    {
        proof {
            assert(dirs.take(i + 1).drop_last() =~= dirs.take(i as int));
            assert(dirs.take(i + 1).last() == chain@[i as int]@);
        }
        if !chain[i].as_str().is_empty() {
            push_dir(&mut args, chain[i].as_str());
            proof {
                assert(texts(args@) =~= seq!["run"@] + dir_flags(dirs.take(i + 1)));
            }
        }
        i += 1;
    }
    proof {
        assert(dirs.take(i as int) =~= dirs);
        assert(vars.take(0) =~= Seq::<(Seq<char>, Seq<char>)>::empty());
        assert(texts(args@) =~= seq!["run"@] + dir_flags(dirs) + env_flags(vars.take(0)));
    }
    let mut j: usize = 0;
    while j < translations.len()
        invariant
            j <= translations.len(),
            vars == pairs(translations@),
            texts(args@) == seq!["run"@] + dir_flags(dirs) + env_flags(vars.take(j as int)),
        decreases translations.len() - j,
    {
        proof {
            assert(vars.take(j + 1).drop_last() =~= vars.take(j as int));
            assert(vars.take(j + 1).last() == translations@[j as int]@);
        }
        let ghost before = texts(args@);
        let mut assignment = translations[j].name.clone();
        assignment.append("=");
        assignment.append(translations[j].path.as_str());
        args.push("--env".to_owned());
        args.push(assignment);
        push_dir(&mut args, translations[j].path.as_str());
        proof {
            assert(texts(args@) =~= before + env_tokens(
                translations@[j as int].name@,
                translations@[j as int].path@,
            ));
            assert(texts(args@) =~= seq!["run"@] + dir_flags(dirs) + env_flags(vars.take(j + 1)));
        }
        j += 1;
    }
    proof {
        assert(vars.take(j as int) =~= vars);
    }
    push_dir(&mut args, ".");
    let ghost front = texts(args@);
    let mut rest = trailing;
    args.append(&mut rest);
    proof {
        assert(texts(args@) =~= front + texts(trailing@));
        lemma_final_dir_wins(dirs, vars, texts(trailing@));
        lemma_trailing_unchanged(dirs, vars, texts(trailing@));
    }
    args
}

/// Builds the argument vector for the sandbox runtime.
///
/// The ancestor chain leads from the working directory `cwd` up to `root`;
/// each variable of `env` that is set is rewritten relative to `cwd`; the
/// working directory is preopened last; `trailing` ends the vector
/// unchanged. The first path that cannot be written relative to `cwd` is
/// reported, and nothing is built.
pub fn build_arguments(root: &str, cwd: &str, env: &EnvironmentSnapshot, trailing: Vec<String>) -> (r:
    Result<Vec<String>, RunnerError>)
    ensures
        meets(
            r,
            expected_build(
                root@,
                cwd@,
                text_of(env.out_dir),
                text_of(env.manifest_dir),
                texts(trailing@),
            ),
        ),
        r is Ok ==> ends_with_working_directory(texts(r.unwrap()@), texts(trailing@)),
{
    let segments = match relativize(root, cwd) {
        Ok(s) => s,
        Err(e) => {
            return Err(e);
        },
    };
    let chain = ancestor_chain(&segments);
    let mut translations: Vec<EnvTranslation> = Vec::new();
    proof {
        assert(pairs(translations@) =~= Seq::empty());
    }
    match translate_into(&mut translations, "OUT_DIR", &env.out_dir, cwd) {
        Ok(()) => {},
        Err(e) => {
            return Err(e);
        },
    }
    match translate_into(&mut translations, "CARGO_MANIFEST_DIR", &env.manifest_dir, cwd) {
        Ok(()) => {},
        Err(e) => {
            return Err(e);
        },
    }
    proof {
        assert(pairs(translations@) =~= translation_of("OUT_DIR"@, text_of(env.out_dir), cwd@)
            + translation_of("CARGO_MANIFEST_DIR"@, text_of(env.manifest_dir), cwd@));
    }
    Ok(assemble(&chain, &translations, trailing))
}

} // verus!
