//! From the answer of the build-metadata provider to the arguments of the
//! sandbox runtime.

use vstd::prelude::*;
use crate::arguments::{build_arguments, expected_build, meets, text_of, EnvironmentSnapshot};
use crate::errors::RunnerError;
use crate::root::{resolve_root, CargoMetadata};
use crate::text::texts;

verus! {

/// The arguments with which `wasmtime` is to be started, or the reason why
/// it must not be started.
///
/// `metadata` is the provider's answer, `None` where the provider failed or
/// its output named no workspace root: then the result is
/// `MetadataUnavailable`, whatever the other inputs are. With an answer the
/// result is that of `build_arguments` for the workspace root.
pub fn wasmtime_arguments(
    metadata: Option<CargoMetadata>,
    cwd: &str,
    env: &EnvironmentSnapshot,
    trailing: Vec<String>,
) -> (r: Result<Vec<String>, RunnerError>)
    ensures
        match metadata {
            Some(m) => meets(
                r,
                expected_build(
                    m.workspace_root@,
                    cwd@,
                    text_of(env.out_dir),
                    text_of(env.manifest_dir),
                    texts(trailing@),
                ),
            ),
            None => r matches Err(RunnerError::MetadataUnavailable),
        },
{
    match resolve_root(metadata) {
        Ok(root) => build_arguments(root.as_str(), cwd, env, trailing),
        Err(e) => Err(e),
    }
}

} // verus!
