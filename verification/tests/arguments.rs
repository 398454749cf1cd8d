use relative_path::RelativePath;
use std::path::Path;
use wasi_test_runner::arguments::{
    assemble, build_arguments, env_relative_path, translate_into, EnvTranslation,
    EnvironmentSnapshot,
};
use wasi_test_runner::errors::RunnerError;
use wasi_test_runner::launch::wasmtime_arguments;
use wasi_test_runner::root::{resolve_root, CargoMetadata};

fn strings(items: &[&str]) -> Vec<String> {
    items.iter().map(|s| s.to_string()).collect()
}

fn no_env() -> EnvironmentSnapshot {
    EnvironmentSnapshot { out_dir: None, manifest_dir: None }
}

#[test]
fn one_level_below_the_root() {
    let args = build_arguments("/ws", "/ws/crate-a", &no_env(), Vec::new()).unwrap();
    assert_eq!(args, strings(&["run", "--dir", ".", "--dir", "..", "--dir", "."]));
}

#[test]
fn three_levels_below_the_root() {
    let args = build_arguments("/ws", "/ws/a/b/c", &no_env(), Vec::new()).unwrap();
    assert_eq!(
        args,
        strings(&[
            "run", "--dir", ".", "--dir", "..", "--dir", "../..", "--dir", "../../..", "--dir",
            ".",
        ])
    );
}

#[test]
fn working_directory_is_the_root() {
    let args = build_arguments("/ws", "/ws", &no_env(), strings(&["x"])).unwrap();
    assert_eq!(args, strings(&["run", "--dir", ".", "--dir", ".", "x"]));
}

#[test]
fn root_beside_the_working_directory() {
    let args = build_arguments("/ws/other", "/ws/crate-a", &no_env(), Vec::new()).unwrap();
    assert_eq!(
        args,
        strings(&["run", "--dir", ".", "--dir", "..", "--dir", "../other", "--dir", "."])
    );
}

#[test]
fn out_dir_is_rewritten() {
    let env = EnvironmentSnapshot {
        out_dir: Some("/ws/crate-a/target/out".to_string()),
        manifest_dir: None,
    };
    let args = build_arguments("/ws", "/ws/crate-a", &env, Vec::new()).unwrap();
    assert_eq!(
        args,
        strings(&[
            "run",
            "--dir",
            ".",
            "--dir",
            "..",
            "--env",
            "OUT_DIR=target/out",
            "--dir",
            "target/out",
            "--dir",
            ".",
        ])
    );
}

#[test]
fn unset_manifest_dir_is_skipped() {
    let env = EnvironmentSnapshot { out_dir: Some("/ws/crate-a/out".to_string()), manifest_dir: None };
    let args = build_arguments("/ws", "/ws/crate-a", &env, Vec::new()).unwrap();
    assert!(!args.iter().any(|a| a.starts_with("CARGO_MANIFEST_DIR")));
    assert_eq!(args.iter().filter(|a| a.as_str() == "--env").count(), 1);
    let none = build_arguments("/ws", "/ws/crate-a", &no_env(), Vec::new()).unwrap();
    assert!(!none.iter().any(|a| a == "--env"));
}

#[test]
fn both_variables_in_declared_order() {
    let env = EnvironmentSnapshot {
        out_dir: Some("/ws/target/debug/out".to_string()),
        manifest_dir: Some("/ws/crate-a".to_string()),
    };
    let args = build_arguments("/ws", "/ws/crate-a", &env, strings(&["--nocapture"])).unwrap();
    assert_eq!(
        args,
        strings(&[
            "run",
            "--dir",
            ".",
            "--dir",
            "..",
            "--env",
            "OUT_DIR=../target/debug/out",
            "--dir",
            "../target/debug/out",
            "--env",
            "CARGO_MANIFEST_DIR=.",
            "--dir",
            ".",
            "--dir",
            ".",
            "--nocapture",
        ])
    );
}

#[test]
fn value_equal_to_working_directory_is_a_dot() {
    assert_eq!(env_relative_path("/ws/crate-a", "/ws/crate-a"), Ok(".".to_string()));
    assert_eq!(env_relative_path("relative/dir", "relative/dir"), Ok(".".to_string()));
    assert_ne!(env_relative_path("/ws/crate-a", "/ws/crate-a"), Ok("./".to_string()));
}

#[test]
fn value_with_trailing_slash_is_a_dot() {
    assert_eq!(env_relative_path("/ws/crate-a/", "/ws/crate-a"), Ok(".".to_string()));
}

#[test]
fn value_below_and_above() {
    assert_eq!(env_relative_path("/ws/crate-a/target/out", "/ws/crate-a"), Ok("target/out".to_string()));
    assert_eq!(env_relative_path("/ws", "/ws/crate-a"), Ok("..".to_string()));
    assert_eq!(env_relative_path("/other/x", "/ws/crate-a"), Ok("../../other/x".to_string()));
}

#[test]
fn value_that_cannot_be_rewritten() {
    assert_eq!(
        env_relative_path("target", "/ws/crate-a"),
        Err(RunnerError::PathRelativization {
            target: "target".to_string(),
            base: "/ws/crate-a".to_string(),
        })
    );
}

#[test]
fn root_that_cannot_be_rewritten() {
    let r = build_arguments("ws", "/ws/crate-a", &no_env(), Vec::new());
    assert_eq!(
        r,
        Err(RunnerError::PathRelativization {
            target: "ws".to_string(),
            base: "/ws/crate-a".to_string(),
        })
    );
}

#[test]
fn first_failure_is_reported() {
    let env = EnvironmentSnapshot {
        out_dir: Some("out".to_string()),
        manifest_dir: Some("manifest".to_string()),
    };
    let r = build_arguments("/ws", "/ws/crate-a", &env, Vec::new());
    assert_eq!(
        r,
        Err(RunnerError::PathRelativization {
            target: "out".to_string(),
            base: "/ws/crate-a".to_string(),
        })
    );
    let env = EnvironmentSnapshot { out_dir: None, manifest_dir: Some("manifest".to_string()) };
    let r = build_arguments("/ws", "/ws/crate-a", &env, Vec::new());
    assert_eq!(
        r,
        Err(RunnerError::PathRelativization {
            target: "manifest".to_string(),
            base: "/ws/crate-a".to_string(),
        })
    );
}

#[test]
fn trailing_arguments_are_untouched() {
    let trailing = strings(&["--dir", "", "--env", "A=B", "--", "run", " spaced out ", "--dir", "."]);
    let args = build_arguments("/ws", "/ws/a/b", &no_env(), trailing.clone()).unwrap();
    let start = args.len() - trailing.len();
    assert_eq!(&args[start..], &trailing[..]);
    assert_eq!(args[start - 2], "--dir");
    assert_eq!(args[start - 1], ".");
}

#[test]
fn forced_preopen_ends_the_preamble() {
    let env = EnvironmentSnapshot {
        out_dir: Some("/ws/a/out".to_string()),
        manifest_dir: Some("/ws/a".to_string()),
    };
    let args = build_arguments("/ws", "/ws/a", &env, strings(&["t"])).unwrap();
    let n = args.len();
    assert_eq!(&args[n - 3..], &strings(&["--dir", ".", "t"])[..]);
}

#[test]
fn assemble_drops_empty_chain_entries() {
    let chain = strings(&[".", "", ".."]);
    let translations = vec![EnvTranslation { name: "N".to_string(), path: "p/q".to_string() }];
    let args = assemble(&chain, &translations, strings(&["z"]));
    assert_eq!(
        args,
        strings(&["run", "--dir", ".", "--dir", "..", "--env", "N=p/q", "--dir", "p/q", "--dir", ".", "z"])
    );
}

#[test]
fn assemble_of_nothing() {
    let args = assemble(&Vec::new(), &Vec::new(), Vec::new());
    assert_eq!(args, strings(&["run", "--dir", "."]));
}

#[test]
fn translate_into_appends_or_skips() {
    let mut list = Vec::new();
    assert_eq!(translate_into(&mut list, "OUT_DIR", &None, "/ws/a"), Ok(()));
    assert!(list.is_empty());
    assert_eq!(translate_into(&mut list, "OUT_DIR", &Some("/ws/a/out".to_string()), "/ws/a"), Ok(()));
    assert_eq!(list, vec![EnvTranslation { name: "OUT_DIR".to_string(), path: "out".to_string() }]);
    let r = translate_into(&mut list, "X", &Some("rel".to_string()), "/ws/a");
    assert!(matches!(r, Err(RunnerError::PathRelativization { .. })));
    assert_eq!(list.len(), 1);
}

#[test]
fn failed_metadata_query_starts_nothing() {
    let env = EnvironmentSnapshot {
        out_dir: Some("/ws/a/out".to_string()),
        manifest_dir: Some("/ws/a".to_string()),
    };
    assert_eq!(
        wasmtime_arguments(None, "/ws/a", &env, strings(&["t"])),
        Err(RunnerError::MetadataUnavailable)
    );
    assert_eq!(resolve_root(None), Err(RunnerError::MetadataUnavailable));
}

#[test]
fn answered_metadata_query_builds_arguments() {
    let metadata = CargoMetadata { workspace_root: "/ws".to_string() };
    assert_eq!(resolve_root(Some(metadata.clone())), Ok("/ws".to_string()));
    assert_eq!(
        wasmtime_arguments(Some(metadata), "/ws/crate-a", &no_env(), strings(&["t"])),
        Ok(strings(&["run", "--dir", ".", "--dir", "..", "--dir", ".", "t"]))
    );
}

#[test]
fn rewritten_value_leads_back_to_the_value() {
    let cwd = "/ws/crate-a";
    for value in ["/ws/crate-a/target/out", "/ws/target/debug", "/ws", "/elsewhere/x/y"] {
        let env = EnvironmentSnapshot { out_dir: Some(value.to_string()), manifest_dir: None };
        let args = build_arguments("/ws", cwd, &env, Vec::new()).unwrap();
        let at = args.iter().position(|a| a == "--env").unwrap();
        let rel = args[at + 1].strip_prefix("OUT_DIR=").unwrap().to_string();
        assert_eq!(args[at + 2], "--dir");
        assert_eq!(args[at + 3], rel);
        assert_eq!(RelativePath::new(&rel).to_logical_path(cwd), Path::new(value));
    }
}
