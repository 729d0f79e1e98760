use lanoma::compile::{
    pool_size, CompilableUnit, CompilationBatch, UnitKind, DEFAULT_COMPILE_COMMAND,
};
use lanoma::error::Error;
use lanoma::path::LogicalPath;
use lanoma::subjects::Note;
use lanoma::text::substitute_all;

fn unit(id: &str) -> CompilableUnit {
    CompilableUnit { kind: UnitKind::Note, id: id.to_string(), source: format!("{}.tex", id) }
}

fn batch_of(ids: &[&str], threads: usize) -> CompilationBatch {
    let mut batch = CompilationBatch::new(LogicalPath::parse("/shelf/calculus"));
    batch.units = ids.iter().map(|i| unit(i)).collect();
    batch.thread_count = threads;
    batch
}

#[test]
fn rigged_failures_are_reported_for_every_pool_size() {
    let ids = ["limits", "series", "integrals", "vectors", "matrices"];
    // The command for `series` and `matrices` exits with a failure.
    let outcomes = vec![true, false, true, true, false];
    for threads in 1..=5 {
        let batch = batch_of(&ids, threads);
        let plan = batch.plan();
        assert_eq!(plan.pool_size, threads);
        assert_eq!(plan.commands.len(), 5);
        let report = batch.conclude(true, &outcomes).unwrap();
        assert_eq!(report.compiled, vec!["limits", "integrals", "vectors"]);
        assert_eq!(report.failed, vec!["series", "matrices"]);
        assert_eq!(report.compiled.len() + report.failed.len(), 5);
    }
}

#[test]
fn empty_batch_spawns_nothing() {
    let batch = batch_of(&[], 4);
    let plan = batch.plan();
    assert_eq!(plan.pool_size, 0);
    assert!(plan.commands.is_empty());
    let report = batch.conclude(false, &vec![]).unwrap();
    assert!(report.compiled.is_empty());
    assert!(report.failed.is_empty());
    assert_eq!(report.directory, LogicalPath::parse("/shelf/calculus"));
}

#[test]
fn unreachable_directory_fails_the_batch() {
    let batch = batch_of(&["a"], 1);
    match batch.conclude(false, &vec![]) {
        Err(Error::BatchDirectoryError(p)) => assert_eq!(p.render(), "/shelf/calculus"),
        other => panic!("unexpected {:?}", other),
    }
}

#[test]
fn pool_size_is_clamped() {
    assert_eq!(pool_size(5, 0), 1);
    assert_eq!(pool_size(5, 3), 3);
    assert_eq!(pool_size(5, 9), 5);
    assert_eq!(pool_size(0, 9), 0);
}

#[test]
fn commands_substitute_the_source() {
    let mut batch = batch_of(&["limits", "series"], 2);
    assert_eq!(batch.command, DEFAULT_COMPILE_COMMAND);
    let plan = batch.plan();
    assert_eq!(plan.commands, vec!["latexmk -pdf limits.tex", "latexmk -pdf series.tex"]);
    batch.command = "make all".to_string();
    assert_eq!(batch.plan().commands, vec!["make all", "make all"]);
    batch.command = "cp {{note}} out/{{note}}; {{note".to_string();
    assert_eq!(batch.plan().commands[0], "cp limits.tex out/limits.tex; {{note");
}

#[test]
fn substitution_scans_left_to_right() {
    assert_eq!(substitute_all("aaa", "aa", "b"), "ba");
    assert_eq!(substitute_all("xyz", "", "b"), "xyz");
    assert_eq!(substitute_all("", "a", "b"), "");
}

#[test]
fn note_units_use_title_and_file_name() {
    let u = Note::new("Matrices and Markov Chains").compilable();
    assert_eq!(u.kind, UnitKind::Note);
    assert_eq!(u.id, "Matrices and Markov Chains");
    assert_eq!(u.source, "matrices-and-markov-chains.tex");
}
