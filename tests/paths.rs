use lanoma::path::{naively_normalize_path, relative_path_from, Component, LogicalPath};

fn p(s: &str) -> LogicalPath {
    LogicalPath::parse(s)
}

#[test]
fn relpath_to_common_relpaths() {
    let base = p("./tests/lanoma-profile/notes/calculus");
    let dst = p("./tests/lanoma-profile/common");

    assert_eq!(relative_path_from(&dst, &base), Some(p("../../common")));
}

#[test]
fn relpath_to_leading_common_relpaths() {
    let base = p("./tests/lanoma-profile/common");
    let dst = p("./tests/lanoma-profile/common/calculus");

    assert_eq!(relative_path_from(&dst, &base), Some(p("calculus")));
}

#[test]
fn relpath_to_the_same_input() {
    let base = p("./tests/lanoma-profile/common");
    let dst = p("./tests/lanoma-profile/common");

    assert_eq!(relative_path_from(&dst, &base), Some(p("")));
}

#[test]
fn relpath_with_dst_parent_dir() {
    let base = p("./");
    let dst = p("../rust");

    assert_eq!(relative_path_from(&dst, &base), Some(p("../rust")));
}

#[test]
fn relpath_with_base_parent_dir() {
    let base = p("../rust");
    let dst = p("./");

    assert_eq!(relative_path_from(&dst, &base), None);
}

#[test]
fn relpath_with_common_parent_dir() {
    let base = p("../rust/");
    let dst = p("../rust/././bin");

    assert_eq!(relative_path_from(&dst, &base), Some(p("bin")));
}

#[test]
fn relpath_with_common_parent_dirs() {
    let base = p("../rust/../../../");
    let dst = p("../rust");

    assert_eq!(relative_path_from(&dst, &base), Some(p("../../..")));
}

#[test]
fn fs_relpath_from_root_to_current_dir() {
    let base = p("/dev/sda/calculus-drive");
    let dst = p("./tests/lanoma-profile/common");

    assert_eq!(relative_path_from(&dst, &base), None);
}

#[test]
fn fs_relpath_to_common_root() {
    let base = p("/dev/sda/calculus-drive");
    let dst = p("/tests/lanoma-profile/common");

    assert_eq!(
        relative_path_from(&dst, &base),
        Some(p("../../../tests/lanoma-profile/common"))
    );
}

#[test]
fn leading_current_dir_naive_normalized() {
    assert_eq!(
        naively_normalize_path("./tests/lanoma-profile/notes/calculus"),
        Some(p("tests/lanoma-profile/notes/calculus"))
    );
}

#[test]
fn parent_dirs_naively_normalized() {
    assert_eq!(naively_normalize_path("../case/.."), Some(p("..")));
}

#[test]
fn multiple_parent_dirs_naively_normalized() {
    assert_eq!(
        naively_normalize_path("../case/../tests/../../../of"),
        Some(p("../../../of"))
    );
}

#[test]
fn leading_current_dir_with_parent_dirs_normalized() {
    assert_eq!(
        naively_normalize_path("./tests/../calculus/calculus-i/../"),
        Some(p("calculus"))
    );
}

#[test]
fn leading_current_dir_with_space_normalized() {
    assert_eq!(
        naively_normalize_path("./Calculus/Calculus I"),
        Some(p("Calculus/Calculus I"))
    );
}

#[test]
fn leading_current_dir_with_multiple_parent_dir_normalized() {
    assert_eq!(naively_normalize_path("./Calculus/../Calculus I/../../p"), Some(p("../p")));
}

#[test]
fn parse_follows_unix_components() {
    let parsed = p("//a/./b//../");
    assert_eq!(
        parsed.comps,
        vec![
            Component::RootDir,
            Component::Normal("a".to_string()),
            Component::Normal("b".to_string()),
            Component::ParentDir,
        ]
    );
    assert_eq!(p("./x").comps, vec![Component::CurDir, Component::Normal("x".to_string())]);
    assert_eq!(p("x/.").comps, vec![Component::Normal("x".to_string())]);
    assert_eq!(p("").comps, vec![]);
}

#[test]
fn render_joins_components() {
    assert_eq!(p("/a//b/").render(), "/a/b");
    assert_eq!(p("./a/../b").render(), "./a/../b");
    assert_eq!(p("/").render(), "/");
    assert_eq!(p("").render(), "");
}

#[test]
fn normalize_of_nothing_is_none() {
    assert_eq!(naively_normalize_path(""), None);
    assert_eq!(naively_normalize_path("./."), None);
    assert_eq!(naively_normalize_path("a/.."), None);
    // A `..` cancels the root as it cancels any other component.
    assert_eq!(naively_normalize_path("/.."), None);
}

#[test]
fn normalize_is_idempotent_on_text() {
    for s in ["../case/../tests/../../../of", "/a/./b/../c", "./x/y/..", "a/b/../../..", "", "/"] {
        let once = naively_normalize_path(s);
        let text = match &once {
            Some(q) => q.render(),
            None => String::new(),
        };
        assert_eq!(naively_normalize_path(&text), once);
    }
}

#[test]
fn relative_to_itself_is_empty() {
    for s in ["/dev/sda", "../a/b", "./x", "", "a/../b"] {
        assert_eq!(relative_path_from(&p(s), &p(s)), Some(p("")));
    }
}

#[test]
fn relative_dst_with_absolute_base_is_none() {
    assert_eq!(relative_path_from(&p("a/b"), &p("/a")), None);
    assert_eq!(relative_path_from(&p("/a/b"), &p("a")), Some(p("/a/b")));
}

#[test]
fn relative_dst_exhausted_climbs() {
    assert_eq!(relative_path_from(&p("a"), &p("a/b/c")), Some(p("../..")));
}

#[test]
fn join_replaces_with_absolute() {
    assert_eq!(p("/shelf").join(&p("a/b")), p("/shelf/a/b"));
    assert_eq!(p("/shelf").join(&p("/x")), p("/x"));
}
