use restricted_fs::path::{is_path_visible, FsPath, PathComponent};

fn normal(name: &str) -> PathComponent {
    PathComponent::Normal(String::from(name))
}

fn path(components: Vec<PathComponent>) -> FsPath {
    FsPath { components }
}

#[test]
fn plain_components_are_visible() {
    let p = path(vec![
        PathComponent::RootDir,
        normal("docs"),
        normal("readme.txt"),
    ]);
    assert!(is_path_visible(&p));
}

#[test]
fn dot_component_hides_the_path() {
    let p = path(vec![PathComponent::RootDir, normal(".git"), normal("config")]);
    assert!(!is_path_visible(&p));
}

#[test]
fn dot_component_in_the_middle_hides_the_path() {
    let p = path(vec![
        PathComponent::RootDir,
        normal("home"),
        normal(".ssh"),
        normal("known_hosts"),
    ]);
    assert!(!is_path_visible(&p));
}

#[test]
fn empty_path_is_visible() {
    let p = path(vec![]);
    assert!(is_path_visible(&p));
}

#[test]
fn root_only_path_is_visible() {
    let p = path(vec![PathComponent::RootDir]);
    assert!(is_path_visible(&p));
}

#[test]
fn self_and_parent_markers_are_visible() {
    let p = path(vec![
        PathComponent::RootDir,
        PathComponent::CurDir,
        PathComponent::ParentDir,
        normal("srv"),
    ]);
    assert!(is_path_visible(&p));
}

#[test]
fn empty_name_component_is_visible() {
    let p = path(vec![PathComponent::RootDir, normal("")]);
    assert!(is_path_visible(&p));
}

#[test]
fn all_dots_name_is_hidden() {
    let p = path(vec![PathComponent::RootDir, normal("...")]);
    assert!(!is_path_visible(&p));
}

#[test]
fn dotfile_at_root_is_hidden() {
    let p = path(vec![PathComponent::RootDir, normal(".secret")]);
    assert!(!is_path_visible(&p));
}
