use flox_envs::bytes::append_bytes;
use flox_envs::display::{format_path, DisplayEnvironments};
use flox_envs::environment::{DotFlox, UninitializedEnvironment};
use flox_envs::variables::{belongs_to, mk_environment, Variable};

fn local(name: &str, path: &str) -> UninitializedEnvironment {
    UninitializedEnvironment::DotFlox(DotFlox {
        name: name.as_bytes().to_vec(),
        path: path.as_bytes().to_vec(),
    })
}

fn remote(name: &str) -> UninitializedEnvironment {
    UninitializedEnvironment::Remote(name.as_bytes().to_vec())
}

fn variable(name: &str, value: &str) -> Variable {
    Variable { name: name.as_bytes().to_vec(), value: value.as_bytes().to_vec() }
}

fn pairs(vars: &[Variable]) -> Vec<(String, String)> {
    vars.iter()
        .map(|v| {
            (String::from_utf8(v.name.clone()).unwrap(), String::from_utf8(v.value.clone()).unwrap())
        })
        .collect()
}

fn pair(name: &str, value: &str) -> (String, String) {
    (name.to_string(), value.to_string())
}

#[test]
fn path_text_of_a_remote_environment() {
    assert_eq!(format_path(None), b"(remote)".to_vec());
    assert_eq!(format_path(Some(&b"/env/a".to_vec())), b"/env/a".to_vec());
}

#[test]
fn lines_fill_names_up_to_the_longest() {
    let shown = DisplayEnvironments::new(
        &vec![local("a", "/env/a"), remote("owner/long"), local("mid", "/m")],
        true,
    );
    assert!(shown.sets_off_first());
    let lines: Vec<String> =
        shown.lines().into_iter().map(|l| String::from_utf8(l).unwrap()).collect();
    assert_eq!(lines, vec![
        "a           /env/a".to_string(),
        "owner/long  (remote)".to_string(),
        "mid         /m".to_string(),
    ]);
}

#[test]
fn nothing_is_set_off_without_active_environments() {
    assert!(!DisplayEnvironments::new(&Vec::new(), true).sets_off_first());
    assert!(!DisplayEnvironments::new(&vec![remote("r")], false).sets_off_first());
    assert!(DisplayEnvironments::new(&Vec::new(), false).lines().is_empty());
    let one = DisplayEnvironments::new(&vec![remote("r")], false).lines();
    assert_eq!(one, vec![b"r  (remote)".to_vec()]);
}

#[test]
fn appending_bytes() {
    let mut out = b"ab".to_vec();
    append_bytes(&mut out, &b"cd".to_vec());
    assert_eq!(out, b"abcd".to_vec());
    append_bytes(&mut out, &Vec::new());
    assert_eq!(out, b"abcd".to_vec());
}

#[test]
fn variables_of_a_section_are_taken_out_and_marked() {
    let mut vars = vec![
        variable("NIX_ACCESS_TOKENS", "t"),
        variable("CACHE_DIR", "/c"),
        variable("NIX_", "empty"),
        variable("NIX", "bare"),
        variable("NIXOS_X", "other"),
        variable("GITHUB_TOKEN", "g"),
        variable("NIX_A_B", "ab"),
    ];
    let section = mk_environment(&mut vars, &b"NIX".to_vec());
    assert_eq!(pairs(&section), vec![
        pair("NIX#ACCESS_TOKENS", "t"),
        pair("NIX#", "empty"),
        pair("NIX#A_B", "ab"),
    ]);
    assert_eq!(pairs(&vars), vec![
        pair("CACHE_DIR", "/c"),
        pair("NIX", "bare"),
        pair("NIXOS_X", "other"),
        pair("GITHUB_TOKEN", "g"),
    ]);
    let none = mk_environment(&mut vars, &b"FEATURES".to_vec());
    assert!(none.is_empty());
    assert_eq!(vars.len(), 4);
}

#[test]
fn a_name_belongs_to_a_section_by_its_prefix() {
    assert!(belongs_to(&b"NIX_X".to_vec(), &b"NIX".to_vec()));
    assert!(belongs_to(&b"NIX_".to_vec(), &b"NIX".to_vec()));
    assert!(belongs_to(&b"_X".to_vec(), &Vec::new()));
    assert!(!belongs_to(&b"NIX".to_vec(), &b"NIX".to_vec()));
    assert!(!belongs_to(&b"NIXX".to_vec(), &b"NIX".to_vec()));
    assert!(!belongs_to(&b"NAX_X".to_vec(), &b"NIX".to_vec()));
    assert!(!belongs_to(&Vec::new(), &Vec::new()));
}
