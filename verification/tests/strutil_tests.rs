use polykill::strutil::{
    clone_path, concat_paths, is_hidden_name, join_path, pad_left, pad_right, path_push, str_eq,
    str_ends_with,
};

#[test]
fn string_equality_is_exact() {
    assert!(str_eq("Cargo.toml", "Cargo.toml"));
    assert!(!str_eq("Cargo.toml", "cargo.toml"));
    assert!(!str_eq("a", "ab"));
    assert!(str_eq("", ""));
}

#[test]
fn suffix_test() {
    assert!(str_ends_with("App.csproj", ".csproj"));
    assert!(str_ends_with(".csproj", ".csproj"));
    assert!(!str_ends_with("csproj", ".csproj"));
    assert!(!str_ends_with("App.csproj.bak", ".csproj"));
    assert!(str_ends_with("anything", ""));
}

#[test]
fn hidden_names_start_with_a_dot() {
    assert!(is_hidden_name(".git"));
    assert!(is_hidden_name("."));
    assert!(!is_hidden_name("git"));
    assert!(!is_hidden_name(""));
}

#[test]
fn joining_paths() {
    let p: Vec<String> = vec!["a", "b", "c"].into_iter().map(String::from).collect();
    assert_eq!(join_path(&p), "a/b/c");
    let single: Vec<String> = vec![String::from("alone")];
    assert_eq!(join_path(&single), "alone");
    let empty: Vec<String> = vec![];
    assert_eq!(join_path(&empty), "");
}

#[test]
fn path_building() {
    let p: Vec<String> = vec![String::from("a")];
    let q = path_push(&p, &String::from("b"));
    assert_eq!(q, vec![String::from("a"), String::from("b")]);
    let r = concat_paths(&q, &p);
    assert_eq!(join_path(&r), "a/b/a");
    assert_eq!(clone_path(&q), q);
}

#[test]
fn padding() {
    assert_eq!(pad_left("ab", 5), "   ab");
    assert_eq!(pad_right("ab", 5), "ab   ");
    assert_eq!(pad_left("abcdef", 3), "abcdef");
    assert_eq!(pad_right("abcdef", 3), "abcdef");
}
