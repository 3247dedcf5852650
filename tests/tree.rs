use cxx_auto::indexmap::IndexMap;
use cxx_auto::tree::{plan_tree, NodeKind, WalkEntry, WalkError};
use cxx_auto::{process_artifacts, CxxAutoEntry, GenError};

fn descriptor(name: &str) -> CxxAutoEntry {
    CxxAutoEntry {
        cxx_include: format!("{name}.hxx"),
        cxx_proxy_include: None,
        cxx_namespace: "ns".to_string(),
        cxx_proxy_namespace: None,
        cxx_name: None,
        rust_name: name.to_string(),
        rust_lifetimes: IndexMap::new(),
    }
}

fn path(p: &[&str]) -> Vec<String> {
    p.iter().map(|s| s.to_string()).collect()
}

fn dir(p: &[&str]) -> WalkEntry {
    WalkEntry { components: path(p), descriptor: None }
}

fn file(p: &[&str]) -> WalkEntry {
    WalkEntry { components: path(p), descriptor: Some(descriptor(p[p.len() - 1])) }
}

#[test]
fn cxx_name_defaults_to_the_wrapper_name() {
    let mut d = descriptor("Point");
    assert_eq!(d.cxx_name(), "Point");
    d.cxx_name = Some("point_t".to_string());
    assert_eq!(d.cxx_name(), "point_t");
}

#[test]
fn proxy_fields_fall_back_independently() {
    let mut d = descriptor("Point");
    assert_eq!(d.probe_include(), "Point.hxx");
    assert_eq!(d.probe_namespace(), "ns");
    d.cxx_proxy_include = Some("proxy.hxx".to_string());
    assert_eq!(d.probe_include(), "proxy.hxx");
    assert_eq!(d.probe_namespace(), "ns");
    d.cxx_proxy_namespace = Some("proxy_ns".to_string());
    assert_eq!(d.probe_namespace(), "proxy_ns");
    let text = d.emit_item_mod_cxx_bridge();
    assert!(text.contains("#[namespace = \"proxy_ns\"]"));
    assert!(text.contains("include!(\"proxy.hxx\");"));
    assert!(text.contains("fn rust_should_impl_hash() -> bool;"));
    assert!(text.ends_with("pub use ffi::*;\n"));
}

#[test]
fn record_assembly_lists_the_node() {
    let mut d = descriptor("Point");
    let mut l = IndexMap::new();
    l.insert("a".to_string(), vec!["b".to_string()]);
    d.rust_lifetimes = l;
    let text = d.emit_items_write_module_for_file(&path(&["geo", "Point"]), &path(&["Inner"]));
    assert!(text.contains("let path_components = vec![::std::string::String::from(\"geo\"), ::std::string::String::from(\"Point\"), ];"));
    assert!(text.contains("let path_descendants = vec![::std::string::String::from(\"Inner\"), ];"));
    assert!(text.contains("let cxx_name = ::std::string::String::from(\"Point\");"));
    assert!(text.contains("IndexMap::from_iter([(::std::string::String::from(\"a\"), vec![::std::string::String::from(\"b\"), ]), ]);"));
    assert!(text.contains("::cxx_auto::merge_trivial("));
    assert!(text.contains(".emit_file(&dir.to_string_lossy())"));
    assert!(!text.contains("BoxResult"));
    assert!(!text.contains("write_module_for_file"));
}

#[test]
fn directory_and_file_of_one_stem_make_one_node() {
    let entries = vec![file(&["Foo"]), dir(&["Foo"]), file(&["Foo", "Bar"]), file(&["Baz"])];
    let nodes = plan_tree(&entries).unwrap();
    assert_eq!(nodes.len(), 3);
    assert_eq!(nodes[0].components, path(&["Foo"]));
    match &nodes[0].kind {
        NodeKind::Both { file, children } => {
            assert_eq!(*file, 0);
            assert_eq!(children, &path(&["Bar"]));
        },
        _ => panic!("Foo should own a descriptor and children"),
    }
    assert_eq!(nodes[1].components, path(&["Foo", "Bar"]));
    assert!(matches!(nodes[1].kind, NodeKind::Leaf { file: 2 }));
    assert!(matches!(nodes[2].kind, NodeKind::Leaf { file: 3 }));
}

#[test]
fn directory_first_then_file_makes_one_node() {
    let entries = vec![dir(&["Foo"]), file(&["Foo", "Bar"]), file(&["Foo"])];
    let nodes = plan_tree(&entries).unwrap();
    assert_eq!(nodes.len(), 2);
    assert!(matches!(nodes[0].kind, NodeKind::Both { file: 2, .. }));
}

#[test]
fn children_are_sorted_and_unique() {
    let entries = vec![
        dir(&["D"]),
        file(&["D", "b"]),
        dir(&["D", "a"]),
        file(&["D", "a"]),
        file(&["D", "C"]),
        file(&["D", "a", "x"]),
    ];
    let nodes = plan_tree(&entries).unwrap();
    match &nodes[0].kind {
        NodeKind::Internal { children } => assert_eq!(children, &path(&["C", "a", "b"])),
        _ => panic!("D is a plain directory"),
    }
}

#[test]
fn conflicts_and_bad_names_are_refused() {
    let conflict = |entry| Some(WalkError { kind: GenError::NameConflict, entry });
    let bad_name = |entry| Some(WalkError { kind: GenError::InvalidIdentifier, entry });
    assert_eq!(plan_tree(&vec![file(&["B"]), file(&["Foo"]), file(&["Foo"])]).err(), conflict(2));
    assert_eq!(plan_tree(&vec![dir(&["A"]), dir(&["A"])]).err(), conflict(1));
    assert_eq!(plan_tree(&vec![dir(&["A"]), dir(&[])]).err(), conflict(1));
    assert_eq!(plan_tree(&vec![dir(&["a"]), file(&["a", "not-a-name"])]).err(), bad_name(1));
    assert_eq!(plan_tree(&vec![file(&["a // b"])]).err(), bad_name(0));
    assert_eq!(process_artifacts("m", &vec![file(&["A"]), file(&["A"])]).err(), conflict(1));
}

#[test]
fn root_registers_every_node_in_sorted_order() {
    let entries = vec![file(&["b"]), dir(&["a"]), file(&["a", "z"]), file(&["a", "y"]), file(&["a"])];
    let files = process_artifacts("out/cfg/auto", &entries).unwrap();
    assert_eq!(files.len(), 5);
    assert_eq!(files[0].path, path(&["auto", "b"]));
    assert_eq!(files[1].path, path(&["auto", "a"]));
    let root = &files[4];
    assert_eq!(root.path, path(&["auto"]));
    let expected_calls = "    self::write_module(auto_out_dir_root)?;\n    self::a::write_module(auto_out_dir_root)?;\n    self::a::y::write_module(auto_out_dir_root)?;\n    self::a::z::write_module(auto_out_dir_root)?;\n    self::b::write_module(auto_out_dir_root)?;\n    Ok(())\n";
    assert!(root.text.contains(expected_calls));
    assert!(root.text.starts_with("#[path = \"out/cfg/auto/a.rs\"]\npub mod a;\n#[path = \"out/cfg/auto/b.rs\"]\npub mod b;\n"));
    assert!(root.text.contains("let path_components: &[&str] = &[];\n    let path_descendants: &[&str] = &[\"a\", \"b\", ];"));
    assert!(!root.text.contains("BoxResult"));
    assert!(root.text.contains("pub fn process_artifacts(out_dir: &::std::path::Path) -> ::std::io::Result<()> {"));
    let a = &files[1].text;
    assert!(a.starts_with("#[path = \"out/cfg/auto/a/y.rs\"]\npub mod y;\n#[path = \"out/cfg/auto/a/z.rs\"]\npub mod z;\n#[cxx::bridge]"));
    assert!(a.contains("let path_descendants = vec![::std::string::String::from(\"y\"), ::std::string::String::from(\"z\"), ];"));
}

#[test]
fn directory_node_writes_its_module() {
    let entries = vec![dir(&["d"]), file(&["d", "x"])];
    let files = process_artifacts("m", &entries).unwrap();
    assert_eq!(
        files[0].text,
        "#[path = \"m/d/x.rs\"]\npub mod x;\npub(crate) fn write_module(out_dir: &::std::path::Path) -> ::std::io::Result<()> {\n    let path_components: &[&str] = &[\"d\", ];\n    let path_descendants: &[&str] = &[\"x\", ];\n    let dir = out_dir.join(path_components.iter().collect::<::std::path::PathBuf>());\n    let descendants = path_descendants.iter().map(|d| d.to_string()).collect::<::std::vec::Vec<_>>();\n    let text = ::cxx_auto::CxxAutoArtifactInfo::emit_dir_file(&dir.to_string_lossy(), &descendants)\n        .map_err(|e| ::std::io::Error::new(::std::io::ErrorKind::InvalidData, format!(\"{e:?}\")))?;\n    if let Some(parent) = dir.parent() {\n        ::std::fs::create_dir_all(parent)?;\n    }\n    ::std::fs::write(dir.with_extension(\"rs\"), text)\n}\n"
    );
}

#[test]
fn generation_is_idempotent() {
    let entries = vec![dir(&["a"]), file(&["a", "z"]), file(&["a"]), file(&["b"])];
    let one = process_artifacts("m", &entries).unwrap();
    let two = process_artifacts("m", &entries).unwrap();
    assert_eq!(one.len(), two.len());
    for (x, y) in one.iter().zip(two.iter()) {
        assert_eq!(x.path, y.path);
        assert_eq!(x.text, y.text);
    }
}

#[test]
fn empty_walk_gives_only_the_root() {
    let files = process_artifacts("m", &vec![]).unwrap();
    assert_eq!(files.len(), 1);
    assert_eq!(files[0].path, path(&["auto"]));
    assert!(files[0].text.starts_with("pub(crate) fn write_module(out_dir: &::std::path::Path)"));
    assert!(files[0].text.contains("    self::write_module(auto_out_dir_root)?;\n    Ok(())\n}\n"));
}
