use cxx_auto::capability::EntryPoint;
use cxx_auto::indexmap::IndexMap;
use cxx_auto::wrapper::StructField;
use cxx_auto::{merge_trivial, ordering_from_three_way, partial_ordering_from_three_way};
use cxx_auto::{CxxAutoArtifactInfo, GenError};
use std::cmp::Ordering;

fn point() -> CxxAutoArtifactInfo {
    CxxAutoArtifactInfo {
        path_components: vec!["geo".to_string(), "Point".to_string()],
        path_descendants: vec![],
        cxx_include: "geo/point.hxx".to_string(),
        cxx_namespace: "ns".to_string(),
        cxx_name: "Point".to_string(),
        rust_name: "Point".to_string(),
        lifetimes: IndexMap::new(),
        align: 4,
        size: 8,
        cxx_has_operator_equal: true,
        cxx_has_operator_not_equal: false,
        cxx_has_operator_less_than: false,
        cxx_has_operator_less_than_or_equal: false,
        cxx_has_operator_greater_than: false,
        cxx_has_operator_greater_than_or_equal: false,
        is_rust_cxx_extern_type_trivial: true,
        is_rust_unpin: true,
        is_rust_send: true,
        is_rust_sync: true,
        is_rust_copy: true,
        is_rust_debug: false,
        is_rust_default: false,
        is_rust_display: false,
        is_rust_drop: false,
        is_rust_copy_new: true,
        is_rust_move_new: false,
        is_rust_eq: true,
        is_rust_partial_eq: true,
        is_rust_partial_ord: false,
        is_rust_ord: false,
        is_rust_hash: false,
    }
}

fn all_off() -> CxxAutoArtifactInfo {
    let mut i = point();
    i.cxx_has_operator_equal = false;
    i.is_rust_cxx_extern_type_trivial = false;
    i.is_rust_unpin = false;
    i.is_rust_send = false;
    i.is_rust_sync = false;
    i.is_rust_copy = false;
    i.is_rust_copy_new = false;
    i.is_rust_eq = false;
    i.is_rust_partial_eq = false;
    i
}

fn all_on() -> CxxAutoArtifactInfo {
    let mut i = point();
    i.is_rust_copy = false;
    i.cxx_has_operator_not_equal = true;
    i.cxx_has_operator_less_than = true;
    i.cxx_has_operator_less_than_or_equal = true;
    i.cxx_has_operator_greater_than = true;
    i.cxx_has_operator_greater_than_or_equal = true;
    i.is_rust_debug = true;
    i.is_rust_default = true;
    i.is_rust_display = true;
    i.is_rust_drop = true;
    i.is_rust_move_new = true;
    i.is_rust_partial_ord = true;
    i.is_rust_ord = true;
    i.is_rust_hash = true;
    i
}

#[test]
fn trivial_merge_rule() {
    assert!(merge_trivial(true, true));
    assert!(!merge_trivial(false, false));
    assert!(!merge_trivial(true, false));
    assert!(merge_trivial(false, true));
}

#[test]
fn three_way_total_reads_the_sign() {
    assert_eq!(ordering_from_three_way(-1), Ordering::Less);
    assert_eq!(ordering_from_three_way(-100), Ordering::Less);
    assert_eq!(ordering_from_three_way(0), Ordering::Equal);
    assert_eq!(ordering_from_three_way(1), Ordering::Greater);
    assert_eq!(ordering_from_three_way(42), Ordering::Greater);
}

#[test]
fn three_way_partial_reads_the_sentinel() {
    assert_eq!(partial_ordering_from_three_way(-3), Some(Ordering::Less));
    assert_eq!(partial_ordering_from_three_way(0), Some(Ordering::Equal));
    assert_eq!(partial_ordering_from_three_way(5), Some(Ordering::Greater));
    assert_eq!(partial_ordering_from_three_way(i8::MAX), None);
}

#[test]
fn point_end_to_end() {
    let text = point().emit_file("out/auto/geo/Point").unwrap();
    assert!(text.contains("#[derive(Clone, Copy)]\n#[repr(C, align(4))]\npub struct Point {\n    _layout: [u8; 8],\n}\n"));
    assert!(text.contains("fn eq(&self, other: &Self) -> bool {\n        self::ffi::cxx_operator_equal(self, other)"));
    assert!(text.contains("        unsafe fn cxx_copy_new(This: *mut Point, that: &Point);\n"));
    assert!(text.contains("        fn cxx_operator_equal(This: &Point, That: &Point) -> bool;\n"));
    assert!(text.contains("f.debug_struct(\"Point\").finish()"));
    assert!(!text.contains("cxx_debug"));
    assert!(!text.contains("fn ne("));
    assert!(text.contains("type Id = ::cxx::type_id!(\"ns::Point\");"));
    assert!(text.contains("type Kind = ::cxx::kind::Trivial;"));
    assert!(text.contains("#[namespace = \"ns\"]"));
    assert!(text.contains("::core::assert_eq!(::core::mem::size_of::<Point>(), 8)"));
    assert!(text.contains("::core::assert_eq!(::core::mem::align_of::<Point>(), 4)"));
    assert!(text.contains("::static_assertions::assert_impl_all!(Point: ::core::marker::Copy);"));
    assert_eq!(
        point().entry_points(),
        vec![EntryPoint::CopyNew, EntryPoint::OperatorEqual]
    );
}

#[test]
fn layout_fields_follow_the_record() {
    assert_eq!(point().struct_fields(), vec![StructField::Layout { size: 8 }]);
    let mut i = all_off();
    i.size = 1234;
    assert_eq!(
        i.struct_fields(),
        vec![StructField::Layout { size: 1234 }, StructField::NeitherSendNorSync, StructField::Pinned]
    );
    let text = i.emit_file("d").unwrap();
    assert!(text.contains("#[repr(C, align(4))]\npub struct Point {\n    _layout: [u8; 1234],\n    _neither_send_nor_sync: ::core::marker::PhantomData<[*const u8; 0]>,\n    _pinned: ::core::marker::PhantomPinned,\n}\n"));
    assert!(text.contains("type Kind = ::cxx::kind::Opaque;"));
    let mut s = all_off();
    s.is_rust_send = true;
    assert_eq!(s.struct_fields(), vec![StructField::Layout { size: 8 }, StructField::Pinned]);
}

#[test]
fn no_capability_declares_nothing() {
    let i = all_off();
    assert!(i.entry_points().is_empty());
    let text = i.emit_file("d").unwrap();
    assert!(!text.contains("(This"));
    assert!(!text.contains("impl ::core::cmp::PartialEq"));
    assert!(text.contains("impl ::core::fmt::Debug for Point"));
}

#[test]
fn every_capability_declares_everything() {
    let i = all_on();
    assert_eq!(i.entry_points().len(), 14);
    let text = i.emit_file("d").unwrap();
    for name in [
        "cxx_copy_new", "cxx_move_new", "cxx_default_new", "cxx_destruct", "cxx_operator_equal",
        "cxx_operator_not_equal", "cxx_operator_less_than", "cxx_operator_less_than_or_equal",
        "cxx_operator_greater_than", "cxx_operator_greater_than_or_equal",
        "cxx_operator_three_way_comparison", "cxx_hash", "cxx_debug", "cxx_display",
    ] {
        assert_eq!(text.matches(&format!("fn {name}(")).count(), 1, "{name}");
    }
    assert!(text.contains("Some(self.cmp(other))"));
    assert!(text.contains("::cxx_auto::ordering_from_three_way(self::ffi::cxx_operator_three_way_comparison(self, other))"));
}

#[test]
fn ordering_without_relational_operators_uses_three_way() {
    let mut i = point();
    i.is_rust_partial_ord = true;
    let text = i.emit_file("d").unwrap();
    assert!(text.contains("::cxx_auto::partial_ordering_from_three_way(self::ffi::cxx_operator_three_way_comparison(self, other))"));
    assert!(!text.contains("fn lt("));
    assert!(!text.contains("fn ge("));
    assert_eq!(
        i.entry_points(),
        vec![EntryPoint::CopyNew, EntryPoint::OperatorEqual, EntryPoint::ThreeWayComparison]
    );
}

#[test]
fn relational_operators_are_forwarded() {
    let mut i = point();
    i.is_rust_partial_ord = true;
    i.cxx_has_operator_less_than = true;
    let text = i.emit_file("d").unwrap();
    assert!(text.contains("fn lt(&self, other: &Self) -> bool {\n        self::ffi::cxx_operator_less_than(self, other)"));
    assert!(!text.contains("fn le("));
    assert!(text.contains("        fn cxx_operator_less_than(This: &Point, That: &Point) -> bool;\n"));
}

#[test]
fn relational_operators_are_declared_on_their_own_flag() {
    let mut i = point();
    i.cxx_has_operator_less_than = true;
    i.cxx_has_operator_greater_than_or_equal = true;
    assert_eq!(
        i.entry_points(),
        vec![
            EntryPoint::CopyNew,
            EntryPoint::OperatorEqual,
            EntryPoint::OperatorLessThan,
            EntryPoint::OperatorGreaterThanOrEqual
        ]
    );
    let text = i.emit_file("d").unwrap();
    assert!(text.contains("        fn cxx_operator_less_than(This: &Point, That: &Point) -> bool;\n"));
    assert!(!text.contains("impl ::core::cmp::PartialOrd"));
}

#[test]
fn lifetimes_bind_the_wrapper() {
    let mut i = point();
    let mut l = IndexMap::new();
    l.insert("a".to_string(), vec!["b".to_string()]);
    l.insert("b".to_string(), vec![]);
    i.lifetimes = l;
    let text = i.emit_file("d").unwrap();
    assert!(text.contains("pub struct Point<'a: 'b + , 'b: , > {"));
    assert!(text.contains("    _lifetimes: ::core::marker::PhantomData<(&'a (), &'b (), )>,\n"));
    assert!(text.contains("type Point<'a, 'b, > = super::Point<'a, 'b, >;"));
    assert!(text.contains("::core::mem::size_of::<Point<'static, 'static, >>()"));
}

#[test]
fn child_modules_live_under_the_output_dir() {
    let mut i = point();
    i.path_descendants = vec!["Inner".to_string()];
    let text = i.emit_file("out/auto/Point").unwrap();
    assert!(text.starts_with("#[path = \"out/auto/Point/Inner.rs\"]\npub(crate) mod Inner;\n"));
    let dir = CxxAutoArtifactInfo::emit_dir_file("out/auto/geo", &vec!["A".to_string(), "B".to_string()]).unwrap();
    assert_eq!(
        dir,
        "#[path = \"out/auto/geo/A.rs\"]\npub(crate) mod A;\n#[path = \"out/auto/geo/B.rs\"]\npub(crate) mod B;\n"
    );
    assert_eq!(
        CxxAutoArtifactInfo::emit_dir_file("d", &vec!["not an ident".to_string()]),
        Err(GenError::InvalidIdentifier)
    );
}

#[test]
fn names_are_escaped_as_literals() {
    let mut i = point();
    i.cxx_namespace = "a\"b".to_string();
    let text = i.emit_file("d").unwrap();
    assert!(text.contains("#[namespace = \"a\\\"b\"]"));
}

#[test]
fn invalid_records_are_refused() {
    let mut i = point();
    i.rust_name = "fn".to_string();
    assert_eq!(i.emit_file("d"), Err(GenError::InvalidIdentifier));
    let mut i = point();
    i.rust_name = "1abc".to_string();
    assert_eq!(i.check(), Err(GenError::InvalidIdentifier));
    let mut i = point();
    let mut l = IndexMap::new();
    l.insert("a b".to_string(), vec![]);
    i.lifetimes = l;
    assert_eq!(i.check(), Err(GenError::InvalidLifetime));
    let mut i = point();
    let mut l = IndexMap::new();
    l.insert("a".to_string(), vec!["?".to_string()]);
    i.lifetimes = l;
    assert_eq!(i.check(), Err(GenError::InvalidLifetime));
    let mut i = point();
    i.is_rust_partial_eq = false;
    assert_eq!(i.emit_file("d"), Err(GenError::UnrealizableCapabilities));
    let mut i = point();
    i.is_rust_ord = true;
    assert_eq!(i.check(), Err(GenError::UnrealizableCapabilities));
    let mut i = point();
    i.is_rust_partial_ord = true;
    i.is_rust_partial_eq = false;
    i.is_rust_eq = false;
    assert_eq!(i.check(), Err(GenError::UnrealizableCapabilities));
    let mut i = point();
    i.is_rust_drop = true;
    assert_eq!(i.check(), Err(GenError::UnrealizableCapabilities));
    let mut i = point();
    i.rust_name = "Point // x".to_string();
    assert_eq!(i.check(), Err(GenError::InvalidIdentifier));
    let mut i = point();
    i.rust_name = " Point".to_string();
    assert_eq!(i.check(), Err(GenError::InvalidIdentifier));
    let mut i = point();
    i.path_descendants = vec!["Inner/*x*/".to_string()];
    assert_eq!(i.check(), Err(GenError::InvalidIdentifier));
    let mut i = point();
    let mut l = IndexMap::new();
    l.insert("a ".to_string(), vec![]);
    i.lifetimes = l;
    assert_eq!(i.check(), Err(GenError::InvalidLifetime));
    assert_eq!(point().check(), Ok(()));
}

#[test]
fn emission_is_repeatable() {
    assert_eq!(all_on().emit_file("d"), all_on().emit_file("d"));
    assert_eq!(point().emit_file("d"), point().emit_file("d"));
}

#[test]
fn largest_size_is_written_in_full() {
    let mut i = point();
    i.size = usize::MAX;
    i.align = 1;
    let text = i.emit_file("d").unwrap();
    assert!(text.contains(&format!("    _layout: [u8; {}],\n", usize::MAX)));
    assert!(text.contains("#[repr(C, align(1))]"));
    let mut z = point();
    z.size = 0;
    assert!(z.emit_file("d").unwrap().contains("    _layout: [u8; 0],\n"));
}
