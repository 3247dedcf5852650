//! The capability descriptor of a configuration node, and the probe module
//! generated from it: the native queries and the function that assembles the
//! record of the foreign type from their answers.
use vstd::prelude::*;
use indexmap::IndexMap;
use crate::artifact::{lifetime_at, lifetime_count};
use crate::syntax::{joined, lemma_joined_step, push_strings, str_literal_of, string_item, string_literal};

verus! {

/// The native queries of a probe module, one declaration each.
pub const PROBE_QUERIES: &'static str = "        #[must_use]\n        fn cxx_abi_align() -> usize;\n        #[must_use]\n        fn cxx_abi_size() -> usize;\n        #[must_use]\n        fn cxx_is_copy_constructible() -> bool;\n        #[must_use]\n        fn cxx_is_move_constructible() -> bool;\n        #[must_use]\n        fn cxx_is_default_constructible() -> bool;\n        #[must_use]\n        fn cxx_is_destructible() -> bool;\n        #[must_use]\n        fn cxx_is_trivially_copyable() -> bool;\n        #[must_use]\n        fn cxx_is_trivially_movable() -> bool;\n        #[must_use]\n        fn cxx_is_trivially_destructible() -> bool;\n        #[must_use]\n        fn cxx_is_equality_comparable() -> bool;\n        #[must_use]\n        fn cxx_has_operator_equal() -> bool;\n        #[must_use]\n        fn cxx_has_operator_not_equal() -> bool;\n        #[must_use]\n        fn cxx_has_operator_less_than() -> bool;\n        #[must_use]\n        fn cxx_has_operator_less_than_or_equal() -> bool;\n        #[must_use]\n        fn cxx_has_operator_greater_than() -> bool;\n        #[must_use]\n        fn cxx_has_operator_greater_than_or_equal() -> bool;\n        #[must_use]\n        fn cxx_is_partially_ordered() -> bool;\n        #[must_use]\n        fn cxx_is_totally_ordered() -> bool;\n        #[must_use]\n        fn cxx_is_hashable() -> bool;\n        #[must_use]\n        fn rust_should_impl_cxx_extern_type_trivial() -> bool;\n        #[must_use]\n        fn rust_should_impl_unpin() -> bool;\n        #[must_use]\n        fn rust_should_impl_send() -> bool;\n        #[must_use]\n        fn rust_should_impl_sync() -> bool;\n        #[must_use]\n        fn rust_should_impl_copy() -> bool;\n        #[must_use]\n        fn rust_should_impl_debug() -> bool;\n        #[must_use]\n        fn rust_should_impl_default() -> bool;\n        #[must_use]\n        fn rust_should_impl_display() -> bool;\n        #[must_use]\n        fn rust_should_impl_drop() -> bool;\n        #[must_use]\n        fn rust_should_impl_moveref_copy_new() -> bool;\n        #[must_use]\n        fn rust_should_impl_moveref_move_new() -> bool;\n        #[must_use]\n        fn rust_should_impl_eq() -> bool;\n        #[must_use]\n        fn rust_should_impl_partial_eq() -> bool;\n        #[must_use]\n        fn rust_should_impl_partial_ord() -> bool;\n        #[must_use]\n        fn rust_should_impl_ord() -> bool;\n        #[must_use]\n        fn rust_should_impl_hash() -> bool;\n";

/// The part of the record-assembling function that asks the probe and builds the record.
pub const PROBE_ASSEMBLY: &'static str = "    let align = self::ffi::cxx_abi_align();\n    let size = self::ffi::cxx_abi_size();\n    let cxx_has_operator_equal = self::ffi::cxx_has_operator_equal();\n    let cxx_has_operator_not_equal = self::ffi::cxx_has_operator_not_equal();\n    let cxx_has_operator_less_than = self::ffi::cxx_has_operator_less_than();\n    let cxx_has_operator_less_than_or_equal = self::ffi::cxx_has_operator_less_than_or_equal();\n    let cxx_has_operator_greater_than = self::ffi::cxx_has_operator_greater_than();\n    let cxx_has_operator_greater_than_or_equal = self::ffi::cxx_has_operator_greater_than_or_equal();\n    let is_rust_cxx_extern_type_trivial = ::cxx_auto::merge_trivial(\n        self::ffi::cxx_is_trivially_movable(),\n        self::ffi::rust_should_impl_cxx_extern_type_trivial(),\n    );\n    let is_rust_unpin = self::ffi::rust_should_impl_unpin();\n    let is_rust_send = self::ffi::rust_should_impl_send();\n    let is_rust_sync = self::ffi::rust_should_impl_sync();\n    let is_rust_copy = self::ffi::rust_should_impl_copy();\n    let is_rust_drop = self::ffi::rust_should_impl_drop();\n    let is_rust_debug = self::ffi::rust_should_impl_debug();\n    let is_rust_default = self::ffi::rust_should_impl_default();\n    let is_rust_display = self::ffi::rust_should_impl_display();\n    let is_rust_copy_new = self::ffi::rust_should_impl_moveref_copy_new();\n    let is_rust_move_new = self::ffi::rust_should_impl_moveref_move_new();\n    let is_rust_eq = self::ffi::rust_should_impl_eq();\n    let is_rust_partial_eq = self::ffi::rust_should_impl_partial_eq();\n    let is_rust_partial_ord = self::ffi::rust_should_impl_partial_ord();\n    let is_rust_ord = self::ffi::rust_should_impl_ord();\n    let is_rust_hash = self::ffi::rust_should_impl_hash();\n    ::cxx_auto::CxxAutoArtifactInfo {\n        path_components,\n        path_descendants,\n        cxx_include,\n        cxx_namespace,\n        cxx_name,\n        rust_name,\n        lifetimes,\n        align,\n        size,\n        cxx_has_operator_equal,\n        cxx_has_operator_not_equal,\n        cxx_has_operator_less_than,\n        cxx_has_operator_less_than_or_equal,\n        cxx_has_operator_greater_than,\n        cxx_has_operator_greater_than_or_equal,\n        is_rust_cxx_extern_type_trivial,\n        is_rust_unpin,\n        is_rust_send,\n        is_rust_sync,\n        is_rust_copy,\n        is_rust_debug,\n        is_rust_default,\n        is_rust_display,\n        is_rust_drop,\n        is_rust_copy_new,\n        is_rust_move_new,\n        is_rust_eq,\n        is_rust_partial_eq,\n        is_rust_partial_ord,\n        is_rust_ord,\n        is_rust_hash,\n    }\n}\n";

/// The descriptor of a foreign type, as a configuration file gives it.
pub struct CxxAutoEntry {
    pub cxx_include: String,
    pub cxx_proxy_include: Option<String>,
    pub cxx_namespace: String,
    pub cxx_proxy_namespace: Option<String>,
    pub cxx_name: Option<String>,
    pub rust_name: String,
    pub rust_lifetimes: IndexMap<String, Vec<String>>,
}

/// A lifetime parameter as the assembled record lists it: its name and its bounds.
pub open spec fn lifetime_item() -> spec_fn((Seq<char>, Seq<Seq<char>>)) -> Seq<char> {
    |e: (Seq<char>, Seq<Seq<char>>)|
        "(::std::string::String::from("@ + str_literal_of(e.0) + "), vec!["@ + joined(e.1, string_item())
            + "]), "@
}

impl CxxAutoEntry {
    /// The foreign name: the one given, else the wrapper's name.
    pub open spec fn spec_cxx_name(&self) -> Seq<char> {
        match self.cxx_name {
            Some(n) => n@,
            None => self.rust_name@,
        }
    }

    /// The header the probe module reads: the proxy header if given, else the type's own.
    pub open spec fn spec_probe_include(&self) -> Seq<char> {
        match self.cxx_proxy_include {
            Some(p) => p@,
            None => self.cxx_include@,
        }
    }

    /// The namespace of the probe queries: the proxy namespace if given, else the type's own.
    pub open spec fn spec_probe_namespace(&self) -> Seq<char> {
        match self.cxx_proxy_namespace {
            Some(p) => p@,
            None => self.cxx_namespace@,
        }
    }

    pub open spec fn spec_lifetimes(&self) -> Seq<(Seq<char>, Seq<Seq<char>>)> {
        crate::artifact::lifetime_entries(self.rust_lifetimes)
    }

    #[must_use]
    pub fn cxx_name(&self) -> (r: &str)
        ensures
            r@ == self.spec_cxx_name(),
    {
        match &self.cxx_name {
            Some(n) => n.as_str(),
            None => self.rust_name.as_str(),
        }
    }

    pub fn probe_include(&self) -> (r: &str)
        ensures
            r@ == self.spec_probe_include(),
    {
        match &self.cxx_proxy_include {
            Some(p) => p.as_str(),
            None => self.cxx_include.as_str(),
        }
    }

    pub fn probe_namespace(&self) -> (r: &str)
        ensures
            r@ == self.spec_probe_namespace(),
    {
        match &self.cxx_proxy_namespace {
            Some(p) => p.as_str(),
            None => self.cxx_namespace.as_str(),
        }
    }

    /// The probe's bridge module: the native queries, in the probe namespace,
    /// reading the probe header.
    pub open spec fn probe_bridge_text(&self) -> Seq<char> {
        "#[cxx::bridge]\nmod ffi {\n    #[namespace = "@ + str_literal_of(self.spec_probe_namespace())
            + "]\n    unsafe extern \"C++\" {\n        include!("@ + str_literal_of(self.spec_probe_include())
            + ");\n"@ + PROBE_QUERIES@ + "    }\n}\npub use ffi::*;\n"@
    }

    /// The source of the probe's bridge module.
    pub fn emit_item_mod_cxx_bridge(&self) -> (r: String)
        ensures
            r@ == self.probe_bridge_text(),
    {
        let namespace = string_literal(self.probe_namespace());
        let header = string_literal(self.probe_include());
        let mut out = String::new();
        out.append("#[cxx::bridge]\nmod ffi {\n    #[namespace = ");
        out.append(namespace.as_str());
        out.append("]\n    unsafe extern \"C++\" {\n        include!(");
        out.append(header.as_str());
        out.append(");\n");
        out.append(PROBE_QUERIES);
        out.append("    }\n}\npub use ffi::*;\n");
        assert(out@ =~= self.probe_bridge_text());
        out
    }

    /// The functions of a node with this descriptor: one assembles the record
    /// of the foreign type from the probe's answers, the other writes its wrapper.
    pub open spec fn write_module_fns_text(&self, components: Seq<Seq<char>>, descendants: Seq<Seq<char>>) -> Seq<char> {
        "fn artifact_info() -> ::cxx_auto::CxxAutoArtifactInfo {\n    let path_components = vec!["@
            + joined(components, string_item()) + "];\n    let path_descendants = vec!["@
            + joined(descendants, string_item()) + "];\n    let cxx_include = ::std::string::String::from("@
            + str_literal_of(self.cxx_include@) + ");\n    let cxx_namespace = ::std::string::String::from("@
            + str_literal_of(self.cxx_namespace@) + ");\n    let cxx_name = ::std::string::String::from("@
            + str_literal_of(self.spec_cxx_name()) + ");\n    let rust_name = ::std::string::String::from("@
            + str_literal_of(self.rust_name@) + ");\n    let lifetimes = ::cxx_auto::indexmap::IndexMap::from_iter(["@
            + joined(self.spec_lifetimes(), lifetime_item()) + "]);\n"@ + PROBE_ASSEMBLY@
            + "pub(crate) fn write_module(auto_out_dir_root: &::std::path::Path) -> ::std::io::Result<()> {\n    let info = self::artifact_info();\n    let dir = auto_out_dir_root.join(info.path_components.iter().collect::<::std::path::PathBuf>());\n    let text = info\n        .emit_file(&dir.to_string_lossy())\n        .map_err(|e| ::std::io::Error::new(::std::io::ErrorKind::InvalidData, format!(\"{e:?}\")))?;\n    if let Some(parent) = dir.parent() {\n        ::std::fs::create_dir_all(parent)?;\n    }\n    ::std::fs::write(dir.with_extension(\"rs\"), text)\n}\n"@
    }

    fn push_lifetimes(&self, out: &mut String)
        ensures
            final(out)@ == old(out)@ + joined(self.spec_lifetimes(), lifetime_item()),
    {
        let ghost l = self.spec_lifetimes();
        let ghost start = out@;
        let n = lifetime_count(&self.rust_lifetimes);
        for i in 0..n
            invariant
                n == l.len(),
                l == self.spec_lifetimes(),
                out@ == start + joined(l.subrange(0, i as int), lifetime_item()),
        {
            proof {
                lemma_joined_step(l, lifetime_item(), i as int);
            }
            match lifetime_at(&self.rust_lifetimes, i) {
                Some((name, bounds)) => {
                    let lit = string_literal(name.as_str());
                    out.append("(::std::string::String::from(");
                    out.append(lit.as_str());
                    out.append("), vec![");
                    push_strings(out, bounds);
                    out.append("]), ");
                    assert(out@ =~= start + joined(l.subrange(0, i as int + 1), lifetime_item()));
                },
                None => {},
            }
        }
        assert(l.subrange(0, n as int) =~= l);
    }

    /// The source of the functions of a node with this descriptor, placed at
    /// `path_components` with the child modules `path_descendants`.
    pub fn emit_items_write_module_for_file(&self, path_components: &Vec<String>, path_descendants: &Vec<String>) -> (r: String)
        ensures
            r@ == self.write_module_fns_text(path_components.deep_view(), path_descendants.deep_view()),
    {
        let header_lit = string_literal(self.cxx_include.as_str());
        let namespace = string_literal(self.cxx_namespace.as_str());
        let cxx_name = string_literal(self.cxx_name());
        let rust_name = string_literal(self.rust_name.as_str());
        let mut out = String::new();
        out.append("fn artifact_info() -> ::cxx_auto::CxxAutoArtifactInfo {\n    let path_components = vec![");
        push_strings(&mut out, path_components);
        out.append("];\n    let path_descendants = vec![");
        push_strings(&mut out, path_descendants);
        out.append("];\n    let cxx_include = ::std::string::String::from(");
        out.append(header_lit.as_str());
        out.append(");\n    let cxx_namespace = ::std::string::String::from(");
        out.append(namespace.as_str());
        out.append(");\n    let cxx_name = ::std::string::String::from(");
        out.append(cxx_name.as_str());
        out.append(");\n    let rust_name = ::std::string::String::from(");
        out.append(rust_name.as_str());
        out.append(");\n    let lifetimes = ::cxx_auto::indexmap::IndexMap::from_iter([");
        self.push_lifetimes(&mut out);
        out.append("]);\n");
        out.append(PROBE_ASSEMBLY);
        out.append("pub(crate) fn write_module(auto_out_dir_root: &::std::path::Path) -> ::std::io::Result<()> {\n    let info = self::artifact_info();\n    let dir = auto_out_dir_root.join(info.path_components.iter().collect::<::std::path::PathBuf>());\n    let text = info\n        .emit_file(&dir.to_string_lossy())\n        .map_err(|e| ::std::io::Error::new(::std::io::ErrorKind::InvalidData, format!(\"{e:?}\")))?;\n    if let Some(parent) = dir.parent() {\n        ::std::fs::create_dir_all(parent)?;\n    }\n    ::std::fs::write(dir.with_extension(\"rs\"), text)\n}\n");
        assert(out@ =~= self.write_module_fns_text(path_components.deep_view(), path_descendants.deep_view()));
        out
    }
}

} // verus!
