//! The wrapper module of a foreign type: its storage struct, the impls that
//! forward to native entry points, the bridge module declaring exactly those
//! entry points, and self-checks of its layout.
use vstd::prelude::*;
use crate::artifact::{lifetime_at, lifetime_count, lifetime_of, CxxAutoArtifactInfo};
use crate::capability::EntryPoint;
use crate::capability::all_entry_points;
use crate::capability::entry_point_table;
use crate::capability::lemma_table_complete;
use crate::error::GenError;
use crate::capability::sign_ordering;
use core::cmp::Ordering;
use crate::syntax::{contains_text, is_name, is_name_text, lemma_contains_add, lemma_contains_self, lemma_joined_contains};
use crate::syntax::{decimal, joined, lemma_joined_step, push_decimal, str_literal_of, string_literal};

verus! {

/// A lifetime parameter as the generics of the wrapper type name it: `'a, `.
pub open spec fn param_item() -> spec_fn((Seq<char>, Seq<Seq<char>>)) -> Seq<char> {
    |e: (Seq<char>, Seq<Seq<char>>)| lifetime_of(e.0) + ", "@
}

/// A bound of a lifetime parameter: `'b + `.
pub open spec fn bound_item() -> spec_fn(Seq<char>) -> Seq<char> {
    |b: Seq<char>| lifetime_of(b) + " + "@
}

/// A lifetime parameter with its bounds, as the struct and impls bind it: `'a: 'b + , `.
pub open spec fn binder_item() -> spec_fn((Seq<char>, Seq<Seq<char>>)) -> Seq<char> {
    |e: (Seq<char>, Seq<Seq<char>>)| lifetime_of(e.0) + ": "@ + joined(e.1, bound_item()) + ", "@
}

/// A lifetime parameter instantiated with `'static`.
pub open spec fn static_item() -> spec_fn((Seq<char>, Seq<Seq<char>>)) -> Seq<char> {
    |e: (Seq<char>, Seq<Seq<char>>)| "'static, "@
}

/// A borrow of the unit type for a lifetime parameter: `&'a (), `.
pub open spec fn ref_item() -> spec_fn((Seq<char>, Seq<Seq<char>>)) -> Seq<char> {
    |e: (Seq<char>, Seq<Seq<char>>)| "&"@ + lifetime_of(e.0) + " (), "@
}

/// Angle brackets around the items, or nothing where there are none.
pub open spec fn angled(n: nat, items: Seq<char>) -> Seq<char> {
    if n == 0 {
        Seq::empty()
    } else {
        "<"@ + items + ">"@
    }
}

impl CxxAutoArtifactInfo {
    /// The generic arguments of the wrapper type.
    pub open spec fn spec_generics(&self) -> Seq<char> {
        angled(self.spec_lifetimes().len(), joined(self.spec_lifetimes(), param_item()))
    }

    /// The generic parameters, with bounds, that the struct and its impls bind.
    pub open spec fn spec_binder(&self) -> Seq<char> {
        angled(self.spec_lifetimes().len(), joined(self.spec_lifetimes(), binder_item()))
    }

    /// The generic arguments with every lifetime `'static`.
    pub open spec fn spec_statics(&self) -> Seq<char> {
        angled(self.spec_lifetimes().len(), joined(self.spec_lifetimes(), static_item()))
    }

    /// The wrapper type, with its generic arguments.
    pub open spec fn spec_type(&self) -> Seq<char> {
        self.rust_name@ + self.spec_generics()
    }

    /// The foreign type's qualified name.
    pub open spec fn spec_type_id(&self) -> Seq<char> {
        self.cxx_namespace@ + "::"@ + self.cxx_name@
    }
}

/// The texts that every piece of the wrapper module is built from.
struct Names {
    binder: String,
    statics: String,
    refs: String,
    ty: String,
    generics: String,
    type_id: String,
    name_literal: String,
    namespace_literal: String,
    include_literal: String,
    cxx_name_literal: String,
}

impl Names {
    spec fn wf(&self, info: &CxxAutoArtifactInfo) -> bool {
        &&& self.binder@ == info.spec_binder()
        &&& self.statics@ == info.spec_statics()
        &&& self.refs@ == joined(info.spec_lifetimes(), ref_item())
        &&& self.ty@ == info.spec_type()
        &&& self.generics@ == info.spec_generics()
        &&& self.type_id@ == str_literal_of(info.spec_type_id())
        &&& self.name_literal@ == str_literal_of(info.rust_name@)
        &&& self.namespace_literal@ == str_literal_of(info.cxx_namespace@)
        &&& self.include_literal@ == str_literal_of(info.cxx_include@)
        &&& self.cxx_name_literal@ == str_literal_of(info.cxx_name@)
    }
}

/// The generic texts of the wrapper: arguments, binder, `'static` arguments and
/// the borrows that carry the lifetimes.
fn emit_generics(info: &CxxAutoArtifactInfo) -> (r: (String, String, String, String))
    ensures
        r.0@ == joined(info.spec_lifetimes(), param_item()),
        r.1@ == joined(info.spec_lifetimes(), binder_item()),
        r.2@ == joined(info.spec_lifetimes(), static_item()),
        r.3@ == joined(info.spec_lifetimes(), ref_item()),
{
    let ghost l = info.spec_lifetimes();
    let mut params = String::new();
    let mut binder = String::new();
    let mut statics = String::new();
    let mut refs = String::new();
    let n = lifetime_count(&info.lifetimes);
    for i in 0..n
        invariant
            n == l.len(),
            l == info.spec_lifetimes(),
            params@ == joined(l.subrange(0, i as int), param_item()),
            binder@ == joined(l.subrange(0, i as int), binder_item()),
            statics@ == joined(l.subrange(0, i as int), static_item()),
            refs@ == joined(l.subrange(0, i as int), ref_item()),
    {
        proof {
            lemma_joined_step(l, param_item(), i as int);
            lemma_joined_step(l, binder_item(), i as int);
            lemma_joined_step(l, static_item(), i as int);
            lemma_joined_step(l, ref_item(), i as int);
        }
        match lifetime_at(&info.lifetimes, i) {
            Some((name, bounds)) => {
                let ghost p0 = params@;
                let ghost b0 = binder@;
                let ghost r0 = refs@;
                params.append("'");
                params.append(name.as_str());
                params.append(", ");
                assert(params@ =~= p0 + (param_item())(l[i as int]));
                binder.append("'");
                binder.append(name.as_str());
                binder.append(": ");
                let ghost b1 = binder@;
                let m = bounds.len();
                for j in 0..m
                    invariant
                        i < n,
                        n == l.len(),
                        m == bounds@.len(),
                        bounds.deep_view() == l[i as int].1,
                        binder@ == b1 + joined(l[i as int].1.subrange(0, j as int), bound_item()),
                {
                    proof {
                        lemma_joined_step(l[i as int].1, bound_item(), j as int);
                    }
                    assert(bounds.deep_view()[j as int] == bounds@[j as int]@);
                    let ghost b2 = binder@;
                    binder.append("'");
                    binder.append(bounds[j].as_str());
                    binder.append(" + ");
                    assert(binder@ =~= b2 + (bound_item())(l[i as int].1[j as int]));
                }
                assert(l[i as int].1.subrange(0, m as int) =~= l[i as int].1);
                binder.append(", ");
                assert(binder@ =~= b0 + (binder_item())(l[i as int]));
                statics.append("'static, ");
                refs.append("&");
                refs.append("'");
                refs.append(name.as_str());
                refs.append(" (), ");
                assert(refs@ =~= r0 + (ref_item())(l[i as int]));
            },
            None => {},
        }
    }
    assert(l.subrange(0, n as int) =~= l);
    (params, binder, statics, refs)
}

/// Wraps the items in angle brackets unless there are none.
fn angled_text(n: usize, items: String) -> (r: String)
    ensures
        r@ == angled(n as nat, items@),
{
    if n == 0 {
        String::new()
    } else {
        let mut r = String::new();
        r.append("<");
        r.append(items.as_str());
        r.append(">");
        assert(r@ =~= angled(n as nat, items@));
        r
    }
}

fn names_of(info: &CxxAutoArtifactInfo) -> (r: Names)
    ensures
        r.wf(info),
{
    let n = lifetime_count(&info.lifetimes);
    let (params, binder, statics, refs) = emit_generics(info);
    let generics = angled_text(n, params);
    let mut ty = String::new();
    ty.append(info.rust_name.as_str());
    ty.append(generics.as_str());
    let mut type_id = String::new();
    type_id.append(info.cxx_namespace.as_str());
    type_id.append("::");
    type_id.append(info.cxx_name.as_str());
    let r = Names {
        binder: angled_text(n, binder),
        statics: angled_text(n, statics),
        refs,
        ty,
        generics,
        type_id: string_literal(type_id.as_str()),
        name_literal: string_literal(info.rust_name.as_str()),
        namespace_literal: string_literal(info.cxx_namespace.as_str()),
        include_literal: string_literal(info.cxx_include.as_str()),
        cxx_name_literal: string_literal(info.cxx_name.as_str()),
    };
    assert(r.ty@ =~= info.spec_type());
    assert(type_id@ =~= info.spec_type_id());
    r
}

/// The start of a call of an entry point through the bridge module.
pub open spec fn ffi_call(ep: EntryPoint) -> Seq<char> {
    "self::ffi::"@ + ep.spec_name() + "("@
}

fn push_ffi_call(out: &mut String, ep: EntryPoint)
    ensures
        final(out)@ == old(out)@ + ffi_call(ep),
{
    out.append("self::ffi::");
    out.append(ep.name());
    out.append("(");
    assert(out@ =~= old(out)@ + ffi_call(ep));
}

/// The path of the `cxx` kind of the wrapper: trivially relocatable or opaque.
pub open spec fn kind_path(trivial: bool) -> Seq<char> {
    if trivial {
        "::cxx::kind::Trivial"@
    } else {
        "::cxx::kind::Opaque"@
    }
}

fn kind_path_str(trivial: bool) -> (r: &'static str)
    ensures
        r@ == kind_path(trivial),
{
    if trivial {
        "::cxx::kind::Trivial"
    } else {
        "::cxx::kind::Opaque"
    }
}

/// A comparison method forwarding to a native operator.
pub open spec fn compare_method_text(method: Seq<char>, ep: EntryPoint) -> Seq<char> {
    "    #[inline]\n    fn "@ + method + "(&self, other: &Self) -> bool {\n        "@ + ffi_call(ep)
        + "self, other)\n    }\n"@
}

pub open spec fn optional_compare_method_text(present: bool, method: Seq<char>, ep: EntryPoint) -> Seq<char> {
    if present {
        compare_method_text(method, ep)
    } else {
        Seq::empty()
    }
}

fn push_compare_method(out: &mut String, method: &str, ep: EntryPoint)
    ensures
        final(out)@ == old(out)@ + compare_method_text(method@, ep),
{
    out.append("    #[inline]\n    fn ");
    out.append(method);
    out.append("(&self, other: &Self) -> bool {\n        ");
    push_ffi_call(out, ep);
    out.append("self, other)\n    }\n");
    assert(out@ =~= old(out)@ + compare_method_text(method@, ep));
}

fn push_optional_compare_method(out: &mut String, present: bool, method: &str, ep: EntryPoint)
    ensures
        final(out)@ == old(out)@ + optional_compare_method_text(present, method@, ep),
{
    if present {
        push_compare_method(out, method, ep);
    } else {
        assert(out@ =~= old(out)@ + optional_compare_method_text(present, method@, ep));
    }
}

/// `partial_cmp`: through `cmp` for a total order, else from the native
/// three-way comparison, whose sentinel says "incomparable".
pub open spec fn partial_cmp_text(total: bool) -> Seq<char> {
    if total {
        "    #[inline]\n    fn partial_cmp(&self, other: &Self) -> Option<::core::cmp::Ordering> {\n        Some(self.cmp(other))\n    }\n"@
    } else {
        "    #[inline]\n    fn partial_cmp(&self, other: &Self) -> Option<::core::cmp::Ordering> {\n        ::cxx_auto::partial_ordering_from_three_way("@
            + ffi_call(EntryPoint::ThreeWayComparison) + "self, other))\n    }\n"@
    }
}

fn push_partial_cmp(out: &mut String, total: bool)
    ensures
        final(out)@ == old(out)@ + partial_cmp_text(total),
{
    if total {
        out.append("    #[inline]\n    fn partial_cmp(&self, other: &Self) -> Option<::core::cmp::Ordering> {\n        Some(self.cmp(other))\n    }\n");
    } else {
        out.append("    #[inline]\n    fn partial_cmp(&self, other: &Self) -> Option<::core::cmp::Ordering> {\n        ::cxx_auto::partial_ordering_from_three_way(");
        push_ffi_call(out, EntryPoint::ThreeWayComparison);
        out.append("self, other))\n    }\n");
    }
}

/// A compile-time check that the wrapper, at `'static`, has a marker trait.
pub open spec fn static_assert_text(info: &CxxAutoArtifactInfo, claimed: bool, marker: Seq<char>) -> Seq<char> {
    if claimed {
        "        ::static_assertions::assert_impl_all!("@ + info.rust_name@ + info.spec_statics()
            + ": ::core::marker::"@ + marker + ");\n"@
    } else {
        Seq::empty()
    }
}

fn push_static_assert(out: &mut String, info: &CxxAutoArtifactInfo, names: &Names, claimed: bool, marker: &str)
    requires
        names.wf(info),
    ensures
        final(out)@ == old(out)@ + static_assert_text(info, claimed, marker@),
{
    if claimed {
        out.append("        ::static_assertions::assert_impl_all!(");
        out.append(info.rust_name.as_str());
        out.append(names.statics.as_str());
        out.append(": ::core::marker::");
        out.append(marker);
        out.append(");\n");
    }
    assert(out@ =~= old(out)@ + static_assert_text(info, claimed, marker@));
}

/// The relational operators of `PartialOrd` that the type has natively, each
/// forwarded; the others keep their defaults, derived from `partial_cmp`.
pub open spec fn relational_methods_text(info: &CxxAutoArtifactInfo) -> Seq<char> {
    optional_compare_method_text(info.cxx_has_operator_less_than, "lt"@, EntryPoint::OperatorLessThan)
        + optional_compare_method_text(info.cxx_has_operator_less_than_or_equal, "le"@, EntryPoint::OperatorLessThanOrEqual)
        + optional_compare_method_text(info.cxx_has_operator_greater_than, "gt"@, EntryPoint::OperatorGreaterThan)
        + optional_compare_method_text(info.cxx_has_operator_greater_than_or_equal, "ge"@, EntryPoint::OperatorGreaterThanOrEqual)
}

fn push_relational_methods(out: &mut String, info: &CxxAutoArtifactInfo)
    ensures
        final(out)@ == old(out)@ + relational_methods_text(info),
{
    push_optional_compare_method(out, info.cxx_has_operator_less_than, "lt", EntryPoint::OperatorLessThan);
    push_optional_compare_method(out, info.cxx_has_operator_less_than_or_equal, "le", EntryPoint::OperatorLessThanOrEqual);
    push_optional_compare_method(out, info.cxx_has_operator_greater_than, "gt", EntryPoint::OperatorGreaterThan);
    push_optional_compare_method(out, info.cxx_has_operator_greater_than_or_equal, "ge", EntryPoint::OperatorGreaterThanOrEqual);
    assert(out@ =~= old(out)@ + relational_methods_text(info));
}

/// A test that the wrapper, at `'static`, has the declared size or alignment.
pub open spec fn abi_test_text(info: &CxxAutoArtifactInfo, what: Seq<char>, value: usize) -> Seq<char> {
    "        #[test]\n        fn cxx_abi_"@ + what + "() {\n            ::core::assert_eq!(::core::mem::"@ + what
        + "_of::<"@ + info.rust_name@ + info.spec_statics() + ">(), "@ + decimal(value as nat)
        + ")\n        }\n"@
}

fn push_abi_test(out: &mut String, info: &CxxAutoArtifactInfo, names: &Names, what: &str, value: usize)
    requires
        names.wf(info),
    ensures
        final(out)@ == old(out)@ + abi_test_text(info, what@, value),
{
    out.append("        #[test]\n        fn cxx_abi_");
    out.append(what);
    out.append("() {\n            ::core::assert_eq!(::core::mem::");
    out.append(what);
    out.append("_of::<");
    out.append(info.rust_name.as_str());
    out.append(names.statics.as_str());
    out.append(">(), ");
    push_decimal(out, value);
    out.append(")\n        }\n");
    assert(out@ =~= old(out)@ + abi_test_text(info, what@, value));
}

/// The `ExternType` impl that ties the wrapper to the foreign type's identity and kind.
pub open spec fn extern_type_text(info: &CxxAutoArtifactInfo) -> Seq<char> {
    "unsafe impl"@
    + info.spec_binder()
    + " ::cxx::ExternType for "@
    + info.spec_type()
    + " {\n    type Id = ::cxx::type_id!("@
    + str_literal_of(info.spec_type_id())
    + ");\n    type Kind = "@
    + kind_path(info.is_rust_cxx_extern_type_trivial)
    + ";\n}\n"@
}

fn emit_impl_cxx_extern_type(info: &CxxAutoArtifactInfo, names: &Names, out: &mut String)
    requires
        names.wf(info),
    ensures
        final(out)@ == old(out)@ + extern_type_text(info),
{
    out.append("unsafe impl");
    out.append(names.binder.as_str());
    out.append(" ::cxx::ExternType for ");
    out.append(names.ty.as_str());
    out.append(" {\n    type Id = ::cxx::type_id!(");
    out.append(names.type_id.as_str());
    out.append(");\n    type Kind = ");
    out.append(kind_path_str(info.is_rust_cxx_extern_type_trivial));
    out.append(";\n}\n");
    assert(out@ =~= old(out)@ + extern_type_text(info));
}

/// The `Drop` impl, forwarding to the native destructor, when the type is destructible.
pub open spec fn drop_text(info: &CxxAutoArtifactInfo) -> Seq<char> {
    if info.is_rust_drop {
        "impl"@
        + info.spec_binder()
        + " ::core::ops::Drop for "@
        + info.spec_type()
        + " {\n"@
        + "    #[inline]\n    fn drop(&mut self) {\n        unsafe {\n            "@
        + ffi_call(EntryPoint::Destruct)
        + "self);\n        }\n    }\n}\n"@
    } else {
        Seq::empty()
    }
}

fn emit_impl_drop(info: &CxxAutoArtifactInfo, names: &Names, out: &mut String)
    requires
        names.wf(info),
    ensures
        final(out)@ == old(out)@ + drop_text(info),
{
    if info.is_rust_drop {
        out.append("impl");
        out.append(names.binder.as_str());
        out.append(" ::core::ops::Drop for ");
        out.append(names.ty.as_str());
        out.append(" {\n");
        out.append("    #[inline]\n    fn drop(&mut self) {\n        unsafe {\n            ");
        push_ffi_call(out, EntryPoint::Destruct);
        out.append("self);\n        }\n    }\n}\n");
        assert(out@ =~= old(out)@ + drop_text(info));
    } else {
        assert(out@ =~= old(out)@ + drop_text(info));
    }
}

/// The in-place default constructor, forwarding to the native one, when the type has one.
pub open spec fn default_text(info: &CxxAutoArtifactInfo) -> Seq<char> {
    if info.is_rust_default {
        "impl"@
        + info.spec_binder()
        + " "@
        + info.spec_type()
        + " {\n    #[inline]\n    pub(crate) fn default_new() -> impl ::moveref::New<Output = "@
        + info.spec_type()
        + "> {\n        unsafe {\n            ::moveref::new::by_raw(move |this| {\n                let this = this.get_unchecked_mut().as_mut_ptr();\n                "@
        + ffi_call(EntryPoint::DefaultNew)
        + "this);\n            })\n        }\n    }\n}\n"@
    } else {
        Seq::empty()
    }
}

fn emit_impl_default(info: &CxxAutoArtifactInfo, names: &Names, out: &mut String)
    requires
        names.wf(info),
    ensures
        final(out)@ == old(out)@ + default_text(info),
{
    if info.is_rust_default {
        out.append("impl");
        out.append(names.binder.as_str());
        out.append(" ");
        out.append(names.ty.as_str());
        out.append(" {\n    #[inline]\n    pub(crate) fn default_new() -> impl ::moveref::New<Output = ");
        out.append(names.ty.as_str());
        out.append("> {\n        unsafe {\n            ::moveref::new::by_raw(move |this| {\n                let this = this.get_unchecked_mut().as_mut_ptr();\n                ");
        push_ffi_call(out, EntryPoint::DefaultNew);
        out.append("this);\n            })\n        }\n    }\n}\n");
        assert(out@ =~= old(out)@ + default_text(info));
    } else {
        assert(out@ =~= old(out)@ + default_text(info));
    }
}

/// The `CopyNew` impl, forwarding to the native copy constructor.
pub open spec fn copy_new_text(info: &CxxAutoArtifactInfo) -> Seq<char> {
    if info.is_rust_copy_new {
        "impl"@
        + info.spec_binder()
        + " ::moveref::CopyNew for "@
        + info.spec_type()
        + " {\n"@
        + "    #[inline]\n    unsafe fn copy_new(that: &Self, this: ::core::pin::Pin<&mut ::core::mem::MaybeUninit<Self>>) {\n        let this = this.get_unchecked_mut().as_mut_ptr();\n        "@
        + ffi_call(EntryPoint::CopyNew)
        + "this, that);\n    }\n}\n"@
    } else {
        Seq::empty()
    }
}

fn emit_impl_moveit_copy_new(info: &CxxAutoArtifactInfo, names: &Names, out: &mut String)
    requires
        names.wf(info),
    ensures
        final(out)@ == old(out)@ + copy_new_text(info),
{
    if info.is_rust_copy_new {
        out.append("impl");
        out.append(names.binder.as_str());
        out.append(" ::moveref::CopyNew for ");
        out.append(names.ty.as_str());
        out.append(" {\n");
        out.append("    #[inline]\n    unsafe fn copy_new(that: &Self, this: ::core::pin::Pin<&mut ::core::mem::MaybeUninit<Self>>) {\n        let this = this.get_unchecked_mut().as_mut_ptr();\n        ");
        push_ffi_call(out, EntryPoint::CopyNew);
        out.append("this, that);\n    }\n}\n");
        assert(out@ =~= old(out)@ + copy_new_text(info));
    } else {
        assert(out@ =~= old(out)@ + copy_new_text(info));
    }
}

/// The `MoveNew` impl, forwarding to the native move constructor.
pub open spec fn move_new_text(info: &CxxAutoArtifactInfo) -> Seq<char> {
    if info.is_rust_move_new {
        "impl"@
        + info.spec_binder()
        + " ::moveref::MoveNew for "@
        + info.spec_type()
        + " {\n"@
        + "    #[inline]\n    unsafe fn move_new(\n        that: ::core::pin::Pin<::moveref::MoveRef<\'_, Self>>,\n        this: ::core::pin::Pin<&mut ::core::mem::MaybeUninit<Self>>,\n    ) {\n        let this = this.get_unchecked_mut().as_mut_ptr();\n        let that = &mut *::core::pin::Pin::into_inner_unchecked(that);\n        "@
        + ffi_call(EntryPoint::MoveNew)
        + "this, that);\n    }\n}\n"@
    } else {
        Seq::empty()
    }
}

fn emit_impl_moveit_move_new(info: &CxxAutoArtifactInfo, names: &Names, out: &mut String)
    requires
        names.wf(info),
    ensures
        final(out)@ == old(out)@ + move_new_text(info),
{
    if info.is_rust_move_new {
        out.append("impl");
        out.append(names.binder.as_str());
        out.append(" ::moveref::MoveNew for ");
        out.append(names.ty.as_str());
        out.append(" {\n");
        out.append("    #[inline]\n    unsafe fn move_new(\n        that: ::core::pin::Pin<::moveref::MoveRef<\'_, Self>>,\n        this: ::core::pin::Pin<&mut ::core::mem::MaybeUninit<Self>>,\n    ) {\n        let this = this.get_unchecked_mut().as_mut_ptr();\n        let that = &mut *::core::pin::Pin::into_inner_unchecked(that);\n        ");
        push_ffi_call(out, EntryPoint::MoveNew);
        out.append("this, that);\n    }\n}\n");
        assert(out@ =~= old(out)@ + move_new_text(info));
    } else {
        assert(out@ =~= old(out)@ + move_new_text(info));
    }
}

/// The `PartialEq` impl: `eq` forwards to the native equality, `ne` to the native inequality where there is one.
pub open spec fn partial_eq_text(info: &CxxAutoArtifactInfo) -> Seq<char> {
    if info.is_rust_partial_eq {
        "impl"@
        + info.spec_binder()
        + " ::core::cmp::PartialEq for "@
        + info.spec_type()
        + " {\n"@
        + compare_method_text("eq"@, EntryPoint::OperatorEqual)
        + optional_compare_method_text(info.cxx_has_operator_not_equal, "ne"@, EntryPoint::OperatorNotEqual)
        + "}\n"@
    } else {
        Seq::empty()
    }
}

fn emit_impl_partial_eq(info: &CxxAutoArtifactInfo, names: &Names, out: &mut String)
    requires
        names.wf(info),
    ensures
        final(out)@ == old(out)@ + partial_eq_text(info),
{
    if info.is_rust_partial_eq {
        out.append("impl");
        out.append(names.binder.as_str());
        out.append(" ::core::cmp::PartialEq for ");
        out.append(names.ty.as_str());
        out.append(" {\n");
        push_compare_method(out, "eq", EntryPoint::OperatorEqual);
        push_optional_compare_method(out, info.cxx_has_operator_not_equal, "ne", EntryPoint::OperatorNotEqual);
        out.append("}\n");
        assert(out@ =~= old(out)@ + partial_eq_text(info));
    } else {
        assert(out@ =~= old(out)@ + partial_eq_text(info));
    }
}

/// The `Eq` marker impl, when equality is an equivalence.
pub open spec fn eq_text(info: &CxxAutoArtifactInfo) -> Seq<char> {
    if info.is_rust_eq {
        "impl"@
        + info.spec_binder()
        + " ::core::cmp::Eq for "@
        + info.spec_type()
        + " {}\n"@
    } else {
        Seq::empty()
    }
}

fn emit_impl_eq(info: &CxxAutoArtifactInfo, names: &Names, out: &mut String)
    requires
        names.wf(info),
    ensures
        final(out)@ == old(out)@ + eq_text(info),
{
    if info.is_rust_eq {
        out.append("impl");
        out.append(names.binder.as_str());
        out.append(" ::core::cmp::Eq for ");
        out.append(names.ty.as_str());
        out.append(" {}\n");
        assert(out@ =~= old(out)@ + eq_text(info));
    } else {
        assert(out@ =~= old(out)@ + eq_text(info));
    }
}

/// The `PartialOrd` impl: `partial_cmp` reads the native three-way comparison (through `cmp` for a total order), and each relational operator that the type has natively is forwarded.
pub open spec fn partial_ord_text(info: &CxxAutoArtifactInfo) -> Seq<char> {
    if info.is_rust_partial_ord {
        "impl"@
        + info.spec_binder()
        + " ::core::cmp::PartialOrd for "@
        + info.spec_type()
        + " {\n"@
        + partial_cmp_text(info.is_rust_ord)
        + relational_methods_text(info)
        + "}\n"@
    } else {
        Seq::empty()
    }
}

fn emit_impl_partial_ord(info: &CxxAutoArtifactInfo, names: &Names, out: &mut String)
    requires
        names.wf(info),
    ensures
        final(out)@ == old(out)@ + partial_ord_text(info),
{
    if info.is_rust_partial_ord {
        out.append("impl");
        out.append(names.binder.as_str());
        out.append(" ::core::cmp::PartialOrd for ");
        out.append(names.ty.as_str());
        out.append(" {\n");
        push_partial_cmp(out, info.is_rust_ord);
        push_relational_methods(out, info);
        out.append("}\n");
        assert(out@ =~= old(out)@ + partial_ord_text(info));
    } else {
        assert(out@ =~= old(out)@ + partial_ord_text(info));
    }
}

/// The `Ord` impl: `cmp` reads the sign of the native three-way comparison.
pub open spec fn ord_text(info: &CxxAutoArtifactInfo) -> Seq<char> {
    if info.is_rust_ord {
        "impl"@
        + info.spec_binder()
        + " ::core::cmp::Ord for "@
        + info.spec_type()
        + " {\n"@
        + "    #[inline]\n    fn cmp(&self, other: &Self) -> ::core::cmp::Ordering {\n        ::cxx_auto::ordering_from_three_way("@
        + ffi_call(EntryPoint::ThreeWayComparison)
        + "self, other))\n    }\n}\n"@
    } else {
        Seq::empty()
    }
}

fn emit_impl_ord(info: &CxxAutoArtifactInfo, names: &Names, out: &mut String)
    requires
        names.wf(info),
    ensures
        final(out)@ == old(out)@ + ord_text(info),
{
    if info.is_rust_ord {
        out.append("impl");
        out.append(names.binder.as_str());
        out.append(" ::core::cmp::Ord for ");
        out.append(names.ty.as_str());
        out.append(" {\n");
        out.append("    #[inline]\n    fn cmp(&self, other: &Self) -> ::core::cmp::Ordering {\n        ::cxx_auto::ordering_from_three_way(");
        push_ffi_call(out, EntryPoint::ThreeWayComparison);
        out.append("self, other))\n    }\n}\n");
        assert(out@ =~= old(out)@ + ord_text(info));
    } else {
        assert(out@ =~= old(out)@ + ord_text(info));
    }
}

/// The `Hash` impl, feeding the native hash to the hasher.
pub open spec fn hash_text(info: &CxxAutoArtifactInfo) -> Seq<char> {
    if info.is_rust_hash {
        "impl"@
        + info.spec_binder()
        + " ::core::hash::Hash for "@
        + info.spec_type()
        + " {\n"@
        + "    #[inline]\n    fn hash<H>(&self, state: &mut H)\n    where\n        H: ::core::hash::Hasher,\n    {\n        let hash = "@
        + ffi_call(EntryPoint::Hash)
        + "self);\n        state.write_usize(hash);\n    }\n}\n"@
    } else {
        Seq::empty()
    }
}

fn emit_impl_hash(info: &CxxAutoArtifactInfo, names: &Names, out: &mut String)
    requires
        names.wf(info),
    ensures
        final(out)@ == old(out)@ + hash_text(info),
{
    if info.is_rust_hash {
        out.append("impl");
        out.append(names.binder.as_str());
        out.append(" ::core::hash::Hash for ");
        out.append(names.ty.as_str());
        out.append(" {\n");
        out.append("    #[inline]\n    fn hash<H>(&self, state: &mut H)\n    where\n        H: ::core::hash::Hasher,\n    {\n        let hash = ");
        push_ffi_call(out, EntryPoint::Hash);
        out.append("self);\n        state.write_usize(hash);\n    }\n}\n");
        assert(out@ =~= old(out)@ + hash_text(info));
    } else {
        assert(out@ =~= old(out)@ + hash_text(info));
    }
}

/// The `Debug` impl: the native debug string where there is one, else the wrapper's name alone.
pub open spec fn debug_text(info: &CxxAutoArtifactInfo) -> Seq<char> {
    if info.is_rust_debug {
        "impl"@
        + info.spec_binder()
        + " ::core::fmt::Debug for "@
        + info.spec_type()
        + " {\n"@
        + "    fn fmt(&self, f: &mut ::core::fmt::Formatter<\'_>) -> ::core::fmt::Result {\n        let string = "@
        + ffi_call(EntryPoint::Debug)
        + "self);\n        write!(f, \"{string}\")\n    }\n}\n"@
    } else {
        "impl"@
        + info.spec_binder()
        + " ::core::fmt::Debug for "@
        + info.spec_type()
        + " {\n"@
        + "    fn fmt(&self, f: &mut ::core::fmt::Formatter<\'_>) -> ::core::fmt::Result {\n        f.debug_struct("@
        + str_literal_of(info.rust_name@)
        + ").finish()\n    }\n}\n"@
    }
}

fn emit_impl_debug(info: &CxxAutoArtifactInfo, names: &Names, out: &mut String)
    requires
        names.wf(info),
    ensures
        final(out)@ == old(out)@ + debug_text(info),
{
    if info.is_rust_debug {
        out.append("impl");
        out.append(names.binder.as_str());
        out.append(" ::core::fmt::Debug for ");
        out.append(names.ty.as_str());
        out.append(" {\n");
        out.append("    fn fmt(&self, f: &mut ::core::fmt::Formatter<\'_>) -> ::core::fmt::Result {\n        let string = ");
        push_ffi_call(out, EntryPoint::Debug);
        out.append("self);\n        write!(f, \"{string}\")\n    }\n}\n");
        assert(out@ =~= old(out)@ + debug_text(info));
    } else {
        out.append("impl");
        out.append(names.binder.as_str());
        out.append(" ::core::fmt::Debug for ");
        out.append(names.ty.as_str());
        out.append(" {\n");
        out.append("    fn fmt(&self, f: &mut ::core::fmt::Formatter<\'_>) -> ::core::fmt::Result {\n        f.debug_struct(");
        out.append(names.name_literal.as_str());
        out.append(").finish()\n    }\n}\n");
        assert(out@ =~= old(out)@ + debug_text(info));
    }
}

/// The `Display` impl, forwarding to the native display string.
pub open spec fn display_text(info: &CxxAutoArtifactInfo) -> Seq<char> {
    if info.is_rust_display {
        "impl"@
        + info.spec_binder()
        + " ::core::fmt::Display for "@
        + info.spec_type()
        + " {\n"@
        + "    fn fmt(&self, f: &mut ::core::fmt::Formatter<\'_>) -> ::core::fmt::Result {\n        let string = "@
        + ffi_call(EntryPoint::Display)
        + "self);\n        write!(f, \"{string}\")\n    }\n}\n"@
    } else {
        Seq::empty()
    }
}

fn emit_impl_display(info: &CxxAutoArtifactInfo, names: &Names, out: &mut String)
    requires
        names.wf(info),
    ensures
        final(out)@ == old(out)@ + display_text(info),
{
    if info.is_rust_display {
        out.append("impl");
        out.append(names.binder.as_str());
        out.append(" ::core::fmt::Display for ");
        out.append(names.ty.as_str());
        out.append(" {\n");
        out.append("    fn fmt(&self, f: &mut ::core::fmt::Formatter<\'_>) -> ::core::fmt::Result {\n        let string = ");
        push_ffi_call(out, EntryPoint::Display);
        out.append("self);\n        write!(f, \"{string}\")\n    }\n}\n");
        assert(out@ =~= old(out)@ + display_text(info));
    } else {
        assert(out@ =~= old(out)@ + display_text(info));
    }
}

/// The bridge module: the foreign type and one declaration per entry point of `entry_points`.
pub open spec fn bridge_text(info: &CxxAutoArtifactInfo) -> Seq<char> {
    "#[cxx::bridge]\npub(crate) mod ffi {\n    #![allow(clippy::needless_lifetimes)]\n    #[namespace = "@
    + str_literal_of(info.cxx_namespace@)
    + "]\n    unsafe extern \"C++\" {\n        include!("@
    + str_literal_of(info.cxx_include@)
    + ");\n\n        #[cxx_name = "@
    + str_literal_of(info.cxx_name@)
    + "]\n        #[allow(unused)]\n        type "@
    + info.spec_type()
    + " = super::"@
    + info.spec_type()
    + ";\n"@
    + declarations_text(info)
    + "    }\n}\n"@
}

fn emit_item_mod_cxx_bridge(info: &CxxAutoArtifactInfo, names: &Names, out: &mut String)
    requires
        names.wf(info),
    ensures
        final(out)@ == old(out)@ + bridge_text(info),
{
    out.append("#[cxx::bridge]\npub(crate) mod ffi {\n    #![allow(clippy::needless_lifetimes)]\n    #[namespace = ");
    out.append(names.namespace_literal.as_str());
    out.append("]\n    unsafe extern \"C++\" {\n        include!(");
    out.append(names.include_literal.as_str());
    out.append(");\n\n        #[cxx_name = ");
    out.append(names.cxx_name_literal.as_str());
    out.append("]\n        #[allow(unused)]\n        type ");
    out.append(names.ty.as_str());
    out.append(" = super::");
    out.append(names.ty.as_str());
    out.append(";\n");
    push_declarations(out, info, names);
    out.append("    }\n}\n");
    assert(out@ =~= old(out)@ + bridge_text(info));
}

/// The self-checks: the size and alignment of the wrapper are the declared ones, and it is `Copy` and `Unpin` where that is claimed.
pub open spec fn info_test_text(info: &CxxAutoArtifactInfo) -> Seq<char> {
    "#[cfg(test)]\nmod info {\n    use super::*;\n    mod test {\n        use super::*;\n"@
    + abi_test_text(info, "align"@, info.align)
    + abi_test_text(info, "size"@, info.size)
    + static_assert_text(info, info.is_rust_copy, "Copy"@)
    + static_assert_text(info, info.is_rust_unpin, "Unpin"@)
    + "    }\n}\n"@
}

fn emit_info_test_module(info: &CxxAutoArtifactInfo, names: &Names, out: &mut String)
    requires
        names.wf(info),
    ensures
        final(out)@ == old(out)@ + info_test_text(info),
{
    out.append("#[cfg(test)]\nmod info {\n    use super::*;\n    mod test {\n        use super::*;\n");
    push_abi_test(out, info, names, "align", info.align);
    push_abi_test(out, info, names, "size", info.size);
    push_static_assert(out, info, names, info.is_rust_copy, "Copy");
    push_static_assert(out, info, names, info.is_rust_unpin, "Unpin");
    out.append("    }\n}\n");
    assert(out@ =~= old(out)@ + info_test_text(info));
}

/// Whether the wrapper declares the entry point: its capability flag is set.
/// A relational operator's flag is that the type has the operator natively;
/// not-equal is declared with equality, where the type has it.
pub open spec fn declares(info: &CxxAutoArtifactInfo, ep: EntryPoint) -> bool {
    match ep {
        EntryPoint::CopyNew => info.is_rust_copy_new,
        EntryPoint::MoveNew => info.is_rust_move_new,
        EntryPoint::DefaultNew => info.is_rust_default,
        EntryPoint::Destruct => info.is_rust_drop,
        EntryPoint::OperatorEqual => info.is_rust_partial_eq,
        EntryPoint::OperatorNotEqual => info.is_rust_partial_eq && info.cxx_has_operator_not_equal,
        EntryPoint::OperatorLessThan => info.cxx_has_operator_less_than,
        EntryPoint::OperatorLessThanOrEqual => info.cxx_has_operator_less_than_or_equal,
        EntryPoint::OperatorGreaterThan => info.cxx_has_operator_greater_than,
        EntryPoint::OperatorGreaterThanOrEqual => info.cxx_has_operator_greater_than_or_equal,
        EntryPoint::ThreeWayComparison => info.is_rust_partial_ord,
        EntryPoint::Hash => info.is_rust_hash,
        EntryPoint::Debug => info.is_rust_debug,
        EntryPoint::Display => info.is_rust_display,
    }
}

/// Whether a forwarding body of the wrapper calls the entry point: the impl
/// that would make the call is emitted, and, inside it, the method that makes
/// it. `lemma_calls_in_text` proves that each such call occurs in the text.
pub open spec fn calls(info: &CxxAutoArtifactInfo, ep: EntryPoint) -> bool {
    match ep {
        EntryPoint::CopyNew => copy_new_text(info).len() > 0,
        EntryPoint::MoveNew => move_new_text(info).len() > 0,
        EntryPoint::DefaultNew => default_text(info).len() > 0,
        EntryPoint::Destruct => drop_text(info).len() > 0,
        EntryPoint::OperatorEqual => partial_eq_text(info).len() > 0,
        EntryPoint::OperatorNotEqual => partial_eq_text(info).len() > 0 && info.cxx_has_operator_not_equal,
        EntryPoint::OperatorLessThan => partial_ord_text(info).len() > 0 && info.cxx_has_operator_less_than,
        EntryPoint::OperatorLessThanOrEqual => partial_ord_text(info).len() > 0
            && info.cxx_has_operator_less_than_or_equal,
        EntryPoint::OperatorGreaterThan => partial_ord_text(info).len() > 0
            && info.cxx_has_operator_greater_than,
        EntryPoint::OperatorGreaterThanOrEqual => partial_ord_text(info).len() > 0
            && info.cxx_has_operator_greater_than_or_equal,
        EntryPoint::ThreeWayComparison => ord_text(info).len() > 0 || (partial_ord_text(info).len() > 0
            && !info.is_rust_ord),
        EntryPoint::Hash => hash_text(info).len() > 0,
        EntryPoint::Debug => info.is_rust_debug,
        EntryPoint::Display => display_text(info).len() > 0,
    }
}

fn declares_exec(info: &CxxAutoArtifactInfo, ep: EntryPoint) -> (r: bool)
    ensures
        r == declares(info, ep),
{
    match ep {
        EntryPoint::CopyNew => info.is_rust_copy_new,
        EntryPoint::MoveNew => info.is_rust_move_new,
        EntryPoint::DefaultNew => info.is_rust_default,
        EntryPoint::Destruct => info.is_rust_drop,
        EntryPoint::OperatorEqual => info.is_rust_partial_eq,
        EntryPoint::OperatorNotEqual => info.is_rust_partial_eq && info.cxx_has_operator_not_equal,
        EntryPoint::OperatorLessThan => info.cxx_has_operator_less_than,
        EntryPoint::OperatorLessThanOrEqual => info.cxx_has_operator_less_than_or_equal,
        EntryPoint::OperatorGreaterThan => info.cxx_has_operator_greater_than,
        EntryPoint::OperatorGreaterThanOrEqual => info.cxx_has_operator_greater_than_or_equal,
        EntryPoint::ThreeWayComparison => info.is_rust_partial_ord,
        EntryPoint::Hash => info.is_rust_hash,
        EntryPoint::Debug => info.is_rust_debug,
        EntryPoint::Display => info.is_rust_display,
    }
}

/// The entry points of `s` that the wrapper declares, in the order of `s`.
pub open spec fn declared_among(info: &CxxAutoArtifactInfo, s: Seq<EntryPoint>) -> Seq<EntryPoint>
    decreases s.len(),
{
    if s.len() == 0 {
        Seq::empty()
    } else {
        let rest = declared_among(info, s.drop_last());
        if declares(info, s.last()) {
            rest.push(s.last())
        } else {
            rest
        }
    }
}

/// The entry points the wrapper declares, in table order.
pub open spec fn entry_points(info: &CxxAutoArtifactInfo) -> Seq<EntryPoint> {
    declared_among(info, all_entry_points())
}

proof fn lemma_declared_among_step(info: &CxxAutoArtifactInfo, s: Seq<EntryPoint>, i: int)
    requires
        0 <= i < s.len(),
    ensures
        declared_among(info, s.subrange(0, i + 1)) == if declares(info, s[i]) {
            declared_among(info, s.subrange(0, i)).push(s[i])
        } else {
            declared_among(info, s.subrange(0, i))
        },
{
    assert(s.subrange(0, i + 1).drop_last() =~= s.subrange(0, i));
}

proof fn lemma_push_contains<A>(s: Seq<A>, x: A, e: A)
    ensures
        s.push(x).contains(e) <==> s.contains(e) || x == e,
{
    if s.push(x).contains(e) {
        let k = choose|k: int| 0 <= k < s.push(x).len() && s.push(x)[k] == e;
        if k < s.len() {
            assert(s[k] == e);
        }
    }
    if s.contains(e) {
        let k = choose|k: int| 0 <= k < s.len() && s[k] == e;
        assert(s.push(x)[k] == e);
    }
    if x == e {
        assert(s.push(x)[s.len() as int] == e);
    }
}

proof fn lemma_declared_among_contains(info: &CxxAutoArtifactInfo, s: Seq<EntryPoint>, ep: EntryPoint)
    ensures
        declared_among(info, s).contains(ep) <==> s.contains(ep) && declares(info, ep),
    decreases s.len(),
{
    if s.len() > 0 {
        let d = s.drop_last();
        lemma_declared_among_contains(info, d, ep);
        assert(s =~= d.push(s.last()));
        lemma_push_contains(d, s.last(), ep);
        lemma_push_contains(declared_among(info, d), s.last(), ep);
    }
}

proof fn lemma_declared_among_unique(info: &CxxAutoArtifactInfo, s: Seq<EntryPoint>)
    requires
        s.no_duplicates(),
    ensures
        declared_among(info, s).no_duplicates(),
    decreases s.len(),
{
    if s.len() > 0 {
        let d = s.drop_last();
        assert(d.no_duplicates());
        lemma_declared_among_unique(info, d);
        lemma_declared_among_contains(info, d, s.last());
        assert(!d.contains(s.last()));
    }
}

/// The declarations of the bridge module are exactly the asserted entry points:
/// each entry point is declared if and only if its capability flag is set, and
/// none twice. On a record that can be realized, every entry point that a
/// forwarding body calls is declared, and every declared entry point other than
/// a relational operator is called.
pub proof fn lemma_declarations_exact(info: &CxxAutoArtifactInfo, ep: EntryPoint)
    ensures
        entry_points(info).contains(ep) <==> declares(info, ep),
        entry_points(info).no_duplicates(),
        info.is_valid() && calls(info, ep) ==> entry_points(info).contains(ep),
        info.is_valid() && entry_points(info).contains(ep) && !ep.is_relational() ==> calls(info, ep),
{
    lemma_table_complete(ep);
    lemma_declared_among_contains(info, all_entry_points(), ep);
    let t = all_entry_points();
    assert forall|i: int, j: int| 0 <= i < t.len() && 0 <= j < t.len() && i != j implies t[i] != t[j] by {}
    lemma_declared_among_unique(info, t);
    reveal_strlit("impl");
}

impl CxxAutoArtifactInfo {
    /// The entry points that the wrapper's bridge module declares, in order.
    pub fn entry_points(&self) -> (r: Vec<EntryPoint>)
        ensures
            r@ == entry_points(self),
    {
        let t = entry_point_table();
        let mut r: Vec<EntryPoint> = Vec::new();
        for i in 0..t.len()
            invariant
                t@ == all_entry_points(),
                r@ == declared_among(self, t@.subrange(0, i as int)),
        {
            proof {
                lemma_declared_among_step(self, t@, i as int);
            }
            if declares_exec(self, t[i]) {
                r.push(t[i]);
            }
        }
        assert(t@.subrange(0, t@.len() as int) =~= t@);
        r
    }
}

/// The declaration of an entry point, for the generics and the wrapper type.
pub open spec fn declaration_item(g: Seq<char>, t: Seq<char>) -> spec_fn(EntryPoint) -> Seq<char> {
    |ep: EntryPoint| ep.spec_declaration(g, t)
}

/// The declarations of the bridge module, one per declared entry point.
pub open spec fn declarations_text(info: &CxxAutoArtifactInfo) -> Seq<char> {
    joined(entry_points(info), declaration_item(info.spec_generics(), info.spec_type()))
}

fn push_declarations(out: &mut String, info: &CxxAutoArtifactInfo, names: &Names)
    requires
        names.wf(info),
    ensures
        final(out)@ == old(out)@ + declarations_text(info),
{
    let eps = info.entry_points();
    let ghost f = declaration_item(info.spec_generics(), info.spec_type());
    let ghost start = out@;
    for i in 0..eps.len()
        invariant
            names.wf(info),
            eps@ == entry_points(info),
            f == declaration_item(info.spec_generics(), info.spec_type()),
            out@ == start + joined(eps@.subrange(0, i as int), f),
    {
        proof {
            lemma_joined_step(eps@, f, i as int);
        }
        let ghost o = out@;
        eps[i].push_declaration(out, names.generics.as_str(), names.ty.as_str());
        assert(out@ =~= start + joined(eps@.subrange(0, i as int + 1), f));
    }
    assert(eps@.subrange(0, eps@.len() as int) =~= eps@);
}

/// A field of the wrapper struct: the storage, or a zero-sized marker.
#[derive(Clone, Copy, Debug, PartialEq, Eq, Structural)]
pub enum StructField {
    /// Opaque storage of the declared size.
    Layout { size: usize },
    /// Keeps the wrapper from being sent or shared across threads.
    NeitherSendNorSync,
    /// Keeps the wrapper from being moved out of its place.
    Pinned,
    /// Carries the lifetime parameters.
    Lifetimes,
}

/// The fields of the wrapper struct: the storage first, then the markers that
/// the record calls for.
pub open spec fn struct_fields(info: &CxxAutoArtifactInfo) -> Seq<StructField> {
    seq![StructField::Layout { size: info.size }] + (if !info.is_rust_send && !info.is_rust_sync {
        seq![StructField::NeitherSendNorSync]
    } else {
        Seq::empty()
    }) + (if info.is_rust_unpin {
        Seq::empty()
    } else {
        seq![StructField::Pinned]
    }) + (if info.spec_lifetimes().len() > 0 {
        seq![StructField::Lifetimes]
    } else {
        Seq::empty()
    })
}

/// A field's line in the struct; `refs` are the borrows that carry the lifetimes.
pub open spec fn field_item(refs: Seq<char>) -> spec_fn(StructField) -> Seq<char> {
    |f: StructField|
        match f {
            StructField::Layout { size } => "    _layout: [u8; "@ + decimal(size as nat) + "],\n"@,
            StructField::NeitherSendNorSync => "    _neither_send_nor_sync: ::core::marker::PhantomData<[*const u8; 0]>,\n"@,
            StructField::Pinned => "    _pinned: ::core::marker::PhantomPinned,\n"@,
            StructField::Lifetimes => "    _lifetimes: ::core::marker::PhantomData<("@ + refs + ")>,\n"@,
        }
}

/// The derive attribute of a `Copy` wrapper.
pub open spec fn derive_text(copy: bool) -> Seq<char> {
    if copy {
        "#[derive(Clone, Copy)]\n"@
    } else {
        Seq::empty()
    }
}

/// The representation of the wrapper struct: C layout, aligned to `align` bytes.
pub open spec fn repr_text(align: nat) -> Seq<char> {
    "#[repr(C, align("@ + decimal(align) + "))]\n"@
}

/// The wrapper struct: its storage of the declared size, aligned as declared,
/// and its marker fields.
pub open spec fn struct_text(info: &CxxAutoArtifactInfo) -> Seq<char> {
    derive_text(info.is_rust_copy) + repr_text(info.align as nat) + "pub struct "@
        + info.rust_name@ + info.spec_binder() + " {\n"@
        + joined(struct_fields(info), field_item(joined(info.spec_lifetimes(), ref_item()))) + "}\n"@
}

impl CxxAutoArtifactInfo {
    /// The fields of the wrapper struct.
    pub fn struct_fields(&self) -> (r: Vec<StructField>)
        ensures
            r@ == struct_fields(self),
    {
        let mut r: Vec<StructField> = vec![StructField::Layout { size: self.size }];
        if !self.is_rust_send && !self.is_rust_sync {
            r.push(StructField::NeitherSendNorSync);
        }
        if !self.is_rust_unpin {
            r.push(StructField::Pinned);
        }
        if lifetime_count(&self.lifetimes) > 0 {
            r.push(StructField::Lifetimes);
        }
        assert(r@ =~= struct_fields(self));
        r
    }
}

/// The wrapper's storage is one field of exactly the declared size, first in a
/// struct aligned as declared; every other field is a zero-sized marker.
pub proof fn lemma_layout_fidelity(info: &CxxAutoArtifactInfo)
    ensures
        struct_fields(info)[0] == (StructField::Layout { size: info.size }),
        forall|i: int| 1 <= i < struct_fields(info).len() ==> !(#[trigger] struct_fields(info)[i] is Layout),
        struct_text(info) == derive_text(info.is_rust_copy) + repr_text(info.align as nat) + "pub struct "@
            + info.rust_name@ + info.spec_binder() + " {\n"@
            + joined(struct_fields(info), field_item(joined(info.spec_lifetimes(), ref_item()))) + "}\n"@,
{
}

fn push_field(out: &mut String, f: StructField, refs: &str)
    ensures
        final(out)@ == old(out)@ + (field_item(refs@))(f),
{
    match f {
        StructField::Layout { size } => {
            out.append("    _layout: [u8; ");
            push_decimal(out, size);
            out.append("],\n");
        },
        StructField::NeitherSendNorSync => {
            out.append("    _neither_send_nor_sync: ::core::marker::PhantomData<[*const u8; 0]>,\n");
        },
        StructField::Pinned => {
            out.append("    _pinned: ::core::marker::PhantomPinned,\n");
        },
        StructField::Lifetimes => {
            out.append("    _lifetimes: ::core::marker::PhantomData<(");
            out.append(refs);
            out.append(")>,\n");
        },
    }
    assert(out@ =~= old(out)@ + (field_item(refs@))(f));
}

fn emit_struct(info: &CxxAutoArtifactInfo, names: &Names, out: &mut String)
    requires
        names.wf(info),
    ensures
        final(out)@ == old(out)@ + struct_text(info),
{
    let ghost start = out@;
    if info.is_rust_copy {
        out.append("#[derive(Clone, Copy)]\n");
    }
    out.append("#[repr(C, align(");
    push_decimal(out, info.align);
    out.append("))]\n");
    out.append("pub struct ");
    out.append(info.rust_name.as_str());
    out.append(names.binder.as_str());
    out.append(" {\n");
    let ghost before = out@;
    let fields = info.struct_fields();
    let ghost f = field_item(joined(info.spec_lifetimes(), ref_item()));
    for i in 0..fields.len()
        invariant
            names.wf(info),
            fields@ == struct_fields(info),
            f == field_item(joined(info.spec_lifetimes(), ref_item())),
            out@ == before + joined(fields@.subrange(0, i as int), f),
    {
        proof {
            lemma_joined_step(fields@, f, i as int);
        }
        push_field(out, fields[i], names.refs.as_str());
        assert(out@ =~= before + joined(fields@.subrange(0, i as int + 1), f));
    }
    assert(fields@.subrange(0, fields@.len() as int) =~= fields@);
    out.append("}\n");
    assert(out@ =~= start + struct_text(info));
}

/// A child module of a directory node, at `dir/<name>.rs`, with the visibility `vis`.
pub open spec fn mod_item(dir: Seq<char>, vis: Seq<char>) -> spec_fn(Seq<char>) -> Seq<char> {
    |d: Seq<char>| "#[path = "@ + str_literal_of(dir + "/"@ + d + ".rs"@) + "]\n"@ + vis + "mod "@ + d + ";\n"@
}

/// The child modules of the node at `dir`.
pub open spec fn mods_text(dir: Seq<char>, vis: Seq<char>, descendants: Seq<Seq<char>>) -> Seq<char> {
    joined(descendants, mod_item(dir, vis))
}

/// Appends the child modules of the node at `dir`.
pub fn push_child_mods(out: &mut String, dir: &str, vis: &str, descendants: &Vec<String>)
    ensures
        final(out)@ == old(out)@ + mods_text(dir@, vis@, descendants.deep_view()),
{
    let ghost start = out@;
    let ghost ds = descendants.deep_view();
    let ghost f = mod_item(dir@, vis@);
    for i in 0..descendants.len()
        invariant
            ds == descendants.deep_view(),
            f == mod_item(dir@, vis@),
            out@ == start + joined(ds.subrange(0, i as int), f),
    {
        proof {
            lemma_joined_step(ds, f, i as int);
        }
        assert(ds[i as int] == descendants@[i as int]@);
        let mut path = String::new();
        path.append(dir);
        path.append("/");
        path.append(descendants[i].as_str());
        path.append(".rs");
        let lit = string_literal(path.as_str());
        assert(path@ =~= dir@ + "/"@ + ds[i as int] + ".rs"@);
        out.append("#[path = ");
        out.append(lit.as_str());
        out.append("]\n");
        out.append(vis);
        out.append("mod ");
        out.append(descendants[i].as_str());
        out.append(";\n");
        assert(out@ =~= start + joined(ds.subrange(0, i as int + 1), f));
    }
    assert(ds.subrange(0, ds.len() as int) =~= ds);
}

/// The wrapper module of the record, whose child modules live under `dir`.
pub open spec fn file_text(info: &CxxAutoArtifactInfo, dir: Seq<char>) -> Seq<char> {
    mods_text(dir, "pub(crate) "@, info.path_descendants.deep_view()) + struct_text(info) + extern_type_text(info)
        + drop_text(info) + default_text(info) + copy_new_text(info) + move_new_text(info)
        + partial_eq_text(info) + eq_text(info) + partial_ord_text(info) + ord_text(info)
        + hash_text(info) + debug_text(info) + display_text(info) + bridge_text(info)
        + info_test_text(info)
}

impl CxxAutoArtifactInfo {
    /// The source of the wrapper module, whose child modules live under
    /// `auto_out_dir`; an error where the record cannot be realized.
    pub fn emit_file(&self, auto_out_dir: &str) -> (r: Result<String, GenError>)
        ensures
            r is Ok <==> self.is_valid(),
            r matches Err(e) ==> self.spec_error() == Some(e),
            r matches Ok(t) ==> t@ == file_text(self, auto_out_dir@),
    {
        self.check()?;
        let names = names_of(self);
        let mut out = String::new();
        push_child_mods(&mut out, auto_out_dir, "pub(crate) ", &self.path_descendants);
        emit_struct(self, &names, &mut out);
        emit_impl_cxx_extern_type(self, &names, &mut out);
        emit_impl_drop(self, &names, &mut out);
        emit_impl_default(self, &names, &mut out);
        emit_impl_moveit_copy_new(self, &names, &mut out);
        emit_impl_moveit_move_new(self, &names, &mut out);
        emit_impl_partial_eq(self, &names, &mut out);
        emit_impl_eq(self, &names, &mut out);
        emit_impl_partial_ord(self, &names, &mut out);
        emit_impl_ord(self, &names, &mut out);
        emit_impl_hash(self, &names, &mut out);
        emit_impl_debug(self, &names, &mut out);
        emit_impl_display(self, &names, &mut out);
        emit_item_mod_cxx_bridge(self, &names, &mut out);
        emit_info_test_module(self, &names, &mut out);
        assert(out@ =~= file_text(self, auto_out_dir@));
        Ok(out)
    }
}

/// Every entry point that the `calls` table lists is called, through the
/// bridge module, somewhere in the wrapper's text.
pub proof fn lemma_calls_in_text(info: &CxxAutoArtifactInfo, dir: Seq<char>, ep: EntryPoint)
    requires
        calls(info, ep),
    ensures
        contains_text(file_text(info, dir), ffi_call(ep)),
{
    broadcast use lemma_contains_add;

    lemma_contains_self(ffi_call(ep));
    reveal_strlit("impl");
    match ep {
        EntryPoint::CopyNew => assert(contains_text(copy_new_text(info), ffi_call(ep))),
        EntryPoint::MoveNew => assert(contains_text(move_new_text(info), ffi_call(ep))),
        EntryPoint::DefaultNew => assert(contains_text(default_text(info), ffi_call(ep))),
        EntryPoint::Destruct => assert(contains_text(drop_text(info), ffi_call(ep))),
        EntryPoint::OperatorEqual | EntryPoint::OperatorNotEqual => {
            assert(contains_text(partial_eq_text(info), ffi_call(ep)));
        },
        EntryPoint::OperatorLessThan | EntryPoint::OperatorLessThanOrEqual
        | EntryPoint::OperatorGreaterThan | EntryPoint::OperatorGreaterThanOrEqual => {
            assert(contains_text(relational_methods_text(info), ffi_call(ep)));
            assert(contains_text(partial_ord_text(info), ffi_call(ep)));
        },
        EntryPoint::ThreeWayComparison => {
            if info.is_rust_ord {
                assert(contains_text(ord_text(info), ffi_call(ep)));
            } else {
                assert(contains_text(partial_cmp_text(false), ffi_call(ep)));
                assert(contains_text(partial_ord_text(info), ffi_call(ep)));
            }
        },
        EntryPoint::Hash => assert(contains_text(hash_text(info), ffi_call(ep))),
        EntryPoint::Debug => assert(contains_text(debug_text(info), ffi_call(ep))),
        EntryPoint::Display => assert(contains_text(display_text(info), ffi_call(ep))),
    }
}

/// The wrapper's text holds the storage field of the declared size, and gives
/// the struct the declared alignment.
pub proof fn lemma_file_lays_out(info: &CxxAutoArtifactInfo, dir: Seq<char>)
    ensures
        contains_text(file_text(info, dir), "    _layout: [u8; "@ + decimal(info.size as nat) + "],\n"@),
        contains_text(file_text(info, dir), repr_text(info.align as nat)),
{
    let layout = "    _layout: [u8; "@ + decimal(info.size as nat) + "],\n"@;
    let repr = repr_text(info.align as nat);
    let refs = joined(info.spec_lifetimes(), ref_item());
    lemma_joined_contains(struct_fields(info), field_item(refs), 0);
    lemma_contains_self(repr);
    assert(contains_text(struct_text(info), layout)) by {
        broadcast use lemma_contains_add;

    }
    assert(contains_text(struct_text(info), repr)) by {
        broadcast use lemma_contains_add;

    }
    lemma_file_contains_struct(info, dir, layout);
    lemma_file_contains_struct(info, dir, repr);
}

proof fn lemma_file_contains_struct(info: &CxxAutoArtifactInfo, dir: Seq<char>, p: Seq<char>)
    requires
        contains_text(struct_text(info), p),
    ensures
        contains_text(file_text(info, dir), p),
{
    let m = mods_text(dir, "pub(crate) "@, info.path_descendants.deep_view());
    lemma_contains_add(m, struct_text(info), p);
    let t1 = m + struct_text(info);
    lemma_contains_add(t1, extern_type_text(info), p);
    let t2 = t1 + extern_type_text(info);
    lemma_contains_add(t2, drop_text(info), p);
    let t3 = t2 + drop_text(info);
    lemma_contains_add(t3, default_text(info), p);
    let t4 = t3 + default_text(info);
    lemma_contains_add(t4, copy_new_text(info), p);
    let t5 = t4 + copy_new_text(info);
    lemma_contains_add(t5, move_new_text(info), p);
    let t6 = t5 + move_new_text(info);
    lemma_contains_add(t6, partial_eq_text(info), p);
    let t7 = t6 + partial_eq_text(info);
    lemma_contains_add(t7, eq_text(info), p);
    let t8 = t7 + eq_text(info);
    lemma_contains_add(t8, partial_ord_text(info), p);
    let t9 = t8 + partial_ord_text(info);
    lemma_contains_add(t9, ord_text(info), p);
    let t10 = t9 + ord_text(info);
    lemma_contains_add(t10, hash_text(info), p);
    let t11 = t10 + hash_text(info);
    lemma_contains_add(t11, debug_text(info), p);
    let t12 = t11 + debug_text(info);
    lemma_contains_add(t12, display_text(info), p);
    let t13 = t12 + display_text(info);
    lemma_contains_add(t13, bridge_text(info), p);
    let t14 = t13 + bridge_text(info);
    lemma_contains_add(t14, info_test_text(info), p);
}

/// The wrapper's text declares, in its bridge module, each entry point whose
/// capability flag is set.
pub proof fn lemma_file_declares(info: &CxxAutoArtifactInfo, dir: Seq<char>, ep: EntryPoint)
    requires
        declares(info, ep),
    ensures
        contains_text(file_text(info, dir), ep.spec_declaration(info.spec_generics(), info.spec_type())),
{
    let d = ep.spec_declaration(info.spec_generics(), info.spec_type());
    lemma_declarations_exact(info, ep);
    let eps = entry_points(info);
    let k = choose|k: int| 0 <= k < eps.len() && eps[k] == ep;
    lemma_joined_contains(eps, declaration_item(info.spec_generics(), info.spec_type()), k);
    assert(contains_text(bridge_text(info), d)) by {
        broadcast use lemma_contains_add;

    }
    let front = mods_text(dir, "pub(crate) "@, info.path_descendants.deep_view()) + struct_text(info)
        + extern_type_text(info) + drop_text(info) + default_text(info) + copy_new_text(info)
        + move_new_text(info) + partial_eq_text(info) + eq_text(info) + partial_ord_text(info) + ord_text(info)
        + hash_text(info) + debug_text(info) + display_text(info);
    lemma_contains_add(front, bridge_text(info), d);
    lemma_contains_add(front + bridge_text(info), info_test_text(info), d);
}

impl CxxAutoArtifactInfo {
    /// The source of a directory node's module: its child modules, which live
    /// under `auto_out_dir`; an error where a child's name is no identifier.
    pub fn emit_dir_file(auto_out_dir: &str, path_descendants: &Vec<String>) -> (r: Result<String, GenError>)
        ensures
            r is Ok <==> forall|i: int|
                0 <= i < path_descendants@.len() ==> #[trigger] is_name_text(path_descendants@[i]@),
            r matches Err(e) ==> e == GenError::InvalidIdentifier,
            r matches Ok(t) ==> t@ == mods_text(auto_out_dir@, "pub(crate) "@, path_descendants.deep_view()),
    {
        for i in 0..path_descendants.len()
            invariant
                forall|k: int| 0 <= k < i ==> #[trigger] is_name_text(path_descendants@[k]@),
        {
            if !is_name(path_descendants[i].as_str()) {
                return Err(GenError::InvalidIdentifier);
            }
        }
        let mut out = String::new();
        push_child_mods(&mut out, auto_out_dir, "pub(crate) ", path_descendants);
        Ok(out)
    }
}

/// The wrapper of a record is a function of the record alone: the same record,
/// and the same place for its children, give the same source.
pub proof fn lemma_wrapper_deterministic(a: &CxxAutoArtifactInfo, b: &CxxAutoArtifactInfo, dir: Seq<char>)
    requires
        a == b,
    ensures
        file_text(a, dir) == file_text(b, dir),
{
}

/// With an ordering asserted and no native relational operator, `partial_cmp`
/// and `cmp` read the native three-way comparison through the sign rule, and the
/// relational operators keep their defaults, which derive from `partial_cmp`.
pub proof fn lemma_ordering_fallback(info: &CxxAutoArtifactInfo)
    requires
        info.is_rust_partial_ord,
        !info.cxx_has_operator_less_than,
        !info.cxx_has_operator_less_than_or_equal,
        !info.cxx_has_operator_greater_than,
        !info.cxx_has_operator_greater_than_or_equal,
    ensures
        relational_methods_text(info) == Seq::<char>::empty(),
        partial_ord_text(info) == "impl"@ + info.spec_binder() + " ::core::cmp::PartialOrd for "@
            + info.spec_type() + " {\n"@ + partial_cmp_text(info.is_rust_ord) + "}\n"@,
        entry_points(info).contains(EntryPoint::ThreeWayComparison),
        !entry_points(info).contains(EntryPoint::OperatorLessThan),
        !entry_points(info).contains(EntryPoint::OperatorLessThanOrEqual),
        !entry_points(info).contains(EntryPoint::OperatorGreaterThan),
        !entry_points(info).contains(EntryPoint::OperatorGreaterThanOrEqual),
        forall|res: i8| #[trigger] sign_ordering(res as int) == if res < 0 {
            Ordering::Less
        } else if res == 0 {
            Ordering::Equal
        } else {
            Ordering::Greater
        },
{
    lemma_declarations_exact(info, EntryPoint::ThreeWayComparison);
    lemma_declarations_exact(info, EntryPoint::OperatorLessThan);
    lemma_declarations_exact(info, EntryPoint::OperatorLessThanOrEqual);
    lemma_declarations_exact(info, EntryPoint::OperatorGreaterThan);
    lemma_declarations_exact(info, EntryPoint::OperatorGreaterThanOrEqual);
    assert(relational_methods_text(info) =~= Seq::<char>::empty());
    assert(partial_ord_text(info) =~= "impl"@ + info.spec_binder() + " ::core::cmp::PartialOrd for "@
        + info.spec_type() + " {\n"@ + partial_cmp_text(info.is_rust_ord) + "}\n"@);
}

} // verus!
