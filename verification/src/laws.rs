//! Laws of the transformation, stated over the specification functions that
//! the executable contracts are pinned to and proved once and for all.

use vstd::prelude::*;

use crate::args::{ArgKindView, ArgsView, GenericParamView};
use crate::builder::{
    bounds_text, camel, render_cap_impl, render_seal_impl, seal_name, spec_expansion,
};
use crate::decl::{FnDeclView, FnSigView};

verus! {

/// Determinism: the output is a function of the target specification and the
/// function declaration alone, so repeated transformation of one fixed pair
/// yields identical text.
pub proof fn lemma_transform_deterministic(
    f: FnDeclView,
    args: ArgsView,
    r1: Seq<char>,
    r2: Seq<char>,
)
    requires
        r1 == crate::transform_text(f, args),
        r2 == crate::transform_text(f, args),
    ensures
        r1 == r2,
{
}

/// Sealing: the capability declaration's supertype bound and the one emitted
/// sealing-marker implementation name the same sealing module — the module
/// declared beside the capability declaration itself — and that module's name
/// starts with the reserved prefix in front of the capability name.
pub proof fn lemma_sealing(name: Seq<char>, f: FnDeclView, args: ArgsView)
    ensures
        ({
            let e = spec_expansion(camel(name), seal_name(name), f, args);
            &&& e.trait_def.seal == e.seal_impl.seal
            &&& e.trait_def.seal == seal_name(name)
            &&& seal_name(name).take(7) == "__seal_"@
            &&& seal_name(name).skip(7) == camel(name)
        }),
{
    reveal_strlit("__seal_");
    assert(seal_name(name).take(7) =~= "__seal_"@);
    assert(seal_name(name).skip(7) =~= camel(name));
}

/// Visibility lowering: only the capability declaration carries the original
/// visibility. The implementation texts are independent of it, so the
/// function's copy inside the implementation never carries a visibility
/// qualifier of its own: two declarations that differ only in visibility
/// produce identical implementation text.
pub proof fn lemma_visibility_lowering(
    name: Seq<char>,
    f1: FnDeclView,
    f2: FnDeclView,
    args: ArgsView,
)
    requires
        f2 == (FnDeclView { vis: f2.vis, ..f1 }),
    ensures
        ({
            let e1 = spec_expansion(camel(name), seal_name(name), f1, args);
            let e2 = spec_expansion(camel(name), seal_name(name), f2, args);
            &&& render_cap_impl(e1.cap_impl) == render_cap_impl(e2.cap_impl)
            &&& render_seal_impl(e1.seal_impl) == render_seal_impl(e2.seal_impl)
            &&& e1.trait_def.vis == f1.vis
            &&& e2.trait_def.vis == f2.vis
        }),
{
}

/// Asynchronous wrapping: the capability declaration and the implementation
/// block that carries the method body are wrapped exactly when the function
/// is declared asynchronous; the sealing-marker implementation's text is the
/// same whether or not the function is asynchronous.
pub proof fn lemma_async_wrapping(name: Seq<char>, f: FnDeclView, args: ArgsView)
    ensures
        ({
            let e = spec_expansion(camel(name), seal_name(name), f, args);
            let f_sync = FnDeclView { sig: FnSigView { is_async: false, ..f.sig }, ..f };
            let e_sync = spec_expansion(camel(name), seal_name(name), f_sync, args);
            &&& e.trait_def.async_wrapped == f.sig.is_async
            &&& e.cap_impl.async_wrapped == f.sig.is_async
            &&& render_seal_impl(e.seal_impl) == render_seal_impl(e_sync.seal_impl)
        }),
{
}

/// Attribute round trip: the capability's abstract method carries exactly the
/// original attribute sequence, in order; the implementation texts are
/// independent of the attributes, so they are duplicated nowhere else.
pub proof fn lemma_attrs_round_trip(
    name: Seq<char>,
    f1: FnDeclView,
    f2: FnDeclView,
    args: ArgsView,
)
    requires
        f2 == (FnDeclView { attrs: f2.attrs, ..f1 }),
    ensures
        ({
            let e1 = spec_expansion(camel(name), seal_name(name), f1, args);
            let e2 = spec_expansion(camel(name), seal_name(name), f2, args);
            &&& e1.trait_def.method_attrs == f1.attrs
            &&& render_cap_impl(e1.cap_impl) == render_cap_impl(e2.cap_impl)
            &&& render_seal_impl(e1.seal_impl) == render_seal_impl(e2.seal_impl)
        }),
{
}

/// Generic merge on a concrete-type target: every emitted item carries
/// exactly the explicit generic-parameter list — none added, none dropped.
pub proof fn lemma_generic_merge(name: Seq<char>, f: FnDeclView, args: ArgsView)
    ensures
        ({
            let e = spec_expansion(camel(name), seal_name(name), f, args);
            let explicit = match args.generics {
                Option::None => Seq::<GenericParamView>::empty(),
                Option::Some(ps) => ps,
            };
            args.kind is Type ==> {
                &&& e.cap_impl.generics == explicit
                &&& e.trait_def.generics == explicit
                &&& e.seal_impl.generics == explicit
            }
        }),
{
}

/// Blanket attachment on a capability-bound target: the emitted items carry
/// the explicit parameters followed by one implicit parameter `T`, bounded by
/// the conjunction of the parsed constraints, and both implementation blocks
/// attach to that parameter. With no explicit parameters the header holds
/// exactly the single fresh parameter.
pub proof fn lemma_blanket(name: Seq<char>, f: FnDeclView, args: ArgsView)
    ensures
        ({
            let e = spec_expansion(camel(name), seal_name(name), f, args);
            let explicit = match args.generics {
                Option::None => Seq::<GenericParamView>::empty(),
                Option::Some(ps) => ps,
            };
            args.kind matches ArgKindView::TraitBound { constraints } ==> {
                &&& e.cap_impl.generics == explicit.push(
                    GenericParamView { name: "T"@, bounds: bounds_text(constraints, false) },
                )
                &&& e.cap_impl.self_ty == "T"@
                &&& e.seal_impl.self_ty == "T"@
                &&& (args.generics is None ==> e.cap_impl.generics.len() == 1)
            }
        }),
{
}

/// The implicit blanket parameter is fresh: whenever the explicit parameter
/// names keep away from the implicit name — the stated well-formedness
/// condition on a target specification — the appended parameter's name
/// differs from every explicit parameter's name.
pub proof fn lemma_blanket_fresh(name: Seq<char>, f: FnDeclView, args: ArgsView)
    requires
        (match args.generics {
            Option::None => true,
            Option::Some(ps) => forall|k: int|
                0 <= k < ps.len() ==> (#[trigger] ps[k].name) != "T"@,
        }),
    ensures
        ({
            let e = spec_expansion(camel(name), seal_name(name), f, args);
            args.kind is TraitBound ==> forall|k: int|
                0 <= k < e.cap_impl.generics.len() - 1 ==> (#[trigger] e.cap_impl.generics[k].name)
                    != e.cap_impl.generics.last().name
        }),
{
}

} // verus!
