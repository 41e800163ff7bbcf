//! The synthesizer: derives the capability and sealing identifiers from the
//! function's name, and emits the capability declaration, the capability
//! implementation for the target, and the sealing-marker implementation.

use vstd::prelude::*;

use crate::args::{ArgKind, ArgKindView, Args, ArgsView, GenericParam, GenericParamView};
use crate::args::{params_view, strings_view, lemma_params_view_push};
use crate::decl::{FnDecl, FnDeclView, FnSigView, render_sig};

verus! {

/// The ASCII-uppercase counterpart of a character; everything outside
/// `a`..`z` is left alone.
pub open spec fn ascii_uppercase_char(c: char) -> char {
    if 97 <= c as u32 && c as u32 <= 122 {
        ((c as u32 - 32) as u32) as char
    } else {
        c
    }
}

/// Capitalized camel case: underscores are dropped, and the first character
/// and each character that follows an underscore are replaced by their
/// ASCII-uppercase counterparts. `at_new_word` says whether the next
/// character starts a word.
pub open spec fn camel_core(s: Seq<char>, at_new_word: bool) -> Seq<char>
    decreases s.len(),
{
    if s.len() == 0 {
        Seq::<char>::empty()
    } else if s[0] == '_' {
        camel_core(s.skip(1), true)
    } else if at_new_word {
        seq![ascii_uppercase_char(s[0])] + camel_core(s.skip(1), false)
    } else {
        seq![s[0]] + camel_core(s.skip(1), false)
    }
}

/// The capability name derived from a function name.
pub open spec fn camel(s: Seq<char>) -> Seq<char> {
    camel_core(s, true)
}

/// The sealing-module name derived from a function name: a reserved prefix
/// in front of the capability name.
pub open spec fn seal_name(s: Seq<char>) -> Seq<char> {
    "__seal_"@ + camel(s)
}

/// Relies on `case::CaseExt::to_camel` for the capability-name derivation:
/// it drops underscores and replaces the first character of each
/// underscore-separated word by its ASCII-uppercase counterpart.
#[verifier::external_body]
fn to_camel(s: &str) -> (r: String)
    ensures
        r@ == camel(s@),
{
    case::CaseExt::to_camel(s)
}

/// Mathematical image of the emitted capability declaration, together with
/// the nested sealing-module declaration that always accompanies it.
pub ghost struct TraitDefView {
    pub async_wrapped: bool,
    pub vis: Seq<char>,
    pub name: Seq<char>,
    pub generics: Seq<GenericParamView>,
    pub seal: Seq<char>,
    pub method_attrs: Seq<Seq<char>>,
    pub sig: FnSigView,
}

/// Mathematical image of the emitted capability implementation: the block
/// that carries the method body.
pub ghost struct CapImplView {
    pub async_wrapped: bool,
    pub generics: Seq<GenericParamView>,
    pub trait_name: Seq<char>,
    pub self_ty: Seq<char>,
    pub sig: FnSigView,
    pub body: Seq<char>,
}

/// Mathematical image of the emitted sealing-marker implementation. It has
/// no method, no attributes, and no asynchronous wrapping.
pub ghost struct SealImplView {
    pub generics: Seq<GenericParamView>,
    pub seal: Seq<char>,
    pub self_ty: Seq<char>,
}

/// Everything one invocation emits, in emission order.
pub ghost struct ExpansionView {
    pub trait_def: TraitDefView,
    pub cap_impl: CapImplView,
    pub seal_impl: SealImplView,
}

/// The conjunction text of a constraint list, `+`-joined.
pub open spec fn bounds_text(cs: Seq<Seq<char>>, leading: bool) -> Seq<char>
    decreases cs.len(),
{
    if cs.len() == 0 {
        Seq::<char>::empty()
    } else {
        (if leading {
            " + "@
        } else {
            Seq::<char>::empty()
        }) + cs[0] + bounds_text(cs.skip(1), true)
    }
}

/// The generic list a target specification gives the emitted items: the
/// explicit parameters, and for a capability-bound target one implicit
/// parameter `T`, bounded by the constraint conjunction, appended last.
pub open spec fn merged_generics(args: ArgsView) -> Seq<GenericParamView> {
    let explicit = match args.generics {
        Option::None => Seq::<GenericParamView>::empty(),
        Option::Some(ps) => ps,
    };
    match args.kind {
        ArgKindView::Type { .. } => explicit,
        ArgKindView::TraitBound { constraints } => explicit.push(
            GenericParamView { name: "T"@, bounds: bounds_text(constraints, false) },
        ),
    }
}

/// The type the implementations attach to: the concrete target type, or the
/// implicit parameter for a capability-bound target.
pub open spec fn target_self_ty(args: ArgsView) -> Seq<char> {
    match args.kind {
        ArgKindView::Type { ty } => ty,
        ArgKindView::TraitBound { .. } => "T"@,
    }
}

/// What one invocation emits, as a function of the two derived identifiers,
/// the function declaration, and the parsed target specification.
pub open spec fn spec_expansion(
    trait_ident: Seq<char>,
    seal: Seq<char>,
    f: FnDeclView,
    args: ArgsView,
) -> ExpansionView {
    let gens = merged_generics(args);
    let self_ty = target_self_ty(args);
    ExpansionView {
        trait_def: TraitDefView {
            async_wrapped: f.sig.is_async,
            vis: f.vis,
            name: trait_ident,
            generics: gens,
            seal: seal,
            method_attrs: f.attrs,
            sig: f.sig,
        },
        cap_impl: CapImplView {
            async_wrapped: f.sig.is_async,
            generics: gens,
            trait_name: trait_ident,
            self_ty: self_ty,
            sig: f.sig,
            body: f.body,
        },
        seal_impl: SealImplView { generics: gens, seal: seal, self_ty: self_ty },
    }
}

/// The names of the generic parameters, comma-joined, for a header such as
/// `Name<K, V>`.
pub open spec fn ty_params_text(ps: Seq<GenericParamView>, leading: bool) -> Seq<char>
    decreases ps.len(),
{
    if ps.len() == 0 {
        Seq::<char>::empty()
    } else {
        (if leading {
            ", "@
        } else {
            Seq::<char>::empty()
        }) + ps[0].name + ty_params_text(ps.skip(1), true)
    }
}

/// `<K, V>`, or nothing when the list is empty.
pub open spec fn render_ty_generics(ps: Seq<GenericParamView>) -> Seq<char> {
    if ps.len() == 0 {
        Seq::<char>::empty()
    } else {
        "<"@ + ty_params_text(ps, false) + ">"@
    }
}

/// One parameter's declaration, bounds included: `K: Hash + Eq`, or `V`.
pub open spec fn param_decl_text(p: GenericParamView) -> Seq<char> {
    if p.bounds.len() == 0 {
        p.name
    } else {
        p.name + ": "@ + p.bounds
    }
}

/// The declarations of the generic parameters, comma-joined.
pub open spec fn impl_params_text(ps: Seq<GenericParamView>, leading: bool) -> Seq<char>
    decreases ps.len(),
{
    if ps.len() == 0 {
        Seq::<char>::empty()
    } else {
        (if leading {
            ", "@
        } else {
            Seq::<char>::empty()
        }) + param_decl_text(ps[0]) + impl_params_text(ps.skip(1), true)
    }
}

/// `<K: Hash + Eq, V>`, or nothing when the list is empty.
pub open spec fn render_impl_generics(ps: Seq<GenericParamView>) -> Seq<char> {
    if ps.len() == 0 {
        Seq::<char>::empty()
    } else {
        "<"@ + impl_params_text(ps, false) + ">"@
    }
}

/// The attribute lines above the capability's abstract method, each indented
/// to the method's own indentation.
pub open spec fn attrs_text(attrs: Seq<Seq<char>>) -> Seq<char>
    decreases attrs.len(),
{
    if attrs.len() == 0 {
        Seq::<char>::empty()
    } else {
        attrs[0] + "\n    "@ + attrs_text(attrs.skip(1))
    }
}

/// The asynchronous-capability annotation, present only on wrapped items.
pub open spec fn async_attr_text(wrapped: bool) -> Seq<char> {
    if wrapped {
        "#[async_trait::async_trait]\n"@
    } else {
        Seq::<char>::empty()
    }
}

/// The capability declaration's text: visibility, header, sealing supertype
/// bound, the attributed abstract method, and the nested sealing module.
pub open spec fn render_trait_def(t: TraitDefView) -> Seq<char> {
    async_attr_text(t.async_wrapped) + (if t.vis.len() == 0 {
        Seq::<char>::empty()
    } else {
        t.vis + " "@
    }) + "trait "@ + t.name + render_ty_generics(t.generics) + ": "@ + t.seal + "::Sealed {\n    "@
        + attrs_text(t.method_attrs) + render_sig(t.sig) + ";\n}\n"@ + "mod "@ + t.seal
        + " {\n    pub trait Sealed {}\n}\n"@
}

/// The capability implementation's text. The method inside carries no
/// visibility qualifier and no attributes: it is reachable only through the
/// capability.
pub open spec fn render_cap_impl(c: CapImplView) -> Seq<char> {
    async_attr_text(c.async_wrapped) + "impl"@ + render_impl_generics(c.generics) + " "@
        + c.trait_name + render_ty_generics(c.generics) + " for "@ + c.self_ty + " {\n    "@
        + render_sig(c.sig) + " {\n        "@ + c.body + "\n    }\n}\n"@
}

/// The sealing-marker implementation's text: an empty implementation block.
pub open spec fn render_seal_impl(sv: SealImplView) -> Seq<char> {
    "impl"@ + render_impl_generics(sv.generics) + " "@ + sv.seal + "::Sealed for "@ + sv.self_ty
        + " {}\n"@
}

/// The whole output text, in emission order: the capability declaration with
/// its sealing module first, then the implementation pair.
pub open spec fn render_expansion(e: ExpansionView) -> Seq<char> {
    render_trait_def(e.trait_def) + render_cap_impl(e.cap_impl) + render_seal_impl(e.seal_impl)
}

fn render_ty_generics_exec(generics: &Vec<GenericParam>) -> (out: String)
    ensures
        out@ == render_ty_generics(params_view(generics@)),
{
    if generics.len() == 0 {
        return String::new();
    }
    let ghost pv = params_view(generics@);
    let mut out = String::from_str("<");
    proof {
        assert(pv.skip(0) =~= pv);
        assert(out@ + ty_params_text(pv, false) =~= "<"@ + ty_params_text(pv, false));
    }
    let mut k: usize = 0;
    while k < generics.len()
        invariant
            k <= generics.len(),
            pv == params_view(generics@),
            pv.len() == generics.len(),
            out@ + ty_params_text(pv.skip(k as int), k > 0) == "<"@ + ty_params_text(pv, false),
        decreases generics.len() - k,
    {
        proof {
            assert(pv.skip(k as int)[0] == pv[k as int]);
            assert(pv.skip(k as int).skip(1) =~= pv.skip(k as int + 1));
        }
        if k > 0 {
            out.append(", ");
        }
        out.append(generics[k].name.as_str());
        proof {
            assert(out@ + ty_params_text(pv.skip(k as int + 1), true) =~= "<"@ + ty_params_text(
                pv,
                false,
            ));
        }
        k = k + 1;
    }
    proof {
        assert(ty_params_text(pv.skip(k as int), k > 0) =~= Seq::<char>::empty());
    }
    out.append(">");
    proof {
        assert(out@ =~= render_ty_generics(pv));
    }
    out
}

fn render_impl_generics_exec(generics: &Vec<GenericParam>) -> (out: String)
    ensures
        out@ == render_impl_generics(params_view(generics@)),
{
    if generics.len() == 0 {
        return String::new();
    }
    let ghost pv = params_view(generics@);
    let mut out = String::from_str("<");
    proof {
        assert(pv.skip(0) =~= pv);
        assert(out@ + impl_params_text(pv, false) =~= "<"@ + impl_params_text(pv, false));
    }
    let mut k: usize = 0;
    while k < generics.len()
        invariant
            k <= generics.len(),
            pv == params_view(generics@),
            pv.len() == generics.len(),
            out@ + impl_params_text(pv.skip(k as int), k > 0) == "<"@ + impl_params_text(
                pv,
                false,
            ),
        decreases generics.len() - k,
    {
        proof {
            assert(pv.skip(k as int)[0] == pv[k as int]);
            assert(pv.skip(k as int).skip(1) =~= pv.skip(k as int + 1));
        }
        if k > 0 {
            out.append(", ");
        }
        out.append(generics[k].name.as_str());
        if generics[k].bounds.as_str().unicode_len() > 0 {
            out.append(": ");
            out.append(generics[k].bounds.as_str());
        }
        proof {
            assert(out@ + impl_params_text(pv.skip(k as int + 1), true) =~= "<"@ + impl_params_text(
                pv,
                false,
            ));
        }
        k = k + 1;
    }
    proof {
        assert(impl_params_text(pv.skip(k as int), k > 0) =~= Seq::<char>::empty());
    }
    out.append(">");
    proof {
        assert(out@ =~= render_impl_generics(pv));
    }
    out
}

/// The `+`-joined conjunction of a constraint list, as one bound text for the
/// implicit parameter.
fn bounds_string(bound: &Vec<String>) -> (out: String)
    ensures
        out@ == bounds_text(strings_view(bound@), false),
{
    let ghost bv = strings_view(bound@);
    let mut out = String::new();
    proof {
        assert(bv.skip(0) =~= bv);
        assert(out@ + bounds_text(bv, false) =~= bounds_text(bv, false));
    }
    let mut k: usize = 0;
    while k < bound.len()
        invariant
            k <= bound.len(),
            bv == strings_view(bound@),
            bv.len() == bound.len(),
            out@ + bounds_text(bv.skip(k as int), k > 0) == bounds_text(bv, false),
        decreases bound.len() - k,
    {
        proof {
            assert(bv.skip(k as int)[0] == bv[k as int]);
            assert(bv.skip(k as int).skip(1) =~= bv.skip(k as int + 1));
        }
        if k > 0 {
            out.append(" + ");
        }
        out.append(bound[k].as_str());
        proof {
            assert(out@ + bounds_text(bv.skip(k as int + 1), true) =~= bounds_text(bv, false));
        }
        k = k + 1;
    }
    proof {
        assert(bounds_text(bv.skip(k as int), k > 0) =~= Seq::<char>::empty());
        assert(out@ =~= bounds_text(bv, false));
    }
    out
}

/// The attribute lines of the abstract method, concatenated in their
/// original order.
fn attrs_tokenstream(attrs: &Vec<String>) -> (out: String)
    ensures
        out@ == attrs_text(strings_view(attrs@)),
{
    let ghost av = strings_view(attrs@);
    let mut out = String::new();
    proof {
        assert(av.skip(0) =~= av);
        assert(out@ + attrs_text(av) =~= attrs_text(av));
    }
    let mut k: usize = 0;
    while k < attrs.len()
        invariant
            k <= attrs.len(),
            av == strings_view(attrs@),
            av.len() == attrs.len(),
            out@ + attrs_text(av.skip(k as int)) == attrs_text(av),
        decreases attrs.len() - k,
    {
        proof {
            assert(av.skip(k as int)[0] == av[k as int]);
            assert(av.skip(k as int).skip(1) =~= av.skip(k as int + 1));
        }
        out.append(attrs[k].as_str());
        out.append("\n    ");
        proof {
            assert(out@ + attrs_text(av.skip(k as int + 1)) =~= attrs_text(av));
        }
        k = k + 1;
    }
    proof {
        assert(attrs_text(av.skip(k as int)) =~= Seq::<char>::empty());
        assert(out@ =~= attrs_text(av));
    }
    out
}

/// Prepend the asynchronous-capability annotation when the function is
/// declared asynchronous; pass the text through unchanged otherwise.
fn add_async_trait(fn_implementation: &FnDecl, token_stream: String) -> (out: String)
    ensures
        out@ == async_attr_text(fn_implementation.sig.is_async) + token_stream@,
{
    if fn_implementation.sig.is_async {
        let mut out = String::from_str("#[async_trait::async_trait]\n");
        out.append(token_stream.as_str());
        out
    } else {
        proof {
            assert(async_attr_text(fn_implementation.sig.is_async) + token_stream@
                =~= token_stream@);
        }
        token_stream
    }
}

/// Mathematical image of a `Builder`: the two derived identifiers.
pub ghost struct BuilderView {
    pub trait_ident: Seq<char>,
    pub sealed_trait_mod: Seq<char>,
}

/// Holds the two identifiers every emitted item is named by: the capability
/// name and the sealing-module name.
pub struct Builder {
    trait_ident: String,
    sealed_trait_mod: String,
}

impl View for Builder {
    type V = BuilderView;

    closed spec fn view(&self) -> BuilderView {
        BuilderView { trait_ident: self.trait_ident@, sealed_trait_mod: self.sealed_trait_mod@ }
    }
}

impl Builder {
    /// Derive the capability name and the sealing-module name from the
    /// function's name. The derivation is deterministic, so two invocations
    /// on identically named functions in one compilation unit produce
    /// colliding identifiers; the surrounding compilation reports those as
    /// duplicate definitions.
    pub fn new(function_ident: &str) -> (b: Builder)
        ensures
            b@.trait_ident == camel(function_ident@),
            b@.sealed_trait_mod == seal_name(function_ident@),
    {
        let camel_name = to_camel(function_ident);
        let mut seal = String::from_str("__seal_");
        seal.append(camel_name.as_str());
        Builder { trait_ident: camel_name, sealed_trait_mod: seal }
    }

    /// Emit the capability declaration: the original visibility, the header
    /// with the generic parameter names, the supertype bound on the sealing
    /// marker, the attributed abstract method, and the nested sealing module.
    fn define_trait(&self, fn_implementation: &FnDecl, generics: &Vec<GenericParam>) -> (out:
        String)
        ensures
            out@ == render_trait_def(
                (TraitDefView {
                    async_wrapped: fn_implementation.sig.is_async,
                    vis: fn_implementation.vis@,
                    name: self@.trait_ident,
                    generics: params_view(generics@),
                    seal: self@.sealed_trait_mod,
                    method_attrs: strings_view(fn_implementation.attrs@),
                    sig: fn_implementation.sig@,
                }),
            ),
    {
        let mut out = String::new();
        if fn_implementation.vis.as_str().unicode_len() > 0 {
            out.append(fn_implementation.vis.as_str());
            out.append(" ");
        }
        out.append("trait ");
        out.append(self.trait_ident.as_str());
        let tyg = render_ty_generics_exec(generics);
        out.append(tyg.as_str());
        out.append(": ");
        out.append(self.sealed_trait_mod.as_str());
        out.append("::Sealed {\n    ");
        let attrs = attrs_tokenstream(&fn_implementation.attrs);
        out.append(attrs.as_str());
        let signature = fn_implementation.sig.render();
        out.append(signature.as_str());
        out.append(";\n}\n");
        out.append("mod ");
        out.append(self.sealed_trait_mod.as_str());
        out.append(" {\n    pub trait Sealed {}\n}\n");
        let wrapped = add_async_trait(fn_implementation, out);
        proof {
            assert(wrapped@ =~= render_trait_def(
                (TraitDefView {
                    async_wrapped: fn_implementation.sig.is_async,
                    vis: fn_implementation.vis@,
                    name: self@.trait_ident,
                    generics: params_view(generics@),
                    seal: self@.sealed_trait_mod,
                    method_attrs: strings_view(fn_implementation.attrs@),
                    sig: fn_implementation.sig@,
                }),
            ));
        }
        wrapped
    }

    /// Emit the implementation pair for a concrete-type target: the
    /// capability implementation carrying the function (visibility lowered to
    /// inherited, attributes left to the declaration), and the empty
    /// sealing-marker implementation.
    fn impl_type(&self, fn_implementation: &FnDecl, impl_type: &String, generics: &Vec<
        GenericParam,
    >) -> (out: String)
        ensures
            out@ == render_cap_impl(
                (CapImplView {
                    async_wrapped: fn_implementation.sig.is_async,
                    generics: params_view(generics@),
                    trait_name: self@.trait_ident,
                    self_ty: impl_type@,
                    sig: fn_implementation.sig@,
                    body: fn_implementation.body@,
                }),
            ) + render_seal_impl(
                (SealImplView {
                    generics: params_view(generics@),
                    seal: self@.sealed_trait_mod,
                    self_ty: impl_type@,
                }),
            ),
    {
        self.impl_blocks(fn_implementation, impl_type.as_str(), generics)
    }

    /// Emit the implementation pair for a capability-bound target: the same
    /// two blocks, attached to the implicit parameter `T`. The caller has
    /// already appended `T` to `generics`.
    fn impl_trait_bound(&self, fn_implementation: &FnDecl, generics: &Vec<GenericParam>) -> (out:
        String)
        ensures
            out@ == render_cap_impl(
                (CapImplView {
                    async_wrapped: fn_implementation.sig.is_async,
                    generics: params_view(generics@),
                    trait_name: self@.trait_ident,
                    self_ty: "T"@,
                    sig: fn_implementation.sig@,
                    body: fn_implementation.body@,
                }),
            ) + render_seal_impl(
                (SealImplView {
                    generics: params_view(generics@),
                    seal: self@.sealed_trait_mod,
                    self_ty: "T"@,
                }),
            ),
    {
        self.impl_blocks(fn_implementation, "T", generics)
    }

    /// The shared emission of the two implementation blocks for a target
    /// type's text.
    fn impl_blocks(&self, fn_implementation: &FnDecl, self_ty: &str, generics: &Vec<
        GenericParam,
    >) -> (out: String)
        ensures
            out@ == render_cap_impl(
                (CapImplView {
                    async_wrapped: fn_implementation.sig.is_async,
                    generics: params_view(generics@),
                    trait_name: self@.trait_ident,
                    self_ty: self_ty@,
                    sig: fn_implementation.sig@,
                    body: fn_implementation.body@,
                }),
            ) + render_seal_impl(
                (SealImplView {
                    generics: params_view(generics@),
                    seal: self@.sealed_trait_mod,
                    self_ty: self_ty@,
                }),
            ),
    {
        let impl_generics = render_impl_generics_exec(generics);
        let ty_generics = render_ty_generics_exec(generics);
        let mut out = String::from_str("impl");
        out.append(impl_generics.as_str());
        out.append(" ");
        out.append(self.trait_ident.as_str());
        out.append(ty_generics.as_str());
        out.append(" for ");
        out.append(self_ty);
        out.append(" {\n    ");
        let signature = fn_implementation.sig.render();
        out.append(signature.as_str());
        out.append(" {\n        ");
        out.append(fn_implementation.body.as_str());
        out.append("\n    }\n}\n");
        let mut wrapped = add_async_trait(fn_implementation, out);
        wrapped.append("impl");
        wrapped.append(impl_generics.as_str());
        wrapped.append(" ");
        wrapped.append(self.sealed_trait_mod.as_str());
        wrapped.append("::Sealed for ");
        wrapped.append(self_ty);
        wrapped.append(" {}\n");
        proof {
            assert(wrapped@ =~= render_cap_impl(
                (CapImplView {
                    async_wrapped: fn_implementation.sig.is_async,
                    generics: params_view(generics@),
                    trait_name: self@.trait_ident,
                    self_ty: self_ty@,
                    sig: fn_implementation.sig@,
                    body: fn_implementation.body@,
                }),
            ) + render_seal_impl(
                (SealImplView {
                    generics: params_view(generics@),
                    seal: self@.sealed_trait_mod,
                    self_ty: self_ty@,
                }),
            ));
        }
        wrapped
    }

    /// Emit the whole output for one invocation: the capability declaration
    /// with its sealing module, then the implementation pair chosen by the
    /// target kind.
    pub fn build(self, fn_implementation: FnDecl, args: Args) -> (out: String)
        ensures
            out@ == render_expansion(
                spec_expansion(self@.trait_ident, self@.sealed_trait_mod, fn_implementation@, args@),
            ),
    {
        let ghost av = args@;
        let ghost fv = fn_implementation@;
        let generics: Vec<GenericParam> = match args.generics {
            Option::Some(g) => g,
            Option::None => Vec::new(),
        };
        proof {
            match av.generics {
                Option::None => {
                    assert(params_view(generics@) =~= Seq::<GenericParamView>::empty());
                },
                Option::Some(_) => {},
            }
        }
        match args.kind {
            ArgKind::Type(ty) => {
                proof {
                    assert(merged_generics(av) == params_view(generics@));
                    assert(target_self_ty(av) == ty@);
                }
                let mut out = self.define_trait(&fn_implementation, &generics);
                let implementation = self.impl_type(&fn_implementation, &ty, &generics);
                out.append(implementation.as_str());
                proof {
                    assert(out@ =~= render_expansion(
                        spec_expansion(self@.trait_ident, self@.sealed_trait_mod, fv, av),
                    ));
                }
                out
            },
            ArgKind::TraitBound(bound) => {
                let bound_text = bounds_string(&bound);
                let t_param = GenericParam { name: String::from_str("T"), bounds: bound_text };
                proof {
                    lemma_params_view_push(generics@, t_param);
                }
                let mut generics = generics;
                generics.push(t_param);
                proof {
                    assert(merged_generics(av) == params_view(generics@));
                    assert(target_self_ty(av) == "T"@);
                }
                let mut out = self.define_trait(&fn_implementation, &generics);
                let implementation = self.impl_trait_bound(&fn_implementation, &generics);
                out.append(implementation.as_str());
                proof {
                    assert(out@ =~= render_expansion(
                        spec_expansion(self@.trait_ident, self@.sealed_trait_mod, fv, av),
                    ));
                }
                out
            },
        }
    }
}

} // verus!
