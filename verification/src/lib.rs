//! Sealed extension capabilities: given a target specification — a concrete
//! type or a conjunction of capability constraints, optionally preceded by a
//! generic-parameter list — and a function declaration, synthesize a named
//! capability (a trait), a private sealing marker, and an implementation of
//! the capability for the target, so that no other code can supply a
//! competing implementation for the same capability.

use vstd::prelude::*;

pub mod args;
pub mod builder;
pub mod decl;
pub mod laws;
pub mod text;

use args::{Args, ArgsView, ParseError, spec_parse_args};
use builder::{Builder, camel, render_expansion, seal_name, spec_expansion};
use decl::{FnDecl, FnDeclView};

verus! {

/// The whole output text of one invocation, as a function of the function
/// declaration and the parsed target specification alone.
pub open spec fn transform_text(f: FnDeclView, args: ArgsView) -> Seq<char> {
    render_expansion(spec_expansion(camel(f.sig.name), seal_name(f.sig.name), f, args))
}

/// The transformation entry: parse the annotation's argument text into a
/// target specification, derive the capability and sealing identifiers from
/// the function's name, and emit the generated declarations as one text.
/// A malformed target specification is the only failure; a syntactically
/// valid function declaration is never rejected.
pub fn extension_fn(args: &str, input: FnDecl) -> (r: Result<String, ParseError>)
    ensures
        (match spec_parse_args(args@) {
            Result::Ok(a) => r matches Result::Ok(out) && out@ == transform_text(input@, a),
            Result::Err(e) => r == Result::<String, ParseError>::Err(e),
        }),
{
    let parsed = match Args::parse(args) {
        Result::Ok(a) => a,
        Result::Err(e) => {
            return Result::Err(e);
        },
    };
    let builder = Builder::new(input.sig.name.as_str());
    Result::Ok(builder.build(input, parsed))
}

} // verus!
