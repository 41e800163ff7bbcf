use extension_fn::args::Args;
use extension_fn::builder::Builder;
use extension_fn::decl::{FnDecl, FnSig, Receiver};
use extension_fn::extension_fn;

// The capability pair that the transformation emits for
// `extension_fn(str)` on `count_numbers`, written out so the generated
// behaviour can be exercised (the sealing module is left off: it only
// restricts who may implement the capability).
trait CountNumbers {
    fn count_numbers(&self) -> usize;
}

impl CountNumbers for str {
    fn count_numbers(&self) -> usize {
        self.chars().fold(0, |count, char| if char.is_numeric() { count + 1 } else { count })
    }
}

fn count_numbers_decl() -> FnDecl {
    FnDecl {
        vis: "pub".to_string(),
        attrs: vec![],
        sig: FnSig {
            name: "count_numbers".to_string(),
            is_async: false,
            receiver: Receiver::Borrowed,
            params: vec![],
            ret: Some("usize".to_string()),
        },
        body: "self.chars().fold(0, |count, char| if char.is_numeric() { count + 1 } else { count })".to_string(),
    }
}

#[test]
fn str_numbers_test() {
    let out = extension_fn("str", count_numbers_decl()).unwrap();
    let expected = "pub trait CountNumbers: __seal_CountNumbers::Sealed {\n    fn count_numbers(&self) -> usize;\n}\nmod __seal_CountNumbers {\n    pub trait Sealed {}\n}\nimpl CountNumbers for str {\n    fn count_numbers(&self) -> usize {\n        self.chars().fold(0, |count, char| if char.is_numeric() { count + 1 } else { count })\n    }\n}\nimpl __seal_CountNumbers::Sealed for str {}\n";
    assert_eq!(out, expected);
    assert_eq!(6, "243=-234-=".count_numbers())
}

#[test]
fn str_numbers_builder_direct() {
    let args = Args::parse("str").unwrap();
    let out = Builder::new("count_numbers").build(count_numbers_decl(), args);
    let twice = extension_fn("str", count_numbers_decl()).unwrap();
    assert_eq!(out, twice);
}
