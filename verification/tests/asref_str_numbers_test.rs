use extension_fn::decl::{FnDecl, FnSig, Receiver};
use extension_fn::extension_fn;

// The blanket capability pair that the transformation emits for
// `extension_fn(trait AsRef<str>)` on `count_numbers`, written out so the
// generated behaviour can be exercised on every type satisfying the
// constraint (the sealing module is left off: it only restricts who may
// implement the capability).
trait CountNumbers<T> {
    fn count_numbers(&self) -> usize;
}

impl<T: AsRef<str>> CountNumbers<T> for T {
    fn count_numbers(&self) -> usize {
        self.as_ref().chars().fold(
            0,
            |count, char| if char.is_numeric() { count + 1 } else { count },
        )
    }
}

fn count_numbers_decl() -> FnDecl {
    FnDecl {
        vis: "pub".to_string(),
        attrs: vec![],
        sig: FnSig {
            name: "count_numbers".to_string(),
            is_async: false,
            receiver: Receiver::Borrowed,
            params: vec![],
            ret: Some("usize".to_string()),
        },
        body: "self.as_ref().chars().fold(0, |count, char| if char.is_numeric() { count + 1 } else { count })".to_string(),
    }
}

#[test]
fn asref_str_numbers_test() {
    let out = extension_fn("trait AsRef<str>", count_numbers_decl()).unwrap();
    let expected = "pub trait CountNumbers<T>: __seal_CountNumbers::Sealed {\n    fn count_numbers(&self) -> usize;\n}\nmod __seal_CountNumbers {\n    pub trait Sealed {}\n}\nimpl<T: AsRef<str>> CountNumbers<T> for T {\n    fn count_numbers(&self) -> usize {\n        self.as_ref().chars().fold(0, |count, char| if char.is_numeric() { count + 1 } else { count })\n    }\n}\nimpl<T: AsRef<str>> __seal_CountNumbers::Sealed for T {}\n";
    assert_eq!(out, expected);
    assert_eq!(5, "23402p[pwer".to_string().count_numbers());
}
