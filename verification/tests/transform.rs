use extension_fn::decl::{FnDecl, FnSig, Receiver};
use extension_fn::extension_fn;

fn decl(
    vis: &str,
    attrs: Vec<&str>,
    name: &str,
    is_async: bool,
    receiver: Receiver,
    params: Vec<&str>,
    ret: Option<&str>,
    body: &str,
) -> FnDecl {
    FnDecl {
        vis: vis.to_string(),
        attrs: attrs.into_iter().map(|a| a.to_string()).collect(),
        sig: FnSig {
            name: name.to_string(),
            is_async,
            receiver,
            params: params.into_iter().map(|p| p.to_string()).collect(),
            ret: ret.map(|t| t.to_string()),
        },
        body: body.to_string(),
    }
}

#[test]
fn generic_merge_concrete_target() {
    let f = decl(
        "",
        vec![],
        "insert_if_missing",
        false,
        Receiver::BorrowedMut,
        vec!["key: K", "value: V"],
        None,
        "self.entries.push((key, value))",
    );
    let out = extension_fn("<K: Hashable, V> Mapping<K, V>", f).unwrap();
    let expected = "trait InsertIfMissing<K, V>: __seal_InsertIfMissing::Sealed {\n    fn insert_if_missing(&mut self, key: K, value: V);\n}\nmod __seal_InsertIfMissing {\n    pub trait Sealed {}\n}\nimpl<K: Hashable, V> InsertIfMissing<K, V> for Mapping<K, V> {\n    fn insert_if_missing(&mut self, key: K, value: V) {\n        self.entries.push((key, value))\n    }\n}\nimpl<K: Hashable, V> __seal_InsertIfMissing::Sealed for Mapping<K, V> {}\n";
    assert_eq!(out, expected);
}

#[test]
fn blanket_single_fresh_parameter() {
    let f = decl(
        "pub",
        vec![],
        "count_digits",
        false,
        Receiver::Borrowed,
        vec![],
        Some("usize"),
        "self.text().len()",
    );
    let out = extension_fn("trait Textual", f).unwrap();
    let expected = "pub trait CountDigits<T>: __seal_CountDigits::Sealed {\n    fn count_digits(&self) -> usize;\n}\nmod __seal_CountDigits {\n    pub trait Sealed {}\n}\nimpl<T: Textual> CountDigits<T> for T {\n    fn count_digits(&self) -> usize {\n        self.text().len()\n    }\n}\nimpl<T: Textual> __seal_CountDigits::Sealed for T {}\n";
    assert_eq!(out, expected);
    // The original function was public; its copy in the implementation is
    // not independently exported.
    assert!(!out.contains("pub fn"));
}

#[test]
fn async_wrapping_marks_declaration_and_method_impl_only() {
    let f = decl(
        "pub",
        vec![],
        "do_something",
        true,
        Receiver::Absent,
        vec![],
        None,
        "()",
    );
    let out = extension_fn("TcpStream", f).unwrap();
    let expected = "#[async_trait::async_trait]\npub trait DoSomething: __seal_DoSomething::Sealed {\n    async fn do_something();\n}\nmod __seal_DoSomething {\n    pub trait Sealed {}\n}\n#[async_trait::async_trait]\nimpl DoSomething for TcpStream {\n    async fn do_something() {\n        ()\n    }\n}\nimpl __seal_DoSomething::Sealed for TcpStream {}\n";
    assert_eq!(out, expected);
    // the capability declaration and the method-carrying implementation are
    // wrapped; the sealing-marker implementation is not
    assert_eq!(out.matches("#[async_trait::async_trait]").count(), 2);
    let seal_impl_start = out.rfind("impl __seal_DoSomething").unwrap();
    assert!(!out[seal_impl_start..].contains("async_trait"));
}

#[test]
fn attributes_round_trip_on_abstract_method_only() {
    let f = decl(
        "pub",
        vec!["#[inline]", "#[doc = \"counts\"]"],
        "count_numbers",
        false,
        Receiver::Borrowed,
        vec![],
        Some("usize"),
        "self.len()",
    );
    let out = extension_fn("str", f).unwrap();
    let expected = "pub trait CountNumbers: __seal_CountNumbers::Sealed {\n    #[inline]\n    #[doc = \"counts\"]\n    fn count_numbers(&self) -> usize;\n}\nmod __seal_CountNumbers {\n    pub trait Sealed {}\n}\nimpl CountNumbers for str {\n    fn count_numbers(&self) -> usize {\n        self.len()\n    }\n}\nimpl __seal_CountNumbers::Sealed for str {}\n";
    assert_eq!(out, expected);
    assert_eq!(out.matches("#[inline]").count(), 1);
    assert_eq!(out.matches("#[doc = \"counts\"]").count(), 1);
    // the attributes stand before the abstract method, in their original order
    assert!(out.find("#[inline]").unwrap() < out.find("#[doc = \"counts\"]").unwrap());
}

#[test]
fn owned_mut_receiver() {
    let f = decl(
        "",
        vec![],
        "sorted",
        false,
        Receiver::OwnedMut,
        vec![],
        Some("Self"),
        "self.sort(); self",
    );
    let out = extension_fn("<T: std::cmp::Ord> Vec<T>", f).unwrap();
    let expected = "trait Sorted<T>: __seal_Sorted::Sealed {\n    fn sorted(mut self) -> Self;\n}\nmod __seal_Sorted {\n    pub trait Sealed {}\n}\nimpl<T: std::cmp::Ord> Sorted<T> for Vec<T> {\n    fn sorted(mut self) -> Self {\n        self.sort(); self\n    }\n}\nimpl<T: std::cmp::Ord> __seal_Sorted::Sealed for Vec<T> {}\n";
    assert_eq!(out, expected);
}

#[test]
fn blanket_conjunction_bounds_the_fresh_parameter() {
    let f = decl(
        "",
        vec![],
        "tag",
        false,
        Receiver::Borrowed,
        vec![],
        Some("String"),
        "self.label()",
    );
    let out = extension_fn("trait Clone + Send", f).unwrap();
    let expected = "trait Tag<T>: __seal_Tag::Sealed {\n    fn tag(&self) -> String;\n}\nmod __seal_Tag {\n    pub trait Sealed {}\n}\nimpl<T: Clone + Send> Tag<T> for T {\n    fn tag(&self) -> String {\n        self.label()\n    }\n}\nimpl<T: Clone + Send> __seal_Tag::Sealed for T {}\n";
    assert_eq!(out, expected);
}

#[test]
fn repeated_transformation_is_deterministic() {
    let make = || {
        decl(
            "pub",
            vec!["#[inline]"],
            "merge",
            false,
            Receiver::BorrowedMut,
            vec!["other: Self"],
            None,
            "self.join(other)",
        )
    };
    let a = extension_fn("<K: Hash + Eq, V> HashMap<K, V>", make()).unwrap();
    let b = extension_fn("<K: Hash + Eq, V> HashMap<K, V>", make()).unwrap();
    assert_eq!(a, b);
}

#[test]
fn camel_case_derivation_reaches_output() {
    let f = decl(
        "",
        vec![],
        "_wild__underscore_s_",
        false,
        Receiver::Borrowed,
        vec![],
        None,
        "()",
    );
    let out = extension_fn("str", f).unwrap();
    // case::CaseExt::to_camel("_wild__underscore_s_") == "WildUnderscoreS"
    assert!(out.starts_with("trait WildUnderscoreS: __seal_WildUnderscoreS::Sealed {"));
}
