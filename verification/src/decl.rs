//! The function declaration handed to the transformer, as plain values: the
//! visibility qualifier, the attribute list, the signature, and the body,
//! which is opaque text copied verbatim and never inspected.

use vstd::prelude::*;

use crate::args::strings_view;

verus! {

/// The receiver form of a function signature.
#[derive(Clone, Copy, Debug, PartialEq, Eq, Structural)]
pub enum Receiver {
    Absent,
    Owned,
    OwnedMut,
    Borrowed,
    BorrowedMut,
}

/// Mathematical image of a function signature.
pub ghost struct FnSigView {
    pub name: Seq<char>,
    pub is_async: bool,
    pub receiver: Receiver,
    pub params: Seq<Seq<char>>,
    pub ret: Option<Seq<char>>,
}

/// A function signature: name, asynchronous flag, receiver form, the
/// non-receiver parameters (each one's text verbatim), and the return type
/// (absent for the unit-returning form).
pub struct FnSig {
    pub name: String,
    pub is_async: bool,
    pub receiver: Receiver,
    pub params: Vec<String>,
    pub ret: Option<String>,
}

impl View for FnSig {
    type V = FnSigView;

    open spec fn view(&self) -> FnSigView {
        FnSigView {
            name: self.name@,
            is_async: self.is_async,
            receiver: self.receiver,
            params: strings_view(self.params@),
            ret: match self.ret {
                Option::None => Option::<Seq<char>>::None,
                Option::Some(t) => Option::Some(t@),
            },
        }
    }
}

/// Mathematical image of a function declaration.
pub ghost struct FnDeclView {
    pub vis: Seq<char>,
    pub attrs: Seq<Seq<char>>,
    pub sig: FnSigView,
    pub body: Seq<char>,
}

/// A complete function declaration. The visibility is its raw text, empty
/// when inherited; each attribute is its raw text, e.g. `#[inline]`; the body
/// is the text between the outer braces, copied verbatim.
pub struct FnDecl {
    pub vis: String,
    pub attrs: Vec<String>,
    pub sig: FnSig,
    pub body: String,
}

impl View for FnDecl {
    type V = FnDeclView;

    open spec fn view(&self) -> FnDeclView {
        FnDeclView {
            vis: self.vis@,
            attrs: strings_view(self.attrs@),
            sig: self.sig@,
            body: self.body@,
        }
    }
}

/// The receiver's text inside the parameter list.
pub open spec fn render_receiver(r: Receiver) -> Seq<char> {
    match r {
        Receiver::Absent => Seq::<char>::empty(),
        Receiver::Owned => "self"@,
        Receiver::OwnedMut => "mut self"@,
        Receiver::Borrowed => "&self"@,
        Receiver::BorrowedMut => "&mut self"@,
    }
}

/// The comma-joined parameter texts; `leading` says whether something (the
/// receiver or an earlier parameter) already stands before them.
pub open spec fn params_text(params: Seq<Seq<char>>, leading: bool) -> Seq<char>
    decreases params.len(),
{
    if params.len() == 0 {
        Seq::<char>::empty()
    } else {
        (if leading {
            ", "@
        } else {
            Seq::<char>::empty()
        }) + params[0] + params_text(params.skip(1), true)
    }
}

/// Everything between the parentheses of a signature.
pub open spec fn render_param_list(receiver: Receiver, params: Seq<Seq<char>>) -> Seq<char> {
    render_receiver(receiver) + params_text(params, !(receiver is Absent))
}

/// The signature up to and including its opening parenthesis and parameters.
pub open spec fn render_sig_open(sig: FnSigView) -> Seq<char> {
    (if sig.is_async {
        "async "@
    } else {
        Seq::<char>::empty()
    }) + "fn "@ + sig.name + "("@ + render_param_list(sig.receiver, sig.params)
}

/// The whole signature text, reproduced verbatim wherever the method appears.
pub open spec fn render_sig(sig: FnSigView) -> Seq<char> {
    render_sig_open(sig) + ")"@ + (match sig.ret {
        Option::None => Seq::<char>::empty(),
        Option::Some(t) => " -> "@ + t,
    })
}

impl FnSig {
    /// Emit the signature's text.
    pub fn render(&self) -> (out: String)
        ensures
            out@ == render_sig(self@),
    {
        let mut out = String::new();
        if self.is_async {
            out.append("async ");
        }
        out.append("fn ");
        out.append(self.name.as_str());
        out.append("(");
        match self.receiver {
            Receiver::Absent => {},
            Receiver::Owned => out.append("self"),
            Receiver::OwnedMut => out.append("mut self"),
            Receiver::Borrowed => out.append("&self"),
            Receiver::BorrowedMut => out.append("&mut self"),
        }
        let lead0 = !matches!(self.receiver, Receiver::Absent);
        let ghost open_full = render_sig_open(self@);
        proof {
            assert(out@ + params_text(self@.params, lead0) =~= open_full);
            assert(self@.params.skip(0) =~= self@.params);
        }
        let mut k: usize = 0;
        while k < self.params.len()
            invariant
                k <= self.params.len(),
                self@.params.len() == self.params.len(),
                out@ + params_text(self@.params.skip(k as int), k > 0 || lead0) == open_full,
            decreases self.params.len() - k,
        {
            proof {
                assert(self@.params.skip(k as int)[0] == self@.params[k as int]);
                assert(self@.params.skip(k as int).skip(1) =~= self@.params.skip(k as int + 1));
            }
            if k > 0 || lead0 {
                out.append(", ");
            }
            out.append(self.params[k].as_str());
            proof {
                assert(out@ + params_text(self@.params.skip(k as int + 1), true) =~= open_full);
            }
            k = k + 1;
        }
        proof {
            assert(params_text(self@.params.skip(k as int), k > 0 || lead0) =~= Seq::<
                char,
            >::empty());
            assert(out@ =~= open_full);
        }
        out.append(")");
        match &self.ret {
            Option::None => {},
            Option::Some(t) => {
                out.append(" -> ");
                out.append(t.as_str());
            },
        }
        proof {
            assert(out@ =~= render_sig(self@));
        }
        out
    }
}

} // verus!
