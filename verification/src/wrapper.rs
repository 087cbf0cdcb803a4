//! The shared wrapper emitter: builds a synthesized method from name
//! fragments, a visibility flag, a receiver flag, and a delegation flag.
//! Malformed name fragments are reported as structured errors naming the
//! bad fragment.

use vstd::prelude::*;

use crate::ast::{MacroError, MethodBody, MethodDecl};
use crate::text::{is_ident, is_ident_str};

verus! {

/// Builds a synthesized method named `wrap_name`. With `call_func` set the
/// body invokes `func_name` (through the receiver when `use_self` is set);
/// otherwise the body is the literal placeholder expression `func_name`,
/// which may be empty. A name fragment that must be an identifier but is
/// not produces an error naming it.
pub fn generate_wrapper(
    wrap_name: &str,
    func_name: &str,
    func_return: Option<&str>,
    public: bool,
    use_self: bool,
    call_func: bool,
) -> (r: Result<MethodDecl, MacroError>)
    ensures
        r is Ok <==> is_ident(wrap_name@) && (call_func ==> is_ident(func_name@)),
        r matches Ok(d) ==> {
            &&& d.name@ == wrap_name@
            &&& d.public == public
            &&& d.takes_receiver == use_self
            &&& match func_return {
                Some(t) => d.return_ty matches Some(dt) && dt@ == t@,
                None => d.return_ty is None,
            }
            &&& if call_func {
                d.body matches MethodBody::Invoke { target, through_self } && target@
                    == func_name@ && through_self == use_self
            } else {
                d.body matches MethodBody::Placeholder(e) && e@ == func_name@
            }
        },
        r matches Err(e) ==> e matches MacroError::BadNameFragment { fragment } && fragment@ == (
            if !is_ident(wrap_name@) {
                wrap_name@
            } else {
                func_name@
            }
        ),
{
    if !is_ident_str(wrap_name) {
        return Err(MacroError::BadNameFragment { fragment: wrap_name.to_owned() });
    }
    if call_func && !is_ident_str(func_name) {
        return Err(MacroError::BadNameFragment { fragment: func_name.to_owned() });
    }
    let return_ty = match func_return {
        Some(t) => Some(t.to_owned()),
        None => None,
    };
    let body = if call_func {
        MethodBody::Invoke { target: func_name.to_owned(), through_self: use_self }
    } else {
        MethodBody::Placeholder(func_name.to_owned())
    };
    Ok(MethodDecl { name: wrap_name.to_owned(), public, takes_receiver: use_self, return_ty, body })
}

} // verus!
