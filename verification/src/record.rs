//! Rendering one recorded field into span field text: the designated
//! message field appears bare, every other field as `key=value`.

use vstd::prelude::*;
use vstd::string::StringExecFns;

verus! {

/// Renders one field as it is appended to a span's field text: a
/// leading space, then the bare value for the designated message field,
/// or `key=value` for any other field.
pub fn format_field(name: &str, value: &str) -> (r: String)
    ensures
        name@ == "message"@ ==> r@ == " "@ + value@,
        name@ != "message"@ ==> r@ == " "@ + name@ + "="@ + value@,
{
    let mut r = String::new();
    r.append(" ");
    let own_name = name.to_owned();
    let message = String::from_str("message");
    if own_name == message {
        r.append(value);
    } else {
        r.append(name);
        r.append("=");
        r.append(value);
    }
    r
}

} // verus!
