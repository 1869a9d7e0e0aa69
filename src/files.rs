use vstd::prelude::*;
use vstd::string::*;

verus! {

/// The confirmation that a write of the file `name` returns.
pub open spec fn confirmation_of(name: Seq<char>) -> Seq<char> {
    "Contents were written to file "@ + name + "."@
}

/// The human-readable confirmation of a completed write.
pub fn write_confirmation(name: &str) -> (r: String)
    ensures
        r@ == confirmation_of(name@),
{
    String::from_str("Contents were written to file ").concat(name).concat(".")
}

} // verus!
