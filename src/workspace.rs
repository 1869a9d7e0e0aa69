use vstd::prelude::*;
use vstd::string::*;

verus! {

/// The path that results from adjoining `name` to `base`, as a path buffer
/// does it on a Unix-like system: an absolute `name` replaces the base, an
/// empty base yields `name` itself, and otherwise one `/` separates the two
/// unless `base` already ends with one.
pub open spec fn joined(base: Seq<char>, name: Seq<char>) -> Seq<char> {
    if name.len() > 0 && name[0] == '/' {
        name
    } else if base.len() == 0 {
        name
    } else if base[base.len() - 1] == '/' {
        base + name
    } else {
        base + seq!['/'] + name
    }
}

/// Whether the first character of `s` is `/`.
fn starts_with_slash(s: &str) -> (r: bool)
    ensures
        r == (s@.len() > 0 && s@[0] == '/'),
{
    s.unicode_len() > 0 && s.get_char(0) == '/'
}

/// Whether the last character of `s` is `/`.
fn ends_with_slash(s: &str) -> (r: bool)
    ensures
        r == (s@.len() > 0 && s@[s@.len() - 1] == '/'),
{
    let n = s.unicode_len();
    n > 0 && s.get_char(n - 1) == '/'
}

/// Joins a caller-supplied name to a workspace root. The result is not
/// canonicalised: `..` segments are kept as they are.
pub fn resolve(root: &str, name: &str) -> (r: String)
    ensures
        r@ == joined(root@, name@),
{
    if starts_with_slash(name) || root.is_empty() {
        String::from_str(name)
    } else if ends_with_slash(root) {
        String::from_str(root).concat(name)
    } else {
        proof {
            reveal_strlit("/");
        }
        String::from_str(root).concat("/").concat(name)
    }
}

} // verus!
