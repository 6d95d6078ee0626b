use vstd::prelude::*;
use vstd::string::*;

verus! {

/// `i` is the position of the dot that starts the extension of the file
/// name at the end of `s`: the last '.' of the name, not its first character.
pub open spec fn is_extension_dot(s: Seq<char>, i: int) -> bool {
    &&& 0 < i < s.len()
    &&& s[i] == '.'
    &&& s[i - 1] != '/'
    &&& forall|j: int| i < j < s.len() ==> s[j] != '.' && s[j] != '/'
}

/// The extension of the path `s`: what follows the last '.' of its file name
/// (the text after the last '/'), absent where the name has no such dot.
pub open spec fn extension_of(s: Seq<char>) -> Option<Seq<char>> {
    if exists|i: int| is_extension_dot(s, i) {
        let i = choose|i: int| is_extension_dot(s, i);
        Some(s.subrange(i + 1, s.len() as int))
    } else {
        None
    }
}

/// Returns the extension of `path`, without its dot.
pub fn extension(path: &str) -> (r: Option<String>)
    ensures
        r matches Some(e) ==> extension_of(path@) == Some(e@),
        r is None ==> extension_of(path@) is None,
{
    let n = path.unicode_len();
    let mut k: usize = n;
    while k > 0
        invariant
            k <= n,
            n == path@.len(),
            forall|j: int| k <= j < n ==> path@[j] != '.' && path@[j] != '/',
        decreases k,
    {
        let c = path.get_char(k - 1);
        if c == '/' {
            return None;
        }
        if c == '.' {
            if k - 1 == 0 || path.get_char(k - 2) == '/' {
                return None;
            }
            assert(is_extension_dot(path@, k - 1));
            return Some(path.substring_char(k, n).to_owned());
        }
        k = k - 1;
    }
    None
}

} // verus!
