//! Case-insensitive matching of qualitative labels (bike categories, tire
//! quality grades).  Only the ASCII letters are case-folded; any other
//! character must match exactly.

use vstd::prelude::*;
use vstd::string::*;

verus! {

/// The code point of `c`, with ASCII upper case folded to lower case.
pub open spec fn lower_code_spec(c: char) -> int {
    if 65 <= c as int && c as int <= 90 {
        c as int + 32
    } else {
        c as int
    }
}

/// Whether two labels are equal up to ASCII case.
pub open spec fn label_matches(a: Seq<char>, b: Seq<char>) -> bool {
    a.len() == b.len() && (forall|i: int|
        0 <= i < a.len() ==> lower_code_spec(a[i]) == lower_code_spec(#[trigger] b[i]))
}

/// The code point of `c`, with ASCII upper case folded to lower case.
fn lower_code(c: char) -> (r: u32)
    ensures
        r == lower_code_spec(c),
{
    let u = c as u32;
    if 65 <= u && u <= 90 {
        u + 32
    } else {
        u
    }
}

/// Whether two labels are equal up to ASCII case.
pub fn eq_ignore_case(a: &str, b: &str) -> (r: bool)
    ensures
        r == label_matches(a@, b@),
{
    let n = a.unicode_len();
    let m = b.unicode_len();
    if n != m {
        return false;
    }
    let mut i: usize = 0;
    while i < n
        invariant
            i <= n,
            n == a@.len(),
            n == b@.len(),
            forall|j: int| 0 <= j < i ==> lower_code_spec(a@[j]) == lower_code_spec(#[trigger] b@[j]),
        decreases n - i,
    {
        let ca = a.get_char(i);
        let cb = b.get_char(i);
        if lower_code(ca) != lower_code(cb) {
            return false;
        }
        i += 1;
    }
    true
}

} // verus!
