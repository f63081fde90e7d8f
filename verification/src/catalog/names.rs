//! Names of tables.

use vstd::prelude::*;
use vstd::string::*;

verus! {

/// The characters of a text.
pub fn chars_of(s: &str) -> (r: Vec<char>)
    ensures
        r@ == s@,
{
    let n: usize = s.unicode_len();
    let mut r: Vec<char> = Vec::new();
    let mut i: usize = 0;
    while i < n
        invariant
            i <= n,
            n == s@.len(),
            r@ == s@.take(i as int),
        decreases n - i,
    {
        r.push(s.get_char(i));
        i = i + 1;
        assert(r@ =~= s@.take(i as int));
    }
    assert(s@.take(i as int) =~= s@);
    r
}

/// What the names of internal tables start with.
pub open spec fn internal_prefix() -> Seq<char> {
    seq!['_', '_', 'i', 'n', 't', 'e', 'r', 'n', 'a', 'l', '_']
}

pub open spec fn is_digit(c: char) -> bool {
    '0' <= c && c <= '9'
}

/// From `i` on, `s` reads like the name of an internal table: the prefix, anything on the same
/// line, and, at `j`, an underscore with a digit behind it.
pub open spec fn internal_name_at(s: Seq<char>, i: int, j: int) -> bool {
    &&& 0 <= i
    &&& i + internal_prefix().len() <= j
    &&& j + 1 < s.len()
    &&& s.subrange(i, i + internal_prefix().len()) == internal_prefix()
    &&& s[j] == '_'
    &&& is_digit(s[j + 1])
    &&& forall|k: int| i + internal_prefix().len() <= k < j ==> s[k] != '\n'
}

/// The name holds the name of an internal table.
pub open spec fn internal_name(s: Seq<char>) -> bool {
    exists|i: int, j: int| internal_name_at(s, i, j)
}

/// Whether the internal prefix stands at `i`.
fn prefix_at(s: &Vec<char>, i: usize) -> (r: bool)
    requires
        i + 11 <= s@.len(),
    ensures
        r == (s@.subrange(i as int, i + 11) == internal_prefix()),
{
    let n: usize = s.len();
    let r = s[i] == '_' && s[i + 1] == '_' && s[i + 2] == 'i' && s[i + 3] == 'n' && s[i + 4] == 't'
        && s[i + 5] == 'e' && s[i + 6] == 'r' && s[i + 7] == 'n' && s[i + 8] == 'a' && s[i + 9]
        == 'l' && s[i + 10] == '_';
    proof {
        let a = s@.subrange(i as int, i + 11);
        let p = internal_prefix();
        if r {
            assert(a =~= p);
        }
        if a == p {
            assert(forall|k: int| 0 <= k < 11 ==> a[k] == s@[i + k]);
            assert(a[0] == p[0] && a[1] == p[1] && a[2] == p[2] && a[3] == p[3] && a[4] == p[4]
                && a[5] == p[5] && a[6] == p[6] && a[7] == p[7] && a[8] == p[8] && a[9] == p[9]
                && a[10] == p[10]);
        }
    }
    r
}

/// Whether a table of this name is no internal table.
pub fn valid_table_name(name: &str) -> (r: bool)
    ensures
        r == !internal_name(name@),
{
    let s = chars_of(name);
    let n: usize = s.len();
    if n < 11 {
        assert forall|i: int, j: int| !internal_name_at(s@, i, j) by {}
        return true;
    }
    let mut i: usize = 0;
    while i <= n - 11
        invariant
            n == s@.len(),
            n >= 11,
            i <= n - 10,
            s@ == name@,
            forall|a: int, b: int| 0 <= a < i ==> !internal_name_at(s@, a, b),
        decreases n - i,
    {
        if prefix_at(&s, i) {
            let mut j: usize = i + 11;
            while j < n - 1
                invariant
                    n == s@.len(),
                    n >= 11,
                    i + 11 <= j <= n,
                    s@ == name@,
                    s@.subrange(i as int, i + 11) == internal_prefix(),
                    forall|b: int| b < j ==> !internal_name_at(s@, i as int, b),
                    j < n - 1 ==> forall|k: int| i + 11 <= k < j ==> s@[k] != '\n',
                decreases n - j,
            {
                if s[j] == '_' && s[j + 1] >= '0' && s[j + 1] <= '9' {
                    assert(internal_name_at(s@, i as int, j as int));
                    return false;
                }
                if s[j] == '\n' {
                    assert forall|b: int| !internal_name_at(s@, i as int, b) by {
                        if b > j {
                            assert(s@[j as int] == '\n');
                        }
                    }
                    j = n;
                } else {
                    j = j + 1;
                }
            }
            assert forall|b: int| !internal_name_at(s@, i as int, b) by {}
        }
        i = i + 1;
    }
    assert forall|a: int, b: int| !internal_name_at(s@, a, b) by {}
    true
}

} // verus!
