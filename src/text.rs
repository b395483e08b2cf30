//! Small helpers for moving between `str`/`String` and character sequences.
use vstd::prelude::*;

verus! {

/// The characters of `s`, in order.
pub fn chars_of(s: &str) -> (r: Vec<char>)
    ensures
        r@ == s@,
{
    let mut v: Vec<char> = Vec::new();
    for c in it: s.chars()
        invariant
            v@ == it.seq().take(it.index() as int),
            it.seq() == s@,
    {
        v.push(c);
    }
    v
}

/// Relies on `String::push`: appends one character at the end.
#[verifier::external_body]
pub(crate) fn push_char(s: &mut String, c: char)
    ensures
        final(s)@ == old(s)@.push(c),
{
    s.push(c)
}

/// Whether `v[pos..]` begins with the characters of `lit`.
pub fn matches_at(v: &Vec<char>, pos: usize, lit: &str) -> (r: bool)
    requires
        pos <= v.len(),
    ensures
        r == (pos + lit@.len() <= v.len() && v@.subrange(pos as int, pos + lit@.len()) == lit@),
{
    let l = chars_of(lit);
    if l.len() > v.len() - pos {
        return false;
    }
    let mut i: usize = 0;
    while i < l.len()
        invariant
            i <= l.len(),
            pos + l.len() <= v.len(),
            l@ == lit@,
            forall|k: int| 0 <= k < i ==> v@[pos + k] == l@[k],
        decreases l.len() - i,
    {
        if v[pos + i] != l[i] {
            assert(v@.subrange(pos as int, pos + lit@.len())[i as int] != lit@[i as int]);
            return false;
        }
        i = i + 1;
    }
    assert(v@.subrange(pos as int, pos + lit@.len()) =~= lit@);
    true
}

} // verus!
