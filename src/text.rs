use vstd::prelude::*;

verus! {

/// Relies on `String::push`: appends one character.
#[verifier::external_body]
pub(crate) fn push_char(s: &mut String, c: char)
    ensures
        final(s)@ == old(s)@.push(c),
{
    s.push(c)
}

/// Whether `text` spells `word` exactly.
pub fn spells(text: &String, word: &str) -> (r: bool)
    ensures
        r == (text@ == word@),
{
    let t = text.as_str();
    let n = t.unicode_len();
    if n != word.unicode_len() {
        return false;
    }
    let mut k: usize = 0;
    while k < n
        invariant
            t@ == text@,
            n == t@.len(),
            n == word@.len(),
            k <= n,
            forall|m: int| 0 <= m < k ==> t@[m] == word@[m],
        decreases n - k,
    {
        if t.get_char(k) != word.get_char(k) {
            return false;
        }
        k = k + 1;
    }
    proof {
        assert(t@ =~= word@);
    }
    true
}

/// Whether `text` begins with `prefix`.
pub fn has_prefix(text: &String, prefix: &str) -> (r: bool)
    ensures
        r == (prefix@.len() <= text@.len() && text@.subrange(0, prefix@.len() as int) == prefix@),
{
    let t = text.as_str();
    let n = prefix.unicode_len();
    if n > t.unicode_len() {
        return false;
    }
    let mut k: usize = 0;
    while k < n
        invariant
            t@ == text@,
            n == prefix@.len(),
            n <= t@.len(),
            k <= n,
            forall|m: int| 0 <= m < k ==> t@[m] == prefix@[m],
        decreases n - k,
    {
        if t.get_char(k) != prefix.get_char(k) {
            assert(text@.subrange(0, n as int)[k as int] != prefix@[k as int]);
            return false;
        }
        k = k + 1;
    }
    proof {
        assert(text@.subrange(0, n as int) =~= prefix@);
    }
    true
}

} // verus!
