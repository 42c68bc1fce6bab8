//! Character sequences: searching for a pattern and taking its occurrences out.

use vstd::prelude::*;

verus! {

/// `pat` stands in `s` at position `i`.
pub open spec fn occurs_at(s: Seq<char>, pat: Seq<char>, i: int) -> bool {
    &&& 0 <= i
    &&& i + pat.len() <= s.len()
    &&& s.subrange(i, i + pat.len()) == pat
}

/// `pat` stands somewhere in `s`.
pub open spec fn occurs(s: Seq<char>, pat: Seq<char>) -> bool {
    exists|i: int| occurs_at(s, pat, i)
}

/// `s` with the occurrences of `pat` taken out, found from left to right and
/// never overlapping. What is left is not searched again, so the result may
/// itself hold `pat`. An empty pattern takes nothing out.
pub open spec fn without(s: Seq<char>, pat: Seq<char>) -> Seq<char>
    decreases s.len(),
{
    if pat.len() == 0 || s.len() < pat.len() {
        s
    } else if occurs_at(s, pat, 0) {
        without(s.skip(pat.len() as int), pat)
    } else {
        seq![s[0]] + without(s.skip(1), pat)
    }
}

/// An occurrence in what follows the first `k` characters is an occurrence
/// `k` places further on in the whole.
pub proof fn lemma_occurs_at_skip(s: Seq<char>, pat: Seq<char>, k: int, i: int)
    requires
        0 <= k <= s.len(),
        0 <= i,
    ensures
        occurs_at(s.skip(k), pat, i) == occurs_at(s, pat, k + i),
{
    if k + i + pat.len() <= s.len() {
        assert(s.skip(k).subrange(i, i + pat.len()) =~= s.subrange(k + i, k + i + pat.len()));
    }
}

/// Where the pattern stands nowhere, nothing is taken out.
pub proof fn lemma_without_absent(s: Seq<char>, pat: Seq<char>)
    requires
        !occurs(s, pat),
    ensures
        without(s, pat) == s,
    decreases s.len(),
{
    if pat.len() == 0 || s.len() < pat.len() {
    } else {
        assert(!occurs_at(s, pat, 0));
        let rest = s.skip(1);
        assert forall|i: int| !occurs_at(rest, pat, i) by {
            if 0 <= i {
                lemma_occurs_at_skip(s, pat, 1, i);
                assert(!occurs_at(s, pat, 1 + i));
            }
        }
        lemma_without_absent(rest, pat);
        assert(seq![s[0]] + rest =~= s);
    }
}

/// A pattern at the very start is taken out, and the search goes on behind it.
pub proof fn lemma_without_at_start(pat: Seq<char>, s: Seq<char>)
    ensures
        without(pat + s, pat) == without(s, pat),
{
    let whole = pat + s;
    if pat.len() == 0 {
        assert(whole =~= s);
    } else {
        assert(whole.subrange(0, pat.len() as int) =~= pat);
        assert(whole.skip(pat.len() as int) =~= s);
    }
}

/// One character taken out of a sequence that holds it first at a known
/// place: what stands before stays, and the search goes on behind.
pub proof fn lemma_without_char_split(before: Seq<char>, c: char, after: Seq<char>)
    requires
        !before.contains(c),
    ensures
        without(before + seq![c] + after, seq![c]) == before + without(after, seq![c]),
    decreases before.len(),
{
    let pat = seq![c];
    let whole = before + pat + after;
    if before.len() == 0 {
        assert(before + pat =~= pat);
        lemma_without_at_start(pat, after);
        assert(before + without(after, pat) =~= without(after, pat));
    } else {
        assert(before.contains(before[0]));
        assert(whole[0] == before[0]);
        assert(whole.subrange(0, 1)[0] == whole[0]);
        assert(!occurs_at(whole, pat, 0));
        let shorter = before.skip(1);
        assert forall|i: int| 0 <= i < shorter.len() implies shorter[i] != c by {
            assert(before.contains(before[i + 1]));
        }
        lemma_without_char_split(shorter, c, after);
        assert(whole.skip(1) =~= shorter + pat + after);
        assert(seq![whole[0]] + (shorter + without(after, pat)) =~= before + without(after, pat));
    }
}

/// Every character of what is left was a character of the whole.
pub proof fn lemma_without_keeps_only(s: Seq<char>, pat: Seq<char>, i: int)
    requires
        0 <= i < without(s, pat).len(),
    ensures
        s.contains(without(s, pat)[i]),
    decreases s.len(),
{
    if pat.len() == 0 || s.len() < pat.len() {
    } else if occurs_at(s, pat, 0) {
        let rest = s.skip(pat.len() as int);
        lemma_without_keeps_only(rest, pat, i);
        let j = choose|j: int| 0 <= j < rest.len() && rest[j] == without(rest, pat)[i];
        assert(s[j + pat.len()] == rest[j]);
    } else {
        let rest = s.skip(1);
        if i == 0 {
            assert(s[0] == without(s, pat)[0]);
        } else {
            lemma_without_keeps_only(rest, pat, i - 1);
            let j = choose|j: int| 0 <= j < rest.len() && rest[j] == without(rest, pat)[i - 1];
            assert(s[j + 1] == rest[j]);
        }
    }
}

/// With a single character taken out, that character is nowhere left.
pub proof fn lemma_without_char(s: Seq<char>, c: char, i: int)
    requires
        0 <= i < without(s, seq![c]).len(),
    ensures
        without(s, seq![c])[i] != c,
    decreases s.len(),
{
    let pat = seq![c];
    if s.len() < 1 {
    } else if occurs_at(s, pat, 0) {
        lemma_without_char(s.skip(1), c, i);
    } else {
        if i == 0 {
            if s[0] == c {
                assert(s.subrange(0, 1) =~= pat);
            }
        } else {
            lemma_without_char(s.skip(1), c, i - 1);
        }
    }
}

/// `String::push` of the standard library: the string gains the one
/// character at its end, and nothing else of it changes.
#[verifier::external_body]
fn push_char(s: &mut String, c: char)
    ensures
        final(s)@ == old(s)@.push(c),
{
    s.push(c);
}

/// The characters of `s`, in order.
pub fn chars_of(s: &str) -> (out: Vec<char>)
    ensures
        out@ == s@,
{
    let mut out: Vec<char> = Vec::new();
    for c in it: s.chars()
        invariant
            it.seq() == s@,
            out@ == s@.take(it.index()),
    {
        out.push(c);
    }
    out
}

/// The string made of `chars`, in order.
pub fn string_of(chars: &Vec<char>) -> (out: String)
    ensures
        out@ == chars@,
{
    let mut out = String::new();
    let mut i: usize = 0;
    while i < chars.len()
        invariant
            i <= chars.len(),
            out@ == chars@.take(i as int),
        decreases chars.len() - i,
    {
        push_char(&mut out, chars[i]);
        i = i + 1;
        assert(chars@.take(i as int) =~= chars@.take(i - 1).push(chars@[i - 1]));
    }
    assert(chars@.take(i as int) =~= chars@);
    out
}

/// Whether two character vectors hold the same characters.
pub fn same_chars(a: &Vec<char>, b: &Vec<char>) -> (r: bool)
    ensures
        r == (a@ == b@),
{
    if a.len() != b.len() {
        return false;
    }
    let mut i: usize = 0;
    while i < a.len()
        invariant
            i <= a.len(),
            a.len() == b.len(),
            forall|k: int| 0 <= k < i ==> a@[k] == b@[k],
        decreases a.len() - i,
    {
        if a[i] != b[i] {
            return false;
        }
        i = i + 1;
    }
    assert(a@ =~= b@);
    true
}

/// Whether `pat` stands in `s` at position `i`.
pub fn matches_at(s: &Vec<char>, pat: &Vec<char>, i: usize) -> (r: bool)
    ensures
        r == occurs_at(s@, pat@, i as int),
{
    if i > s.len() || pat.len() > s.len() - i {
        return false;
    }
    let mut j: usize = 0;
    while j < pat.len()
        invariant
            j <= pat.len(),
            i + pat.len() <= s.len(),
            forall|k: int| 0 <= k < j ==> s@[i + k] == pat@[k],
        decreases pat.len() - j,
    {
        if s[i + j] != pat[j] {
            assert(s@.subrange(i as int, i + pat.len())[j as int] == s@[i + j]);
            return false;
        }
        j = j + 1;
    }
    assert(s@.subrange(i as int, i + pat.len()) =~= pat@);
    true
}

/// Whether `pat` stands somewhere in `s`.
pub fn contains(s: &Vec<char>, pat: &Vec<char>) -> (r: bool)
    ensures
        r == occurs(s@, pat@),
{
    if pat.len() > s.len() {
        return false;
    }
    let last: usize = s.len() - pat.len();
    let mut i: usize = 0;
    while i <= last
        invariant
            i <= last + 1,
            last == s.len() - pat.len(),
            forall|k: int| 0 <= k < i ==> !occurs_at(s@, pat@, k),
        decreases last + 1 - i,
    {
        if matches_at(s, pat, i) {
            return true;
        }
        if i == last {
            return false;
        }
        i = i + 1;
    }
    false
}

/// `s` with the occurrences of `pat` taken out.
pub fn remove_all(s: &Vec<char>, pat: &Vec<char>) -> (out: Vec<char>)
    ensures
        out@ == without(s@, pat@),
{
    let mut out: Vec<char> = Vec::new();
    let mut i: usize = 0;
    assert(s@.skip(0) =~= s@);
    assert(out@ + without(s@, pat@) =~= without(s@, pat@));
    while i < s.len()
        invariant
            i <= s.len(),
            without(s@, pat@) == out@ + without(s@.skip(i as int), pat@),
        decreases s.len() - i,
    {
        let ghost rest = s@.skip(i as int);
        if pat.len() > 0 && matches_at(s, pat, i) {
            proof {
                lemma_occurs_at_skip(s@, pat@, i as int, 0);
                assert(rest.skip(pat.len() as int) =~= s@.skip(i + pat.len()));
            }
            i = i + pat.len();
        } else {
            proof {
                lemma_occurs_at_skip(s@, pat@, i as int, 0);
                assert(rest.skip(1) =~= s@.skip(i + 1));
                assert(rest[0] == s@[i as int]);
                if pat.len() == 0 || rest.len() < pat.len() {
                    assert(rest =~= seq![rest[0]] + rest.skip(1));
                }
                assert(out@.push(s@[i as int]) + without(rest.skip(1), pat@) =~= out@ + (seq![
                    rest[0],
                ] + without(rest.skip(1), pat@)));
            }
            out.push(s[i]);
            i = i + 1;
        }
    }
    assert(out@ + without(s@.skip(i as int), pat@) =~= out@);
    out
}

} // verus!
