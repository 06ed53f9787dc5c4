//! Substring replacement with the semantics of `str::replace`: every
//! non-overlapping occurrence of the pattern, scanning left to right, is
//! replaced.

use vstd::prelude::*;

use crate::strings::{chars_of, push_char};

verus! {

/// `pat` occurs in `s` at `i`.
pub open spec fn occurs_at(s: Seq<char>, pat: Seq<char>, i: int) -> bool {
    0 <= i && i + pat.len() <= s.len() && s.subrange(i, i + pat.len()) == pat
}

/// `rep` before every character of `s` and once more at its end: what
/// replacing the empty pattern gives.
pub open spec fn interleave(s: Seq<char>, rep: Seq<char>) -> Seq<char>
    decreases s.len(),
{
    if s.len() == 0 {
        rep
    } else {
        rep + seq![s[0]] + interleave(s.skip(1), rep)
    }
}

/// `s` with every non-overlapping occurrence of `pat`, taken from the left,
/// replaced by `rep`.  The empty pattern occurs before every character and
/// at the end.
pub open spec fn replace_all(s: Seq<char>, pat: Seq<char>, rep: Seq<char>) -> Seq<char>
    decreases s.len(),
{
    if pat.len() == 0 {
        interleave(s, rep)
    } else if s.len() == 0 {
        s
    } else if occurs_at(s, pat, 0) {
        rep + replace_all(s.skip(pat.len() as int), pat, rep)
    } else {
        seq![s[0]] + replace_all(s.skip(1), pat, rep)
    }
}

fn occurs_at_exec(s: &Vec<char>, pat: &Vec<char>, i: usize) -> (r: bool)
    requires
        i <= s@.len(),
    ensures
        r == occurs_at(s@, pat@, i as int),
{
    if pat.len() > s.len() - i {
        return false;
    }
    let mut k: usize = 0;
    while k < pat.len()
        invariant
            i + pat@.len() <= s.len(),
            k <= pat@.len(),
            forall|j: int| 0 <= j < k ==> s@[i + j] == pat@[j],
        decreases pat@.len() - k,
    {
        if s[i + k] != pat[k] {
            assert(s@.subrange(i as int, i + pat@.len())[k as int] != pat@[k as int]);
            return false;
        }
        k += 1;
    }
    assert(s@.subrange(i as int, i + pat@.len()) =~= pat@);
    true
}

/// `s` with every occurrence of `pat` replaced by `rep`, as
/// `s.replace(pat, rep)` computes it.
pub fn replace_all_str(s: &str, pat: &str, rep: &str) -> (out: String)
    ensures
        out@ == replace_all(s@, pat@, rep@),
{
    let pv = chars_of(pat);
    if pv.len() == 0 {
        interleave_str(s, rep)
    } else {
        replace_nonempty(s, pat, rep)
    }
}

fn push_chars(out: &mut String, v: &Vec<char>)
    ensures
        final(out)@ == old(out)@ + v@,
{
    let mut k: usize = 0;
    while k < v.len()
        invariant
            k <= v@.len(),
            out@ == old(out)@ + v@.take(k as int),
        decreases v@.len() - k,
    {
        push_char(out, v[k]);
        assert(v@.take(k + 1) =~= v@.take(k as int).push(v@[k as int]));
        k += 1;
    }
    assert(v@.take(v@.len() as int) =~= v@);
}

fn interleave_str(s: &str, rep: &str) -> (out: String)
    ensures
        out@ == interleave(s@, rep@),
{
    let sv = chars_of(s);
    let rv = chars_of(rep);
    let mut out = String::new();
    let mut i: usize = 0;
    assert(sv@.skip(0) =~= sv@);
    while i < sv.len()
        invariant
            sv@ == s@,
            rv@ == rep@,
            i <= sv@.len(),
            out@ + interleave(sv@.skip(i as int), rv@) == interleave(s@, rep@),
        decreases sv@.len() - i,
    {
        let ghost rest = sv@.skip(i as int);
        let ghost before = out@;
        push_chars(&mut out, &rv);
        push_char(&mut out, sv[i]);
        assert(rest.skip(1) =~= sv@.skip(i + 1));
        assert(rest[0] == sv@[i as int]);
        assert(out@ + interleave(sv@.skip(i + 1), rv@) =~= before + interleave(rest, rv@));
        i = i + 1;
    }
    push_chars(&mut out, &rv);
    assert(sv@.skip(sv@.len() as int) =~= Seq::<char>::empty());
    assert(out@ =~= interleave(s@, rep@));
    out
}

fn replace_nonempty(s: &str, pat: &str, rep: &str) -> (out: String)
    requires
        pat@.len() > 0,
    ensures
        out@ == replace_all(s@, pat@, rep@),
{
    let sv = chars_of(s);
    let pv = chars_of(pat);
    let rv = chars_of(rep);
    let mut out = String::new();
    let mut i: usize = 0;
    assert(sv@.skip(0) =~= sv@);
    while i < sv.len()
        invariant
            sv@ == s@,
            pv@ == pat@,
            rv@ == rep@,
            pat@.len() > 0,
            i <= sv@.len(),
            out@ + replace_all(sv@.skip(i as int), pv@, rv@) == replace_all(s@, pat@, rep@),
        decreases sv@.len() - i,
    {
        let ghost rest = sv@.skip(i as int);
        let ghost before = out@;
        if occurs_at_exec(&sv, &pv, i) {
            assert(rest.subrange(0, pv@.len() as int) =~= sv@.subrange(i as int, i + pv@.len()));
            assert(occurs_at(rest, pv@, 0));
            let mut k: usize = 0;
            while k < rv.len()
                invariant
                    k <= rv@.len(),
                    out@ == before + rv@.take(k as int),
                decreases rv@.len() - k,
            {
                push_char(&mut out, rv[k]);
                assert(rv@.take(k + 1) =~= rv@.take(k as int).push(rv@[k as int]));
                k += 1;
            }
            assert(rv@.take(rv@.len() as int) =~= rv@);
            assert(rest.skip(pv@.len() as int) =~= sv@.skip(i + pv@.len()));
            assert(out@ + replace_all(sv@.skip(i + pv@.len()), pv@, rv@) =~= before
                + replace_all(rest, pv@, rv@));
            i = i + pv.len();
        } else {
            proof {
                if i + pv@.len() <= sv@.len() {
                    assert(rest.subrange(0, pv@.len() as int) =~= sv@.subrange(
                        i as int,
                        i + pv@.len(),
                    ));
                }
            }
            assert(!occurs_at(rest, pv@, 0));
            push_char(&mut out, sv[i]);
            assert(rest.skip(1) =~= sv@.skip(i + 1));
            assert(rest[0] == sv@[i as int]);
            assert(out@ + replace_all(sv@.skip(i + 1), pv@, rv@) =~= before + replace_all(
                rest,
                pv@,
                rv@,
            ));
            i = i + 1;
        }
    }
    assert(sv@.skip(sv@.len() as int) =~= Seq::<char>::empty());
    assert(out@ =~= replace_all(s@, pat@, rep@));
    out
}

// ---------------------------------------------------------------------------
// Laws
// ---------------------------------------------------------------------------

/// Text that does not contain the pattern passes through unchanged.
pub proof fn replace_without_match_is_identity(s: Seq<char>, pat: Seq<char>, rep: Seq<char>)
    requires
        pat.len() > 0,
        forall|i: int| !occurs_at(s, pat, i),
    ensures
        replace_all(s, pat, rep) == s,
    decreases s.len(),
{
    if s.len() > 0 {
        assert forall|i: int| !occurs_at(s.skip(1), pat, i) by {
            if occurs_at(s.skip(1), pat, i) {
                assert(s.subrange(i + 1, i + 1 + pat.len()) =~= s.skip(1).subrange(
                    i,
                    i + pat.len(),
                ));
                assert(occurs_at(s, pat, i + 1));
            }
        }
        replace_without_match_is_identity(s.skip(1), pat, rep);
        assert(s =~= seq![s[0]] + s.skip(1));
    }
}

/// A text that is exactly the pattern becomes exactly the replacement.
pub proof fn replace_whole_pattern(pat: Seq<char>, rep: Seq<char>)
    requires
        pat.len() > 0,
    ensures
        replace_all(pat, pat, rep) == rep,
{
    assert(pat.subrange(0, pat.len() as int) =~= pat);
    assert(pat.skip(pat.len() as int) =~= Seq::<char>::empty());
    assert(replace_all(Seq::<char>::empty(), pat, rep) == Seq::<char>::empty());
    assert(rep + Seq::<char>::empty() =~= rep);
}

} // verus!
