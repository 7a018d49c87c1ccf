use vstd::prelude::*;
use vstd::string::*;

verus! {

/// `s` with every trailing repetition of `pat` removed (`s` itself when `pat`
/// is empty).
pub open spec fn trim_end_all(s: Seq<char>, pat: Seq<char>) -> Seq<char>
    decreases s.len(),
{
    if pat.len() > 0 && pat.len() <= s.len() && s.subrange(s.len() - pat.len(), s.len() as int)
        == pat {
        trim_end_all(s.subrange(0, s.len() - pat.len()), pat)
    } else {
        s
    }
}

/// Trimming leaves a prefix of `s` that no longer ends with `pat` (for a
/// non-empty `pat`), and trimming again changes nothing.
pub proof fn law_trim_end_leaves_no_suffix(s: Seq<char>, pat: Seq<char>)
    requires
        pat.len() > 0,
    ensures
        trim_end_all(s, pat).len() <= s.len(),
        trim_end_all(s, pat) == s.subrange(0, trim_end_all(s, pat).len() as int),
        !(pat.len() <= trim_end_all(s, pat).len() && trim_end_all(s, pat).subrange(
            trim_end_all(s, pat).len() - pat.len(),
            trim_end_all(s, pat).len() as int,
        ) == pat),
        trim_end_all(trim_end_all(s, pat), pat) == trim_end_all(s, pat),
    decreases s.len(),
{
    if pat.len() <= s.len() && s.subrange(s.len() - pat.len(), s.len() as int) == pat {
        let shorter = s.subrange(0, s.len() - pat.len());
        law_trim_end_leaves_no_suffix(shorter, pat);
        let t = trim_end_all(shorter, pat);
        assert(s.subrange(0, t.len() as int) =~= shorter.subrange(0, t.len() as int));
    } else {
        assert(s.subrange(0, s.len() as int) =~= s);
    }
}

/// `s` with every occurrence of `pat` deleted, matches taken from left to
/// right without overlap (`s` itself when `pat` is empty).
pub open spec fn remove_all(s: Seq<char>, pat: Seq<char>) -> Seq<char>
    decreases s.len(),
{
    if s.len() == 0 || pat.len() == 0 {
        s
    } else if pat.len() <= s.len() && s.subrange(0, pat.len() as int) == pat {
        remove_all(s.subrange(pat.len() as int, s.len() as int), pat)
    } else {
        seq![s[0]] + remove_all(s.subrange(1, s.len() as int), pat)
    }
}

/// Deleting `pat` leaves a text without any occurrence of `pat` unchanged,
/// and a leading `pat` is simply dropped.
pub proof fn law_remove_all_basics(s: Seq<char>, pat: Seq<char>)
    requires
        pat.len() > 0,
    ensures
        (forall|i: int|
            0 <= i && i + pat.len() <= s.len() ==> #[trigger] s.subrange(i, i + pat.len())
                != pat) ==> remove_all(s, pat) == s,
        remove_all(pat + s, pat) == remove_all(s, pat),
    decreases s.len(),
{
    assert((pat + s).subrange(0, pat.len() as int) =~= pat);
    assert((pat + s).subrange(pat.len() as int, (pat + s).len() as int) =~= s);
    if s.len() > 0 && (forall|i: int|
        0 <= i && i + pat.len() <= s.len() ==> #[trigger] s.subrange(i, i + pat.len()) != pat) {
        let rest = s.subrange(1, s.len() as int);
        assert forall|i: int| 0 <= i && i + pat.len() <= rest.len() implies #[trigger] rest.subrange(
            i,
            i + pat.len(),
        ) != pat by {
            assert(rest.subrange(i, i + pat.len()) =~= s.subrange(i + 1, i + 1 + pat.len()));
        }
        law_remove_all_basics(rest, pat);
        if pat.len() <= s.len() {
            assert(s.subrange(0, 0 + pat.len() as int) != pat);
        }
        assert(seq![s[0]] + rest =~= s);
    }
}

/// Whether `pat` occurs in `s` at character position `start`.
pub fn matches_at(s: &str, start: usize, pat: &str) -> (found: bool)
    requires
        start <= s@.len(),
    ensures
        found == (start + pat@.len() <= s@.len() && s@.subrange(
            start as int,
            start + pat@.len(),
        ) == pat@),
{
    let n = s.unicode_len();
    let p = pat.unicode_len();
    if p > n - start {
        return false;
    }
    let mut i: usize = 0;
    while i < p
        invariant
            i <= p,
            start + p <= n,
            n == s@.len(),
            p == pat@.len(),
            forall|j: int| 0 <= j < i ==> s@[start + j] == pat@[j],
        decreases p - i,
    {
        if s.get_char(start + i) != pat.get_char(i) {
            assert(s@.subrange(start as int, start + p)[i as int] != pat@[i as int]);
            return false;
        }
        i = i + 1;
    }
    assert(s@.subrange(start as int, start + p) =~= pat@);
    true
}

/// Whether two strings hold the same characters.
pub fn same_text(a: &str, b: &str) -> (same: bool)
    ensures
        same == (a@ == b@),
{
    if a.unicode_len() != b.unicode_len() {
        return false;
    }
    let found = matches_at(a, 0, b);
    assert(a@.subrange(0, a@.len() as int) =~= a@);
    found
}

/// `s` without any trailing repetitions of `pat`, like `str::trim_end_matches`.
pub fn trim_end_matches(s: &str, pat: &str) -> (trimmed: String)
    ensures
        trimmed@ == trim_end_all(s@, pat@),
{
    let n = s.unicode_len();
    let p = pat.unicode_len();
    let mut end = n;
    assert(s@.subrange(0, n as int) =~= s@);
    if p > 0 {
        while p <= end && matches_at(s, end - p, pat)
            invariant
                end <= n,
                n == s@.len(),
                p == pat@.len(),
                p > 0,
                trim_end_all(s@.subrange(0, end as int), pat@) == trim_end_all(s@, pat@),
            decreases end,
        {
            let ghost prefix = s@.subrange(0, end as int);
            assert(prefix.subrange(prefix.len() - p, prefix.len() as int) =~= s@.subrange(
                end - p,
                end as int,
            ));
            assert(prefix.subrange(0, prefix.len() - p) =~= s@.subrange(0, end - p));
            end = end - p;
        }
        proof {
            let prefix = s@.subrange(0, end as int);
            if p <= end {
                assert(prefix.subrange(prefix.len() - p, prefix.len() as int) =~= s@.subrange(
                    end - p,
                    end as int,
                ));
            }
        }
    }
    let kept = String::from_str(s.substring_char(0, end));
    kept
}

/// `s` with every occurrence of `pat` deleted, like `s.replace(pat, "")`.
pub fn remove_matches(s: &str, pat: &str) -> (cleaned: String)
    ensures
        cleaned@ == remove_all(s@, pat@),
{
    let n = s.unicode_len();
    let p = pat.unicode_len();
    if p == 0 {
        return String::from_str(s);
    }
    let mut out = String::new();
    let mut i: usize = 0;
    assert(s@.subrange(0, n as int) =~= s@);
    while i < n
        invariant
            i <= n,
            n == s@.len(),
            p == pat@.len(),
            p > 0,
            out@ + remove_all(s@.subrange(i as int, n as int), pat@) == remove_all(s@, pat@),
        decreases n - i,
    {
        let ghost rest = s@.subrange(i as int, n as int);
        if matches_at(s, i, pat) {
            assert(rest.subrange(0, p as int) =~= s@.subrange(i as int, i + p));
            assert(rest.subrange(p as int, rest.len() as int) =~= s@.subrange(i + p, n as int));
            i = i + p;
        } else {
            proof {
                if p <= rest.len() {
                    assert(rest.subrange(0, p as int) =~= s@.subrange(i as int, i + p));
                }
            }
            assert(rest.subrange(1, rest.len() as int) =~= s@.subrange(i + 1, n as int));
            let piece = s.substring_char(i, i + 1);
            assert(piece@ =~= seq![rest[0]]);
            let ghost before = out@;
            out.append(piece);
            assert(out@ + remove_all(s@.subrange(i + 1, n as int), pat@) =~= before + (seq![
                rest[0],
            ] + remove_all(s@.subrange(i + 1, n as int), pat@)));
            i = i + 1;
        }
    }
    assert(out@ + remove_all(s@.subrange(n as int, n as int), pat@) =~= out@);
    out
}

} // verus!
