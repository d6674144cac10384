//! Rendering of the city page from the shared template.
use vstd::prelude::*;
use vstd::string::StringSliceAdditionalSpecFns;

verus! {

/// `s` with every occurrence of `pat` replaced by `rep`, scanning left to
/// right without overlap; an empty `pat` leaves `s` as it is.
pub open spec fn replace_all(s: Seq<u8>, pat: Seq<u8>, rep: Seq<u8>) -> Seq<u8>
    decreases s.len(),
{
    if pat.len() == 0 || s.len() < pat.len() {
        s
    } else if s.take(pat.len() as int) == pat {
        rep + replace_all(s.skip(pat.len() as int), pat, rep)
    } else {
        seq![s[0]] + replace_all(s.skip(1), pat, rep)
    }
}

/// The city page: the template with its title, country and time placeholders
/// replaced, in that order.
pub open spec fn page(template: Seq<u8>, title: Seq<u8>, country: Seq<u8>, time: Seq<u8>) -> Seq<u8> {
    replace_all(
        replace_all(replace_all(template, "{{title}}".spec_bytes(), title), "{{country}}".spec_bytes(), country),
        "{{time}}".spec_bytes(),
        time,
    )
}

fn matches_at(s: &[u8], i: usize, pat: &[u8]) -> (r: bool)
    requires
        i + pat@.len() <= s@.len(),
    ensures
        r == (s@.skip(i as int).take(pat@.len() as int) == pat@),
{
    let mut j: usize = 0;
    while j < pat.len()
        invariant
            i + pat@.len() <= s@.len(),
            s@.len() == s.len(),
            j <= pat@.len(),
            forall|k: int| 0 <= k < j ==> s@[i + k] == pat@[k],
        decreases pat@.len() - j,
    {
        if s[i + j] != pat[j] {
            assert(s@.skip(i as int).take(pat@.len() as int)[j as int] != pat@[j as int]);
            return false;
        }
        j = j + 1;
    }
    assert(s@.skip(i as int).take(pat@.len() as int) =~= pat@);
    true
}

/// Replaces every occurrence of `pat` in `s` by `rep`, left to right.
pub fn replace_bytes(s: &[u8], pat: &[u8], rep: &[u8]) -> (r: Vec<u8>)
    ensures
        r@ == replace_all(s@, pat@, rep@),
{
    let mut out: Vec<u8> = Vec::new();
    let mut i: usize = 0;
    assert(s@.skip(0) =~= s@);
    while i < s.len()
        invariant
            i <= s@.len(),
            out@ + replace_all(s@.skip(i as int), pat@, rep@) == replace_all(s@, pat@, rep@),
        decreases s@.len() - i,
    {
        let ghost rest = s@.skip(i as int);
        if pat.len() == 0 || s.len() - i < pat.len() {
            assert(replace_all(rest, pat@, rep@) == rest);
            let ghost before = out@;
            let mut k: usize = i;
            while k < s.len()
                invariant
                    i <= k <= s@.len(),
                    out@ == before + s@.subrange(i as int, k as int),
                decreases s@.len() - k,
            {
                out.push(s[k]);
                assert(s@.subrange(i as int, k + 1) =~= s@.subrange(i as int, k as int).push(s@[k as int]));
                k = k + 1;
            }
            assert(s@.subrange(i as int, s@.len() as int) =~= rest);
            assert(s@.skip(s@.len() as int) =~= Seq::<u8>::empty());
            i = s.len();
        } else if matches_at(s, i, pat) {
            let ghost before = out@;
            let mut k: usize = 0;
            while k < rep.len()
                invariant
                    k <= rep@.len(),
                    out@ == before + rep@.subrange(0, k as int),
                decreases rep@.len() - k,
            {
                out.push(rep[k]);
                assert(rep@.subrange(0, k + 1) =~= rep@.subrange(0, k as int).push(rep@[k as int]));
                k = k + 1;
            }
            assert(rep@.subrange(0, rep@.len() as int) =~= rep@);
            assert(rest.skip(pat@.len() as int) =~= s@.skip(i + pat@.len()));
            assert(out@ + replace_all(s@.skip(i + pat@.len()), pat@, rep@) =~= before + replace_all(
                rest,
                pat@,
                rep@,
            ));
            i = i + pat.len();
        } else {
            let ghost before = out@;
            out.push(s[i]);
            assert(rest.skip(1) =~= s@.skip(i + 1));
            assert(rest[0] == s@[i as int]);
            assert(out@ + replace_all(s@.skip(i + 1), pat@, rep@) =~= before + replace_all(
                rest,
                pat@,
                rep@,
            ));
            i = i + 1;
        }
    }
    assert(s@.skip(s@.len() as int) =~= Seq::<u8>::empty());
    assert(out@ + Seq::<u8>::empty() =~= out@);
    out
}

/// Fills the template's `{{title}}`, `{{country}}` and `{{time}}` tokens.
pub fn render_page(template: &[u8], title: &[u8], country: &[u8], time: &[u8]) -> (r: Vec<u8>)
    ensures
        r@ == page(template@, title@, country@, time@),
{
    let a = replace_bytes(template, "{{title}}".as_bytes(), title);
    let b = replace_bytes(a.as_slice(), "{{country}}".as_bytes(), country);
    replace_bytes(b.as_slice(), "{{time}}".as_bytes(), time)
}

} // verus!
