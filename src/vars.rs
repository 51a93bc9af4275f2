//! Placeholder substitution in environment-variable values: every `%NAME%`
//! bound to a known variable is replaced by that variable's value.

use vstd::prelude::*;
use crate::text::{chars_of, string_of, concat_chars};

verus! {

/// `s` with every non-overlapping occurrence of `pat`, scanned from the
/// left, replaced by `rep`; unchanged when `pat` is empty.
pub open spec fn replaced(s: Seq<char>, pat: Seq<char>, rep: Seq<char>) -> Seq<char>
    decreases s.len(),
{
    if pat.len() == 0 || s.len() < pat.len() {
        s
    } else if s.take(pat.len() as int) == pat {
        rep + replaced(s.skip(pat.len() as int), pat, rep)
    } else {
        seq![s[0]] + replaced(s.skip(1), pat, rep)
    }
}

/// The placeholder that stands for the variable `name`.
pub open spec fn placeholder(name: Seq<char>) -> Seq<char> {
    "%"@ + name + "%"@
}

/// `val` after substituting each binding of `vars` in turn.
pub open spec fn substituted(val: Seq<char>, vars: Seq<(Seq<char>, Seq<char>)>) -> Seq<char>
    decreases vars.len(),
{
    if vars.len() == 0 {
        val
    } else {
        let (k, v) = vars.last();
        replaced(substituted(val, vars.drop_last()), placeholder(k), v)
    }
}

/// The character views of a list of name/value bindings.
pub open spec fn binding_views(v: Seq<(String, String)>) -> Seq<(Seq<char>, Seq<char>)> {
    v.map_values(|p: (String, String)| (p.0@, p.1@))
}

/// Exec form of `replaced` on character vectors.
pub(crate) fn replace_chars(s: &Vec<char>, pat: &Vec<char>, rep: &Vec<char>) -> (r: Vec<char>)
    ensures
        r@ == replaced(s@, pat@, rep@),
{
    if pat.len() == 0 {
        return crate::text::slice_chars(s, 0, s.len());
    }
    let mut out: Vec<char> = Vec::new();
    let mut i: usize = 0;
    assert(s@.skip(0) =~= s@);
    assert(out@ + replaced(s@, pat@, rep@) =~= replaced(s@, pat@, rep@));
    while i < s.len()
        invariant
            pat.len() > 0,
            i <= s.len(),
            out@ + replaced(s@.skip(i as int), pat@, rep@) == replaced(s@, pat@, rep@),
        decreases s.len() - i,
    {
        let ghost rest = s@.skip(i as int);
        if s.len() - i >= pat.len() && starts_at(s, pat, i) {
            assert(rest.take(pat.len() as int) =~= s@.subrange(i as int, i + pat.len()));
            assert(rest.skip(pat.len() as int) =~= s@.skip(i + pat.len()));
            let mut k: usize = 0;
            let ghost before = out@;
            while k < rep.len()
                invariant
                    k <= rep.len(),
                    out@ == before + rep@.take(k as int),
                decreases rep.len() - k,
            {
                out.push(rep[k]);
                k += 1;
                assert(out@ =~= before + rep@.take(k as int));
            }
            assert(rep@.take(k as int) =~= rep@);
            assert(before + (rep@ + replaced(s@.skip(i + pat.len()), pat@, rep@)) =~= out@
                + replaced(s@.skip(i + pat.len()), pat@, rep@));
            i += pat.len();
        } else {
            if s.len() - i >= pat.len() {
                assert(rest.take(pat.len() as int) =~= s@.subrange(i as int, i + pat.len()));
            }
            assert(rest.skip(1) =~= s@.skip(i + 1));
            assert(rest[0] == s@[i as int]);
            let ghost before = out@;
            out.push(s[i]);
            if s.len() - i < pat.len() {
                assert(replaced(rest, pat@, rep@) == rest);
                assert(replaced(rest.skip(1), pat@, rep@) == rest.skip(1));
                assert(rest =~= seq![s@[i as int]] + rest.skip(1));
            }
            assert(before + (seq![s@[i as int]] + replaced(s@.skip(i + 1), pat@, rep@)) =~= out@
                + replaced(s@.skip(i + 1), pat@, rep@));
            i += 1;
        }
    }
    assert(s@.skip(i as int) =~= Seq::<char>::empty());
    assert(out@ + Seq::<char>::empty() =~= out@);
    out
}

/// Whether `pat` occurs in `s` at position `i`.
fn starts_at(s: &Vec<char>, pat: &Vec<char>, i: usize) -> (r: bool)
    requires
        i + pat.len() <= s.len(),
    ensures
        r == (s@.subrange(i as int, i + pat.len()) == pat@),
{
    let mut k: usize = 0;
    while k < pat.len()
        invariant
            i + pat.len() <= s.len(),
            k <= pat.len(),
            forall|j: int| 0 <= j < k ==> s@[i + j] == pat@[j],
        decreases pat.len() - k,
    {
        if s[i + k] != pat[k] {
            assert(s@.subrange(i as int, i + pat.len())[k as int] != pat@[k as int]);
            return false;
        }
        k += 1;
    }
    assert(s@.subrange(i as int, i + pat.len()) =~= pat@);
    true
}

/// `val` with each `%NAME%` placeholder of `vars` replaced by its value,
/// the bindings applied in order. Where two bindings share a name, the
/// earlier one replaces every placeholder of it that `val` holds.
pub fn handle_vars(val: &str, vars: &Vec<(String, String)>) -> (r: String)
    ensures
        r@ == substituted(val@, binding_views(vars@)),
{
    let mut cur = chars_of(val);
    let mut i: usize = 0;
    while i < vars.len()
        invariant
            i <= vars.len(),
            cur@ == substituted(val@, binding_views(vars@).take(i as int)),
        decreases vars.len() - i,
    {
        let (k, v) = &vars[i];
        let pat = concat_chars(&concat_chars(&chars_of("%"), &chars_of(k.as_str())), &chars_of("%"));
        let ghost b = binding_views(vars@).take(i + 1);
        assert(b.drop_last() =~= binding_views(vars@).take(i as int));
        assert(b.last() == (k@, v@));
        cur = replace_chars(&cur, &pat, &chars_of(v.as_str()));
        i += 1;
    }
    assert(binding_views(vars@).take(vars.len() as int) =~= binding_views(vars@));
    string_of(cur.as_slice())
}

/// Whether no two bindings share a name.
pub open spec fn keys_unique(b: Seq<(Seq<char>, Seq<char>)>) -> bool {
    forall|i: int, j: int| 0 <= i < j < b.len() ==> (#[trigger] b[i]).0 != (#[trigger] b[j]).0
}

/// Whether some binding of `b` has the name `k`.
pub open spec fn has_key(b: Seq<(Seq<char>, Seq<char>)>, k: Seq<char>) -> bool {
    exists|i: int| 0 <= i < b.len() && (#[trigger] b[i]).0 == k
}

/// `b` with each binding whose name an earlier binding already has left
/// out: the first binding of a name wins.
pub open spec fn first_bindings(b: Seq<(Seq<char>, Seq<char>)>) -> Seq<(Seq<char>, Seq<char>)>
    decreases b.len(),
{
    if b.len() == 0 {
        b
    } else {
        let d = first_bindings(b.drop_last());
        if has_key(d, b.last().0) {
            d
        } else {
            d.push(b.last())
        }
    }
}

proof fn lemma_first_bindings_unique(b: Seq<(Seq<char>, Seq<char>)>)
    ensures
        keys_unique(first_bindings(b)),
    decreases b.len(),
{
    if b.len() > 0 {
        lemma_first_bindings_unique(b.drop_last());
        let d = first_bindings(b.drop_last());
        if !has_key(d, b.last().0) {
            let e = d.push(b.last());
            assert forall|i: int, j: int| 0 <= i < j < e.len() implies (#[trigger] e[i]).0 != (
            #[trigger] e[j]).0 by {
                if j == d.len() {
                    assert(e[i] == d[i]);
                } else {
                    assert(e[i] == d[i] && e[j] == d[j]);
                }
            }
        }
    }
}

/// The bindings available to placeholders: `INSTALL_DIR` bound to the
/// install directory, then every inherited environment variable, each name
/// once (`INSTALL_DIR` and the first binding of a name win).
pub open spec fn vars_for(install_dir: Seq<char>, inherited: Seq<(Seq<char>, Seq<char>)>) -> Seq<
    (Seq<char>, Seq<char>),
> {
    first_bindings(seq![("INSTALL_DIR"@, install_dir)] + inherited)
}

/// The bindings for substituting placeholders of an environment installed
/// in `install_dir`, given the inherited process environment. No two
/// bindings share a name.
pub fn get_vars(install_dir: &str, inherited: &Vec<(String, String)>) -> (r: Vec<(String, String)>)
    ensures
        binding_views(r@) == vars_for(install_dir@, binding_views(inherited@)),
        keys_unique(binding_views(r@)),
{
    let ghost all = seq![("INSTALL_DIR"@, install_dir@)] + binding_views(inherited@);
    let mut r: Vec<(String, String)> = Vec::new();
    r.push((string_of(chars_of("INSTALL_DIR").as_slice()), string_of(chars_of(install_dir).as_slice())));
    proof {
        let one = all.take(1);
        assert(one.drop_last() =~= Seq::<(Seq<char>, Seq<char>)>::empty());
        assert(!has_key(Seq::<(Seq<char>, Seq<char>)>::empty(), one.last().0));
        assert(first_bindings(Seq::<(Seq<char>, Seq<char>)>::empty()) == Seq::<
            (Seq<char>, Seq<char>),
        >::empty());
        assert(one.last() == ("INSTALL_DIR"@, install_dir@));
        assert(first_bindings(one) == Seq::<(Seq<char>, Seq<char>)>::empty().push(one.last()));
        assert(binding_views(r@) =~= first_bindings(one));
    }
    let mut i: usize = 0;
    while i < inherited.len()
        invariant
            i <= inherited.len(),
            all == seq![("INSTALL_DIR"@, install_dir@)] + binding_views(inherited@),
            binding_views(r@) == first_bindings(all.take(i + 1)),
        decreases inherited.len() - i,
    {
        let k = &inherited[i].0;
        let v = &inherited[i].1;
        let ghost prev = binding_views(r@);
        let ghost t = all.take(i + 2);
        assert(t.drop_last() =~= all.take(i + 1));
        assert(t.last() == (k@, v@)) by {
            assert(binding_views(inherited@)[i as int] == (k@, v@));
        }
        let key = chars_of(k.as_str());
        let mut seen = false;
        let mut j: usize = 0;
        while j < r.len()
            invariant
                j <= r.len(),
                key@ == k@,
                seen <==> exists|m: int| 0 <= m < j && (#[trigger] binding_views(r@)[m]).0 == k@,
            decreases r.len() - j,
        {
            assert(binding_views(r@)[j as int].0 == r@[j as int].0@);
            if crate::text::chars_equal(&chars_of(r[j].0.as_str()), &key) {
                seen = true;
            }
            j += 1;
        }
        proof {
            if seen {
                let m = choose|m: int| 0 <= m < r.len() && (#[trigger] binding_views(r@)[m]).0 == k@;
                assert(prev[m].0 == k@);
                assert(has_key(prev, t.last().0));
            } else {
                assert(!has_key(prev, t.last().0));
            }
        }
        if !seen {
            let pair = (string_of(key.as_slice()), string_of(chars_of(v.as_str()).as_slice()));
            r.push(pair);
            assert(binding_views(r@) =~= prev.push((k@, v@)));
        }
        assert(binding_views(r@) =~= first_bindings(t));
        i += 1;
    }
    assert(all.take(inherited.len() + 1) =~= all);
    proof {
        lemma_first_bindings_unique(all);
    }
    r
}

} // verus!
