//! Splitting text at a separator character and joining it back, with the
//! round-trip lemma that makes repeated edits of a file stable.

use vstd::prelude::*;

verus! {

/// The character sequences that a list of character vectors holds.
pub open spec fn char_views(v: Seq<Vec<char>>) -> Seq<Seq<char>> {
    v.map_values(|x: Vec<char>| x@)
}

/// `t` cut at every `sep`; always at least one piece.
pub open spec fn split_on(t: Seq<char>, sep: char) -> Seq<Seq<char>>
    decreases t.len(),
{
    if t.len() == 0 {
        seq![Seq::<char>::empty()]
    } else {
        let r = split_on(t.drop_last(), sep);
        if t.last() == sep {
            r.push(Seq::<char>::empty())
        } else {
            r.update(r.len() - 1, r.last().push(t.last()))
        }
    }
}

/// The pieces of `ls` with one `sep` between each two.
pub open spec fn join_with(ls: Seq<Seq<char>>, sep: char) -> Seq<char>
    decreases ls.len(),
{
    if ls.len() == 0 {
        Seq::<char>::empty()
    } else if ls.len() == 1 {
        ls[0]
    } else {
        join_with(ls.drop_last(), sep).push(sep) + ls.last()
    }
}

/// Whether no piece of `ls` holds `sep`.
pub open spec fn free_of(ls: Seq<Seq<char>>, sep: char) -> bool {
    forall|i: int| 0 <= i < ls.len() ==> !(#[trigger] ls[i]).contains(sep)
}

pub proof fn lemma_split_nonempty(t: Seq<char>, sep: char)
    ensures
        split_on(t, sep).len() >= 1,
    decreases t.len(),
{
    if t.len() > 0 {
        lemma_split_nonempty(t.drop_last(), sep);
    }
}

/// No piece of a split holds the separator.
pub proof fn lemma_split_free(t: Seq<char>, sep: char)
    ensures
        free_of(split_on(t, sep), sep),
    decreases t.len(),
{
    if t.len() > 0 {
        lemma_split_free(t.drop_last(), sep);
        lemma_split_nonempty(t.drop_last(), sep);
        let r = split_on(t.drop_last(), sep);
        if t.last() != sep {
            let l = r.last().push(t.last());
            assert(!l.contains(sep)) by {
                assert(!r[r.len() - 1].contains(sep));
                if l.contains(sep) {
                    let k = choose|k: int| 0 <= k < l.len() && l[k] == sep;
                    if k < l.len() - 1 {
                        assert(r.last()[k] == sep);
                    }
                }
            }
        } else {
            assert(!Seq::<char>::empty().contains(sep));
        }
        let s = split_on(t, sep);
        assert forall|i: int| 0 <= i < s.len() implies !(#[trigger] s[i]).contains(sep) by {
            if i < r.len() - 1 {
                assert(s[i] == r[i]);
            }
        }
    }
}

/// Appending text without a separator extends the last piece.
pub proof fn lemma_split_concat(a: Seq<char>, b: Seq<char>, sep: char)
    requires
        !b.contains(sep),
    ensures
        ({
            let r = split_on(a, sep);
            split_on(a + b, sep) == r.update(r.len() - 1, r.last() + b)
        }),
    decreases b.len(),
{
    lemma_split_nonempty(a, sep);
    let r = split_on(a, sep);
    if b.len() == 0 {
        assert(a + b =~= a);
        assert(r.last() + b =~= r.last());
        assert(r.update(r.len() - 1, r.last() + b) =~= r);
    } else {
        let b1 = b.drop_last();
        assert(!b1.contains(sep)) by {
            if b1.contains(sep) {
                let k = choose|k: int| 0 <= k < b1.len() && b1[k] == sep;
                assert(b[k] == sep);
            }
        }
        lemma_split_concat(a, b1, sep);
        assert((a + b).drop_last() =~= a + b1);
        assert(b.last() != sep) by {
            assert(b[b.len() - 1] == b.last());
        }
        assert((r.last() + b1).push(b.last()) =~= r.last() + b);
        assert(r.update(r.len() - 1, r.last() + b1).update(r.len() - 1, r.last() + b) =~= r.update(
            r.len() - 1,
            r.last() + b,
        ));
    }
}

/// Splitting joined pieces gives the pieces back.
pub proof fn lemma_split_join(ls: Seq<Seq<char>>, sep: char)
    requires
        ls.len() >= 1,
        free_of(ls, sep),
    ensures
        split_on(join_with(ls, sep), sep) == ls,
    decreases ls.len(),
{
    if ls.len() == 1 {
        lemma_split_concat(Seq::<char>::empty(), ls[0], sep);
        assert(Seq::<char>::empty() + ls[0] =~= ls[0]);
        assert(seq![Seq::<char>::empty()].update(0, Seq::<char>::empty() + ls[0]) =~= ls);
    } else {
        let init = ls.drop_last();
        assert(free_of(init, sep)) by {
            assert forall|i: int| 0 <= i < init.len() implies !(#[trigger] init[i]).contains(sep) by {
                assert(init[i] == ls[i]);
            }
        }
        lemma_split_join(init, sep);
        let j = join_with(init, sep).push(sep);
        assert(j.drop_last() =~= join_with(init, sep));
        assert(split_on(j, sep) == init.push(Seq::<char>::empty()));
        assert(!ls.last().contains(sep)) by {
            assert(!ls[ls.len() - 1].contains(sep));
        }
        lemma_split_concat(j, ls.last(), sep);
        assert(Seq::<char>::empty() + ls.last() =~= ls.last());
        assert(init.push(Seq::<char>::empty()).update(init.len() as int, ls.last()) =~= ls);
    }
}

/// Appending text to `a` leaves every piece of its split but the last as it was.
pub proof fn lemma_split_prefix(a: Seq<char>, b: Seq<char>, sep: char)
    ensures
        split_on(a + b, sep).len() >= split_on(a, sep).len(),
        forall|k: int|
            0 <= k < split_on(a, sep).len() - 1 ==> #[trigger] split_on(a + b, sep)[k] == split_on(
                a,
                sep,
            )[k],
    decreases b.len(),
{
    if b.len() == 0 {
        assert(a + b =~= a);
    } else {
        lemma_split_prefix(a, b.drop_last(), sep);
        assert((a + b).drop_last() =~= a + b.drop_last());
        lemma_split_nonempty(a + b.drop_last(), sep);
        let r = split_on(a + b.drop_last(), sep);
        assert forall|k: int| 0 <= k < split_on(a, sep).len() - 1 implies #[trigger] split_on(
            a + b,
            sep,
        )[k] == split_on(a, sep)[k] by {
            assert(split_on(a + b, sep)[k] == r[k]);
        }
    }
}

/// Exec form of `split_on`.
pub fn split_chars(t: &Vec<char>, sep: char) -> (r: Vec<Vec<char>>)
    ensures
        char_views(r@) == split_on(t@, sep),
{
    let mut done: Vec<Vec<char>> = Vec::new();
    let mut cur: Vec<char> = Vec::new();
    let mut i: usize = 0;
    while i < t.len()
        invariant
            i <= t.len(),
            char_views(done@).push(cur@) == split_on(t@.take(i as int), sep),
        decreases t.len() - i,
    {
        let c = t[i];
        let ghost before = char_views(done@).push(cur@);
        assert(t@.take(i + 1).drop_last() =~= t@.take(i as int));
        if c == sep {
            done.push(cur);
            cur = Vec::new();
            assert(char_views(done@).push(cur@) =~= before.push(Seq::<char>::empty()));
        } else {
            cur.push(c);
            assert(char_views(done@).push(cur@) =~= before.update(
                before.len() - 1,
                before.last().push(c),
            ));
        }
        i += 1;
    }
    assert(t@.take(t.len() as int) =~= t@);
    done.push(cur);
    done
}

/// Exec form of `join_with`.
pub fn join_chars(ls: &Vec<Vec<char>>, sep: char) -> (r: Vec<char>)
    ensures
        r@ == join_with(char_views(ls@), sep),
{
    let mut r: Vec<char> = Vec::new();
    let mut i: usize = 0;
    while i < ls.len()
        invariant
            i <= ls.len(),
            r@ == join_with(char_views(ls@.take(i as int)), sep),
        decreases ls.len() - i,
    {
        let ghost prev = r@;
        if i > 0 {
            r.push(sep);
        }
        let line = &ls[i];
        let mut j: usize = 0;
        while j < line.len()
            invariant
                j <= line.len(),
                line == ls@[i as int],
                i < ls.len(),
                r@ == (if i > 0 { prev.push(sep) } else { prev }) + line@.take(j as int),
            decreases line.len() - j,
        {
            r.push(line[j]);
            j += 1;
            assert(r@ =~= (if i > 0 { prev.push(sep) } else { prev }) + line@.take(j as int));
        }
        assert(line@.take(j as int) =~= line@);
        let ghost v = char_views(ls@.take(i + 1));
        assert(v.drop_last() =~= char_views(ls@.take(i as int)));
        assert(v.last() == line@);
        if i == 0 {
            assert(prev =~= Seq::<char>::empty());
            assert(r@ =~= v[0]);
        }
        i += 1;
    }
    assert(ls@.take(ls.len() as int) =~= ls@);
    r
}

} // verus!
