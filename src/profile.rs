//! Persistent activation through a shell profile: the profile is an ordered
//! list of lines; setting a variable replaces every earlier assignment of it,
//! and extending the search path adds a segment to `PATH` lines only where it
//! is missing.

use vstd::prelude::*;
use crate::text::{chars_of, string_of, has_prefix, starts_with, concat_chars, slice_chars};
use crate::lines::{char_views, split_on, join_with, split_chars, join_chars, free_of,
    lemma_split_join, lemma_split_free};

verus! {

/// The lines of a profile file; an empty file has none.
pub open spec fn profile_lines(t: Seq<char>) -> Seq<Seq<char>> {
    if t.len() == 0 {
        Seq::<Seq<char>>::empty()
    } else {
        split_on(t, '\n')
    }
}

/// The text that starts a line assigning `name`.
pub open spec fn assignment_prefix(name: Seq<char>) -> Seq<char> {
    "export "@ + name + "="@
}

/// The line that assigns `value` to `name`.
pub open spec fn assignment_line(name: Seq<char>, value: Seq<char>) -> Seq<char> {
    assignment_prefix(name) + value
}

/// The text that starts a line assigning `name` without `export`.
pub open spec fn bare_assignment_prefix(name: Seq<char>) -> Seq<char> {
    name + "="@
}

/// Whether `line` assigns the variable `name`, exported or not.
pub open spec fn assigns(line: Seq<char>, name: Seq<char>) -> bool {
    has_prefix(line, assignment_prefix(name)) || has_prefix(line, bare_assignment_prefix(name))
}

/// `ls` without the lines that assign `name`, in their order.
pub open spec fn drop_assignments(ls: Seq<Seq<char>>, name: Seq<char>) -> Seq<Seq<char>>
    decreases ls.len(),
{
    if ls.len() == 0 {
        ls
    } else {
        let r = drop_assignments(ls.drop_last(), name);
        if assigns(ls.last(), name) {
            r
        } else {
            r.push(ls.last())
        }
    }
}

/// Number of lines of `ls` that assign `name`.
pub open spec fn count_assignments(ls: Seq<Seq<char>>, name: Seq<char>) -> nat
    decreases ls.len(),
{
    if ls.len() == 0 {
        0
    } else {
        count_assignments(ls.drop_last(), name) + if assigns(ls.last(), name) {
            1nat
        } else {
            0nat
        }
    }
}

/// The profile lines after setting `name` to `value`: every earlier
/// assignment of `name` removed, one fresh assignment at the end.
pub open spec fn with_variable(ls: Seq<Seq<char>>, name: Seq<char>, value: Seq<char>) -> Seq<
    Seq<char>,
> {
    drop_assignments(ls, name).push(assignment_line(name, value))
}

/// The text of a profile after `set_persistent_env`.
pub open spec fn profile_with_variable(t: Seq<char>, name: Seq<char>, value: Seq<char>) -> Seq<
    char,
> {
    join_with(with_variable(profile_lines(t), name, value), '\n')
}

/// The start of a line that sets the search path.
pub open spec fn path_prefix() -> Seq<char> {
    "export PATH="@
}

/// The start of a line that sets the search path without `export`.
pub open spec fn bare_path_prefix() -> Seq<char> {
    "PATH="@
}

/// Whether `line` sets the search path, exported or not.
pub open spec fn is_path_line(line: Seq<char>) -> bool {
    has_prefix(line, path_prefix()) || has_prefix(line, bare_path_prefix())
}

/// The head of a `PATH` line, up to and including its `=`.
pub open spec fn path_head(line: Seq<char>) -> Seq<char> {
    if has_prefix(line, path_prefix()) {
        path_prefix()
    } else {
        bare_path_prefix()
    }
}

/// The colon-separated segments that a `PATH` line lists.
pub open spec fn path_list(line: Seq<char>) -> Seq<Seq<char>> {
    split_on(line.skip(path_head(line).len() as int), ':')
}

/// The segment added for `new_path`, relative to the variable `base` when given.
pub open spec fn path_entry(base: Option<Seq<char>>, new_path: Seq<char>) -> Seq<char> {
    match base {
        Some(b) => "$"@ + b + "/"@ + new_path,
        None => new_path,
    }
}

/// A `PATH` line with `entry` appended to its list when missing; a
/// rewritten line is always exported.
pub open spec fn extend_line(line: Seq<char>, entry: Seq<char>) -> Seq<char> {
    if path_list(line).contains(entry) {
        line
    } else {
        path_prefix() + join_with(path_list(line).push(entry), ':')
    }
}

/// Every `PATH` line of `ls` extended with `entry`; other lines kept.
pub open spec fn extend_path_lines(ls: Seq<Seq<char>>, entry: Seq<char>) -> Seq<Seq<char>>
    decreases ls.len(),
{
    if ls.len() == 0 {
        ls
    } else {
        let r = extend_path_lines(ls.drop_last(), entry);
        if is_path_line(ls.last()) {
            r.push(extend_line(ls.last(), entry))
        } else {
            r.push(ls.last())
        }
    }
}

/// Whether some line of `ls` sets the search path.
pub open spec fn has_path_line(ls: Seq<Seq<char>>) -> bool {
    exists|i: int| 0 <= i < ls.len() && is_path_line(#[trigger] ls[i])
}

/// The line that extends the inherited search path with `entry`.
pub open spec fn inherited_path_line(entry: Seq<char>) -> Seq<char> {
    path_prefix() + "$PATH:"@ + entry
}

/// The profile lines after adding `entry` to the search path.
pub open spec fn with_path(ls: Seq<Seq<char>>, entry: Seq<char>) -> Seq<Seq<char>> {
    if has_path_line(ls) {
        extend_path_lines(ls, entry)
    } else {
        ls.push(inherited_path_line(entry))
    }
}

/// The spec view of an optional string argument.
pub open spec fn opt_view(o: Option<&str>) -> Option<Seq<char>> {
    match o {
        Some(v) => Some(v@),
        None => None,
    }
}

/// The text of a profile after `set_persistent_path`.
pub open spec fn profile_with_path(t: Seq<char>, base: Option<Seq<char>>, new_path: Seq<char>) -> Seq<
    char,
> {
    join_with(with_path(profile_lines(t), path_entry(base, new_path)), '\n')
}

/// Splits profile text into lines.
fn read_lines(t: &Vec<char>) -> (r: Vec<Vec<char>>)
    ensures
        char_views(r@) == profile_lines(t@),
{
    if t.len() == 0 {
        let r: Vec<Vec<char>> = Vec::new();
        assert(char_views(r@) =~= Seq::<Seq<char>>::empty());
        r
    } else {
        split_chars(t, '\n')
    }
}

/// The new profile text after persisting `var_name = var_value`: every line
/// that already assigns the variable is removed and one assignment line is
/// appended, so repeated activation never accumulates duplicates.
pub fn set_persistent_env(profile: &str, var_name: &str, var_value: &str) -> (r: String)
    ensures
        r@ == profile_with_variable(profile@, var_name@, var_value@),
{
    let t = chars_of(profile);
    let ls = read_lines(&t);
    let prefix = concat_chars(&concat_chars(&chars_of("export "), &chars_of(var_name)), &chars_of("="));
    assert(prefix@ == assignment_prefix(var_name@));
    let bare = concat_chars(&chars_of(var_name), &chars_of("="));
    let mut out: Vec<Vec<char>> = Vec::new();
    let mut i: usize = 0;
    while i < ls.len()
        invariant
            i <= ls.len(),
            prefix@ == assignment_prefix(var_name@),
            bare@ == bare_assignment_prefix(var_name@),
            char_views(out@) == drop_assignments(char_views(ls@).take(i as int), var_name@),
        decreases ls.len() - i,
    {
        let ghost v = char_views(ls@).take(i + 1);
        assert(v.drop_last() =~= char_views(ls@).take(i as int));
        assert(v.last() == ls@[i as int]@);
        if !(starts_with(&ls[i], &prefix) || starts_with(&ls[i], &bare)) {
            let line = slice_chars(&ls[i], 0, ls[i].len());
            assert(line@ =~= ls@[i as int]@);
            out.push(line);
            assert(char_views(out@) =~= drop_assignments(v, var_name@));
        }
        i += 1;
    }
    assert(char_views(ls@).take(ls.len() as int) =~= char_views(ls@));
    out.push(concat_chars(&prefix, &chars_of(var_value)));
    assert(char_views(out@) =~= with_variable(profile_lines(profile@), var_name@, var_value@));
    let joined = join_chars(&out, '\n');
    string_of(joined.as_slice())
}

/// Exec form of `extend_line` for a line known to set the search path.
fn extend_path_line(line: &Vec<char>, entry: &Vec<char>, prefix: &Vec<char>, bare: &Vec<char>) -> (r: Vec<
    char,
>)
    requires
        prefix@ == path_prefix(),
        bare@ == bare_path_prefix(),
        is_path_line(line@),
    ensures
        r@ == extend_line(line@, entry@),
{
    let head = if starts_with(line, prefix) {
        slice_chars(prefix, 0, prefix.len())
    } else {
        slice_chars(bare, 0, bare.len())
    };
    assert(head@ =~= path_head(line@));
    let rest = slice_chars(line, head.len(), line.len());
    assert(rest@ =~= line@.skip(path_head(line@).len() as int));
    let mut list = split_chars(&rest, ':');
    let mut found = false;
    let mut k: usize = 0;
    while k < list.len()
        invariant
            k <= list.len(),
            char_views(list@) == path_list(line@),
            found <==> exists|j: int| 0 <= j < k && list@[j]@ == entry@,
        decreases list.len() - k,
    {
        if crate::text::chars_equal(&list[k], entry) {
            found = true;
        }
        k += 1;
    }
    if found {
        proof {
            let j = choose|j: int| 0 <= j < list.len() && list@[j]@ == entry@;
            assert(char_views(list@)[j] == entry@);
        }
        slice_chars(line, 0, line.len())
    } else {
        proof {
            assert forall|j: int| 0 <= j < char_views(list@).len() implies char_views(list@)[j]
                != entry@ by {
                assert(char_views(list@)[j] == list@[j]@);
            }
        }
        let ghost before = char_views(list@);
        let e = slice_chars(entry, 0, entry.len());
        assert(e@ =~= entry@);
        list.push(e);
        assert(char_views(list@) =~= before.push(entry@));
        concat_chars(prefix, &join_chars(&list, ':'))
    }
}

/// The new profile text after adding `new_path` (relative to the variable
/// `var` when given) to the search path: each `PATH` line gains the segment
/// when it does not list it yet; a profile without such a line gains one
/// that extends the inherited `PATH`.
pub fn set_persistent_path(profile: &str, var: Option<&str>, new_path: &str) -> (r: String)
    ensures
        r@ == profile_with_path(profile@, opt_view(var), new_path@),
{
    let t = chars_of(profile);
    let ls = read_lines(&t);
    let entry = match var {
        Some(v) => concat_chars(
            &concat_chars(&concat_chars(&chars_of("$"), &chars_of(v)), &chars_of("/")),
            &chars_of(new_path),
        ),
        None => chars_of(new_path),
    };
    assert(entry@ == path_entry(opt_view(var), new_path@));
    let prefix = chars_of("export PATH=");
    let bare = chars_of("PATH=");
    let mut out: Vec<Vec<char>> = Vec::new();
    let mut found = false;
    let mut i: usize = 0;
    while i < ls.len()
        invariant
            i <= ls.len(),
            prefix@ == path_prefix(),
            bare@ == bare_path_prefix(),
            char_views(out@) == extend_path_lines(char_views(ls@).take(i as int), entry@),
            found <==> has_path_line(char_views(ls@).take(i as int)),
        decreases ls.len() - i,
    {
        let ghost v = char_views(ls@).take(i + 1);
        let ghost u = char_views(ls@).take(i as int);
        assert(v.drop_last() =~= u);
        assert(v.last() == ls@[i as int]@);
        let line = &ls[i];
        if starts_with(line, &prefix) || starts_with(line, &bare) {
            out.push(extend_path_line(line, &entry, &prefix, &bare));
            found = true;
            assert(v[i as int] == v.last());
        } else {
            let copy = slice_chars(line, 0, line.len());
            assert(copy@ =~= line@);
            out.push(copy);
            proof {
                if has_path_line(v) {
                    let j = choose|j: int| 0 <= j < v.len() && is_path_line(#[trigger] v[j]);
                    assert(u[j] == v[j]);
                }
            }
        }
        proof {
            if has_path_line(u) {
                let j = choose|j: int| 0 <= j < u.len() && is_path_line(#[trigger] u[j]);
                assert(v[j] == u[j]);
            }
        }
        assert(char_views(out@) =~= extend_path_lines(v, entry@));
        i += 1;
    }
    assert(char_views(ls@).take(ls.len() as int) =~= char_views(ls@));
    if !found {
        let ghost before = char_views(out@);
        proof {
            lemma_extend_without_path_lines(char_views(ls@), entry@);
        }
        out.push(concat_chars(&concat_chars(&prefix, &chars_of("$PATH:")), &entry));
        assert(char_views(out@) =~= before.push(inherited_path_line(entry@)));
    }
    let joined = join_chars(&out, '\n');
    string_of(joined.as_slice())
}

proof fn lemma_extend_without_path_lines(ls: Seq<Seq<char>>, entry: Seq<char>)
    requires
        !has_path_line(ls),
    ensures
        extend_path_lines(ls, entry) == ls,
    decreases ls.len(),
{
    if ls.len() > 0 {
        let init = ls.drop_last();
        assert(!has_path_line(init)) by {
            if has_path_line(init) {
                let j = choose|j: int| 0 <= j < init.len() && is_path_line(#[trigger] init[j]);
                assert(ls[j] == init[j]);
            }
        }
        lemma_extend_without_path_lines(init, entry);
        assert(!is_path_line(ls[ls.len() - 1]));
        assert(init.push(ls.last()) =~= ls);
    }
}

/// Number of times `e` occurs in `list`.
pub open spec fn occurrences(list: Seq<Seq<char>>, e: Seq<char>) -> nat
    decreases list.len(),
{
    if list.len() == 0 {
        0
    } else {
        occurrences(list.drop_last(), e) + if list.last() == e {
            1nat
        } else {
            0nat
        }
    }
}

proof fn lemma_occurrences_absent(list: Seq<Seq<char>>, e: Seq<char>)
    ensures
        !list.contains(e) <==> occurrences(list, e) == 0,
    decreases list.len(),
{
    if list.len() > 0 {
        lemma_occurrences_absent(list.drop_last(), e);
        if list.drop_last().contains(e) {
            let k = choose|k: int| 0 <= k < list.drop_last().len() && list.drop_last()[k] == e;
            assert(list[k] == e);
        }
        if list.contains(e) && list.last() != e {
            let k = choose|k: int| 0 <= k < list.len() && list[k] == e;
            assert(list.drop_last()[k] == e);
        }
        if list.last() == e {
            assert(list[list.len() - 1] == e);
        }
    }
}

proof fn lemma_assigns_own_line(name: Seq<char>, value: Seq<char>)
    ensures
        assigns(assignment_line(name, value), name),
{
    let p = assignment_prefix(name);
    assert((p + value).take(p.len() as int) =~= p);
}

proof fn lemma_drop_assignments_clean(ls: Seq<Seq<char>>, name: Seq<char>)
    ensures
        forall|i: int|
            0 <= i < drop_assignments(ls, name).len() ==> !assigns(
                #[trigger] drop_assignments(ls, name)[i],
                name,
            ),
        drop_assignments(drop_assignments(ls, name), name) == drop_assignments(ls, name),
        count_assignments(drop_assignments(ls, name), name) == 0,
    decreases ls.len(),
{
    if ls.len() > 0 {
        lemma_drop_assignments_clean(ls.drop_last(), name);
        let r = drop_assignments(ls.drop_last(), name);
        if !assigns(ls.last(), name) {
            let d = r.push(ls.last());
            assert(d.drop_last() =~= r);
            assert forall|i: int| 0 <= i < d.len() implies !assigns(#[trigger] d[i], name) by {
                if i < r.len() {
                    assert(d[i] == r[i]);
                }
            }
        }
    }
}

/// Setting a variable in a profile a second time, with the same name and
/// value, changes nothing, and the profile then holds exactly one line
/// assigning that variable.
pub proof fn lemma_set_variable_twice(ls: Seq<Seq<char>>, name: Seq<char>, value: Seq<char>)
    ensures
        with_variable(with_variable(ls, name, value), name, value) == with_variable(
            ls,
            name,
            value,
        ),
        count_assignments(with_variable(ls, name, value), name) == 1,
{
    let w = with_variable(ls, name, value);
    lemma_assigns_own_line(name, value);
    lemma_drop_assignments_clean(ls, name);
    assert(w.drop_last() =~= drop_assignments(ls, name));
}

/// Facts about each line after extending the search path.
proof fn lemma_extend_path_lines_index(ls: Seq<Seq<char>>, entry: Seq<char>)
    ensures
        extend_path_lines(ls, entry).len() == ls.len(),
        forall|i: int|
            0 <= i < ls.len() ==> #[trigger] extend_path_lines(ls, entry)[i] == if is_path_line(
                ls[i],
            ) {
                extend_line(ls[i], entry)
            } else {
                ls[i]
            },
    decreases ls.len(),
{
    if ls.len() > 0 {
        lemma_extend_path_lines_index(ls.drop_last(), entry);
        let r = extend_path_lines(ls, entry);
        assert forall|i: int| 0 <= i < ls.len() implies #[trigger] r[i] == if is_path_line(ls[i]) {
            extend_line(ls[i], entry)
        } else {
            ls[i]
        } by {
            if i < ls.len() - 1 {
                assert(ls.drop_last()[i] == ls[i]);
            }
        }
    }
}

/// A line made of a `PATH` line's head and any text keeps that head, and
/// its list is read from that text.
proof fn lemma_path_head(line: Seq<char>, x: Seq<char>)
    requires
        is_path_line(line),
    ensures
        is_path_line(path_head(line) + x),
        path_head(path_head(line) + x) == path_head(line),
        (path_head(line) + x).skip(path_head(line).len() as int) == x,
        path_head(line).len() > 0,
        !path_head(line).contains('\n'),
{
    reveal_strlit("export PATH=");
    reveal_strlit("PATH=");
    let h = path_head(line);
    assert((h + x).take(h.len() as int) =~= h);
    assert((h + x).skip(h.len() as int) =~= x);
    if h == bare_path_prefix() {
        assert((h + x)[0] == 'P');
        assert(path_prefix()[0] == 'e');
        if has_prefix(h + x, path_prefix()) {
            assert((h + x).take(path_prefix().len() as int)[0] == (h + x)[0]);
        }
    }
}

/// What extending one `PATH` line with a colon-free segment gives.
proof fn lemma_extend_line(line: Seq<char>, entry: Seq<char>)
    requires
        is_path_line(line),
        !entry.contains(':'),
    ensures
        is_path_line(extend_line(line, entry)),
        path_list(extend_line(line, entry)).contains(entry),
        extend_line(extend_line(line, entry), entry) == extend_line(line, entry),
        occurrences(path_list(line), entry) <= 1 ==> occurrences(
            path_list(extend_line(line, entry)),
            entry,
        ) == 1,
{
    let list = path_list(line);
    let p = path_head(line);
    lemma_occurrences_absent(list, entry);
    if !list.contains(entry) {
        let l2 = list.push(entry);
        let x = join_with(l2, ':');
        reveal_strlit("export PATH=");
        assert((path_prefix() + x).take(path_prefix().len() as int) =~= path_prefix());
        assert((path_prefix() + x).skip(path_prefix().len() as int) =~= x);
        lemma_split_free(line.skip(p.len() as int), ':');
        assert(free_of(l2, ':')) by {
            assert forall|i: int| 0 <= i < l2.len() implies !(#[trigger] l2[i]).contains(':') by {
                if i < list.len() {
                    assert(l2[i] == list[i]);
                }
            }
        }
        lemma_split_join(l2, ':');
        assert(l2[list.len() as int] == entry);
        assert(l2.drop_last() =~= list);
    }
}

proof fn lemma_inherited_line(entry: Seq<char>)
    requires
        !entry.contains(':'),
    ensures
        is_path_line(inherited_path_line(entry)),
        path_list(inherited_path_line(entry)) == seq!["$PATH"@, entry],
        extend_line(inherited_path_line(entry), entry) == inherited_path_line(entry),
        entry != "$PATH"@ ==> occurrences(path_list(inherited_path_line(entry)), entry) == 1,
{
    reveal_strlit("$PATH:");
    reveal_strlit("$PATH");
    reveal_strlit("export PATH=");
    let p = path_prefix();
    let l = inherited_path_line(entry);
    let two = seq!["$PATH"@, entry];
    assert(l.take(p.len() as int) =~= p);
    assert(l.skip(p.len() as int) =~= "$PATH:"@ + entry);
    assert(join_with(two.drop_last(), ':') == "$PATH"@);
    assert(join_with(two, ':') =~= "$PATH:"@ + entry);
    assert(!"$PATH"@.contains(':')) by {
        if "$PATH"@.contains(':') {
            let k = choose|k: int| 0 <= k < "$PATH"@.len() && "$PATH"@[k] == ':';
        }
    }
    assert(free_of(two, ':')) by {
        assert forall|i: int| 0 <= i < two.len() implies !(#[trigger] two[i]).contains(':') by {
            if i == 0 {
            } else {
                assert(two[1] == entry);
            }
        }
    }
    lemma_split_join(two, ':');
    assert(two[1] == entry);
    assert(two.drop_last() =~= seq!["$PATH"@]);
    assert(seq!["$PATH"@].drop_last() =~= Seq::<Seq<char>>::empty());
    assert(occurrences(Seq::<Seq<char>>::empty(), entry) == 0);
    assert(seq!["$PATH"@].last() == "$PATH"@);
    assert(two.last() == entry);
    if entry != "$PATH"@ {
        assert(occurrences(seq!["$PATH"@], entry) == 0);
    }
}

/// Whether every `PATH` line of `ls` lists `entry` at most once.
pub open spec fn lists_at_most_once(ls: Seq<Seq<char>>, entry: Seq<char>) -> bool {
    forall|i: int|
        0 <= i < ls.len() && is_path_line(#[trigger] ls[i]) ==> occurrences(path_list(ls[i]), entry)
            <= 1
}

/// Extending the search path a second time with the same segment changes
/// nothing, and afterwards every `PATH` line lists the segment exactly once.
/// The segment holds no `:` (else it is not one segment of the list), is not
/// the literal `$PATH`, and no `PATH` line listed it twice beforehand.
pub proof fn lemma_extend_path_twice(ls: Seq<Seq<char>>, entry: Seq<char>)
    requires
        !entry.contains(':'),
        entry != "$PATH"@,
        lists_at_most_once(ls, entry),
    ensures
        with_path(with_path(ls, entry), entry) == with_path(ls, entry),
        has_path_line(with_path(ls, entry)),
        forall|i: int|
            0 <= i < with_path(ls, entry).len() && is_path_line(#[trigger] with_path(ls, entry)[i])
                ==> occurrences(path_list(with_path(ls, entry)[i]), entry) == 1,
{
    let w = with_path(ls, entry);
    lemma_extend_path_lines_index(ls, entry);
    if has_path_line(ls) {
        let j = choose|j: int| 0 <= j < ls.len() && is_path_line(#[trigger] ls[j]);
        lemma_extend_line(ls[j], entry);
        assert(is_path_line(w[j]));
        lemma_extend_path_lines_index(w, entry);
        assert forall|i: int| 0 <= i < w.len() implies #[trigger] extend_path_lines(w, entry)[i]
            == w[i] && (is_path_line(w[i]) ==> occurrences(path_list(w[i]), entry) == 1) by {
            if is_path_line(ls[i]) {
                lemma_extend_line(ls[i], entry);
            }
        }
        assert(extend_path_lines(w, entry) =~= w);
    } else {
        lemma_extend_without_path_lines(ls, entry);
        lemma_inherited_line(entry);
        let n = ls.len() as int;
        assert(w[n] == inherited_path_line(entry));
        assert(has_path_line(w));
        lemma_extend_path_lines_index(w, entry);
        assert forall|i: int| 0 <= i < w.len() implies #[trigger] extend_path_lines(w, entry)[i]
            == w[i] && (is_path_line(w[i]) ==> occurrences(path_list(w[i]), entry) == 1) by {
            if i < n {
                assert(w[i] == ls[i]);
                assert(!is_path_line(ls[i]));
            }
        }
        assert(extend_path_lines(w, entry) =~= w);
    }
}

/// The segment that the registry-style strategy adds for `new_path`,
/// relative to `%var%` when given.
pub open spec fn registry_segment(var: Option<Seq<char>>, new_path: Seq<char>) -> Seq<char> {
    match var {
        Some(v) => "%"@ + v + "%/"@ + new_path,
        None => new_path,
    }
}

/// The value stored for the search path by the registry-style strategy: the
/// current path unchanged when its `;`-separated list already holds the
/// segment, else the segment ahead of the current path.
pub open spec fn registry_path_of(var: Option<Seq<char>>, new_path: Seq<char>, current: Seq<char>) -> Seq<
    char,
> {
    let seg = registry_segment(var, new_path);
    if split_on(current, ';').contains(seg) {
        current
    } else {
        seg + ";"@ + current
    }
}

/// The search-path value that the registry-style strategy persists.
pub fn registry_path_value(var: Option<&str>, new_path: &str, current: &str) -> (r: String)
    ensures
        r@ == registry_path_of(opt_view(var), new_path@, current@),
{
    let seg = match var {
        Some(v) => concat_chars(
            &concat_chars(&concat_chars(&chars_of("%"), &chars_of(v)), &chars_of("%/")),
            &chars_of(new_path),
        ),
        None => chars_of(new_path),
    };
    assert(seg@ == registry_segment(opt_view(var), new_path@));
    let cur = chars_of(current);
    let list = split_chars(&cur, ';');
    let mut k: usize = 0;
    while k < list.len()
        invariant
            k <= list.len(),
            seg@ == registry_segment(opt_view(var), new_path@),
            cur@ == current@,
            char_views(list@) == split_on(current@, ';'),
            forall|j: int| 0 <= j < k ==> char_views(list@)[j] != seg@,
        decreases list.len() - k,
    {
        assert(char_views(list@)[k as int] == list@[k as int]@);
        if crate::text::chars_equal(&list[k], &seg) {
            assert(split_on(current@, ';')[k as int] == seg@);
            return string_of(cur.as_slice());
        }
        k += 1;
    }
    assert(!split_on(current@, ';').contains(seg@));
    let v = concat_chars(&concat_chars(&seg, &chars_of(";")), &cur);
    string_of(v.as_slice())
}

/// Persisting the same segment a second time through the registry-style
/// strategy leaves the search path as the first time left it. The segment
/// holds no `;`.
pub proof fn lemma_registry_path_twice(var: Option<Seq<char>>, new_path: Seq<char>, current: Seq<char>)
    requires
        !registry_segment(var, new_path).contains(';'),
    ensures
        registry_path_of(var, new_path, registry_path_of(var, new_path, current)) == registry_path_of(
            var,
            new_path,
            current,
        ),
        split_on(registry_path_of(var, new_path, current), ';').contains(registry_segment(var, new_path)),
{
    reveal_strlit(";");
    let seg = registry_segment(var, new_path);
    if !split_on(current, ';').contains(seg) {
        let a = seg.push(';');
        assert(seg + ";"@ =~= a);
        assert(a + current =~= seg + ";"@ + current);
        lemma_split_join(seq![seg], ';');
        assert(join_with(seq![seg], ';') == seg);
        assert(a.drop_last() =~= seg);
        assert(split_on(a, ';') == seq![seg].push(Seq::<char>::empty()));
        crate::lines::lemma_split_prefix(a, current, ';');
        assert(split_on(a + current, ';')[0] == seg);
    }
}

proof fn lemma_concat_free(a: Seq<char>, b: Seq<char>, c: char)
    requires
        !a.contains(c),
        !b.contains(c),
    ensures
        !(a + b).contains(c),
{
    if (a + b).contains(c) {
        let k = choose|k: int| 0 <= k < (a + b).len() && (a + b)[k] == c;
        if k < a.len() {
            assert(a[k] == c);
        } else {
            assert(b[k - a.len()] == c);
        }
    }
}

proof fn lemma_drop_assignments_free(ls: Seq<Seq<char>>, name: Seq<char>, c: char)
    requires
        free_of(ls, c),
    ensures
        free_of(drop_assignments(ls, name), c),
    decreases ls.len(),
{
    if ls.len() > 0 {
        let init = ls.drop_last();
        assert(free_of(init, c)) by {
            assert forall|i: int| 0 <= i < init.len() implies !(#[trigger] init[i]).contains(c) by {
                assert(init[i] == ls[i]);
            }
        }
        lemma_drop_assignments_free(init, name, c);
        let r = drop_assignments(init, name);
        assert(!ls[ls.len() - 1].contains(c));
        let d = drop_assignments(ls, name);
        assert forall|i: int| 0 <= i < d.len() implies !(#[trigger] d[i]).contains(c) by {
            if i < r.len() {
                assert(d[i] == r[i]);
            }
        }
    }
}

/// Reading back the text of newline-free lines gives the lines again, unless
/// the text is empty.
proof fn lemma_profile_round_trip(ls: Seq<Seq<char>>)
    requires
        ls.len() >= 1,
        free_of(ls, '\n'),
        ls.len() >= 2 || ls[0].len() > 0,
    ensures
        profile_lines(join_with(ls, '\n')) == ls,
{
    if ls.len() == 1 {
        assert(join_with(ls, '\n') == ls[0]);
    } else {
        assert(join_with(ls, '\n').len() >= 1);
    }
    lemma_split_join(ls, '\n');
}

/// Setting a variable a second time, with the same newline-free name and
/// value, leaves the profile file's text exactly as the first setting left
/// it, so the file holds that variable's assignment once.
pub proof fn lemma_set_persistent_env_twice(t: Seq<char>, name: Seq<char>, value: Seq<char>)
    requires
        !name.contains('\n'),
        !value.contains('\n'),
    ensures
        profile_with_variable(profile_with_variable(t, name, value), name, value)
            == profile_with_variable(t, name, value),
        count_assignments(profile_lines(profile_with_variable(t, name, value)), name) == 1,
{
    reveal_strlit("export ");
    reveal_strlit("=");
    let ls = profile_lines(t);
    assert(free_of(ls, '\n')) by {
        if t.len() > 0 {
            lemma_split_free(t, '\n');
        }
    }
    lemma_drop_assignments_free(ls, name, '\n');
    let w = with_variable(ls, name, value);
    let line = assignment_line(name, value);
    assert(!"export "@.contains('\n')) by {
        if "export "@.contains('\n') {
            let k = choose|k: int| 0 <= k < "export "@.len() && "export "@[k] == '\n';
        }
    }
    assert(!"="@.contains('\n')) by {
        if "="@.contains('\n') {
            let k = choose|k: int| 0 <= k < "="@.len() && "="@[k] == '\n';
        }
    }
    lemma_concat_free("export "@, name, '\n');
    lemma_concat_free("export "@ + name, "="@, '\n');
    lemma_concat_free("export "@ + name + "="@, value, '\n');
    let d = drop_assignments(ls, name);
    assert(free_of(w, '\n')) by {
        assert forall|i: int| 0 <= i < w.len() implies !(#[trigger] w[i]).contains('\n') by {
            if i < d.len() {
                assert(w[i] == d[i]);
            }
        }
    }
    assert(w.last() == line);
    assert(line.len() > 0);
    assert(w.len() >= 2 || w[0].len() > 0) by {
        if w.len() == 1 {
            assert(w[0] == w.last());
        }
    }
    lemma_profile_round_trip(w);
    lemma_set_variable_twice(ls, name, value);
}

proof fn lemma_split_keeps_free(t: Seq<char>, sep: char, c: char)
    requires
        !t.contains(c),
    ensures
        free_of(split_on(t, sep), c),
    decreases t.len(),
{
    if t.len() > 0 {
        let init = t.drop_last();
        assert(!init.contains(c)) by {
            if init.contains(c) {
                let k = choose|k: int| 0 <= k < init.len() && init[k] == c;
                assert(t[k] == c);
            }
        }
        lemma_split_keeps_free(init, sep, c);
        crate::lines::lemma_split_nonempty(init, sep);
        let r = split_on(init, sep);
        assert(t.last() != c) by {
            assert(t[t.len() - 1] == t.last());
        }
        assert(!Seq::<char>::empty().contains(c));
        if t.last() != sep {
            assert(!r[r.len() - 1].contains(c));
            lemma_concat_free(r.last(), seq![t.last()], c);
            assert(r.last() + seq![t.last()] =~= r.last().push(t.last()));
        }
        let s = split_on(t, sep);
        assert forall|i: int| 0 <= i < s.len() implies !(#[trigger] s[i]).contains(c) by {
            if i < r.len() - 1 {
                assert(s[i] == r[i]);
            }
        }
    }
}

proof fn lemma_join_keeps_free(ls: Seq<Seq<char>>, sep: char, c: char)
    requires
        free_of(ls, c),
        sep != c,
    ensures
        !join_with(ls, sep).contains(c),
    decreases ls.len(),
{
    if ls.len() == 1 {
        assert(!ls[0].contains(c));
    } else if ls.len() > 1 {
        let init = ls.drop_last();
        assert(free_of(init, c)) by {
            assert forall|i: int| 0 <= i < init.len() implies !(#[trigger] init[i]).contains(c) by {
                assert(init[i] == ls[i]);
            }
        }
        lemma_join_keeps_free(init, sep, c);
        assert(!seq![sep].contains(c)) by {
            if seq![sep].contains(c) {
                let k = choose|k: int| 0 <= k < 1 && seq![sep][k] == c;
            }
        }
        lemma_concat_free(join_with(init, sep), seq![sep], c);
        assert(join_with(init, sep) + seq![sep] =~= join_with(init, sep).push(sep));
        assert(!ls[ls.len() - 1].contains(c));
        lemma_concat_free(join_with(init, sep).push(sep), ls.last(), c);
    }
}

proof fn lemma_literal_free(lit: Seq<char>, c: char)
    requires
        forall|i: int| 0 <= i < lit.len() ==> lit[i] != c,
    ensures
        !lit.contains(c),
{
}

proof fn lemma_extended_free(ls: Seq<Seq<char>>, entry: Seq<char>)
    requires
        free_of(ls, '\n'),
        !entry.contains('\n'),
    ensures
        free_of(with_path(ls, entry), '\n'),
{
    reveal_strlit("export PATH=");
    reveal_strlit("$PATH:");
    lemma_literal_free(path_prefix(), '\n');
    lemma_literal_free("$PATH:"@, '\n');
    let w = with_path(ls, entry);
    if has_path_line(ls) {
        lemma_extend_path_lines_index(ls, entry);
        assert forall|i: int| 0 <= i < w.len() implies !(#[trigger] w[i]).contains('\n') by {
            let l = ls[i];
            assert(!l.contains('\n'));
            if is_path_line(l) && !path_list(l).contains(entry) {
                let h = path_head(l);
                lemma_path_head(l, Seq::<char>::empty());
                let rest = l.skip(h.len() as int);
                assert(h.len() <= l.len()) by {
                    reveal_strlit("export PATH=");
                    reveal_strlit("PATH=");
                }
                assert(!rest.contains('\n')) by {
                    if rest.contains('\n') {
                        let k = choose|k: int| 0 <= k < rest.len() && rest[k] == '\n';
                        assert(l[k + h.len()] == '\n');
                    }
                }
                lemma_split_keeps_free(rest, ':', '\n');
                let l2 = path_list(l).push(entry);
                assert(free_of(l2, '\n')) by {
                    assert forall|j: int| 0 <= j < l2.len() implies !(#[trigger] l2[j]).contains('\n') by {
                        if j < path_list(l).len() {
                            assert(l2[j] == path_list(l)[j]);
                        }
                    }
                }
                lemma_join_keeps_free(l2, ':', '\n');
                lemma_concat_free(path_prefix(), join_with(l2, ':'), '\n');
            }
        }
    } else {
        lemma_concat_free(path_prefix(), "$PATH:"@, '\n');
        lemma_concat_free(path_prefix() + "$PATH:"@, entry, '\n');
        assert forall|i: int| 0 <= i < w.len() implies !(#[trigger] w[i]).contains('\n') by {
            if i < ls.len() {
                assert(w[i] == ls[i]);
            }
        }
    }
}

/// Adding the same segment to the search path a second time leaves the
/// profile file's text exactly as the first addition left it, and every
/// `PATH` line in it lists the segment once. The segment holds no `:` or
/// newline, is not the literal `$PATH`, and no `PATH` line of the earlier
/// profile listed it twice.
pub proof fn lemma_set_persistent_path_twice(t: Seq<char>, base: Option<Seq<char>>, new_path: Seq<char>)
    requires
        !path_entry(base, new_path).contains(':'),
        !path_entry(base, new_path).contains('\n'),
        path_entry(base, new_path) != "$PATH"@,
        lists_at_most_once(profile_lines(t), path_entry(base, new_path)),
    ensures
        profile_with_path(profile_with_path(t, base, new_path), base, new_path) == profile_with_path(
            t,
            base,
            new_path,
        ),
        forall|i: int|
            0 <= i < profile_lines(profile_with_path(t, base, new_path)).len() && is_path_line(
                #[trigger] profile_lines(profile_with_path(t, base, new_path))[i],
            ) ==> occurrences(
                path_list(profile_lines(profile_with_path(t, base, new_path))[i]),
                path_entry(base, new_path),
            ) == 1,
{
    let e = path_entry(base, new_path);
    let ls = profile_lines(t);
    assert(free_of(ls, '\n')) by {
        if t.len() > 0 {
            lemma_split_free(t, '\n');
        }
    }
    lemma_extend_path_twice(ls, e);
    lemma_extended_free(ls, e);
    let w = with_path(ls, e);
    let j = choose|j: int| 0 <= j < w.len() && is_path_line(#[trigger] w[j]);
    assert(w.len() >= 2 || w[0].len() > 0) by {
        if w.len() == 1 {
            assert(j == 0);
            reveal_strlit("export PATH=");
            reveal_strlit("PATH=");
        }
    }
    lemma_profile_round_trip(w);
}

} // verus!
