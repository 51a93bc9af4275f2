//! The install layout: `{root}/{name}/{name lower-cased}-{version}` per
//! installed version, a transient `{root}/{name}/temp` for extraction, and
//! the plan that turns an extraction into the canonical version directory.

use vstd::prelude::*;
use crate::text::{chars_of, string_of, concat_chars, lowercase, lower_of, contains_chars, contains_seq,
    chars_equal};
use crate::lines::{split_on, split_chars, char_views};
use crate::catalog::views;

verus! {

/// `dir` joined with `name`.
pub open spec fn child(dir: Seq<char>, name: Seq<char>) -> Seq<char> {
    dir + "/"@ + name
}

fn join_path(dir: &str, name: &str) -> (r: String)
    ensures
        r@ == child(dir@, name@),
{
    let v = concat_chars(&concat_chars(&chars_of(dir), &chars_of("/")), &chars_of(name));
    string_of(v.as_slice())
}

/// The canonical directory name of one installed version.
pub open spec fn version_dir_name_of(name: Seq<char>, version: Seq<char>) -> Seq<char> {
    lower_of(name) + "-"@ + version
}

/// The canonical directory name of one installed version: the environment
/// name lower-cased, a dash, the version.
pub fn version_dir_name(name: &str, version: &str) -> (r: String)
    ensures
        r@ == version_dir_name_of(name@, version@),
{
    let v = concat_chars(&concat_chars(&chars_of(lowercase(name).as_str()), &chars_of("-")), &chars_of(version));
    string_of(v.as_slice())
}

/// The directory holding every version of the environment `name`.
pub fn get_env_dir(install_root: &str, name: &str) -> (r: String)
    ensures
        r@ == child(install_root@, name@),
{
    join_path(install_root, name)
}

/// The canonical install directory of `version` of the environment `name`.
pub fn get_install_dir(install_root: &str, name: &str, version: &str) -> (r: String)
    ensures
        r@ == child(child(install_root@, name@), version_dir_name_of(name@, version@)),
{
    let env_dir = join_path(install_root, name);
    join_path(env_dir.as_str(), version_dir_name(name, version).as_str())
}

/// The transient extraction directory of the environment `name`.
pub fn get_temp_dir(install_root: &str, name: &str) -> (r: String)
    ensures
        r@ == child(child(install_root@, name@), "temp"@),
{
    let env_dir = join_path(install_root, name);
    join_path(env_dir.as_str(), "temp")
}

/// A file-system step of normalization.
pub enum FsAction {
    /// Remove a directory and everything under it.
    RemoveDirAll(String),
    /// Create a directory, with its parents.
    CreateDirAll(String),
    /// Rename `from` to `to`.
    Rename { from: String, to: String },
}

/// The spec model of an `FsAction`.
pub enum Step {
    RemoveDirAll(Seq<char>),
    CreateDirAll(Seq<char>),
    Rename(Seq<char>, Seq<char>),
}

impl FsAction {
    pub open spec fn model(&self) -> Step {
        match self {
            FsAction::RemoveDirAll(p) => Step::RemoveDirAll(p@),
            FsAction::CreateDirAll(p) => Step::CreateDirAll(p@),
            FsAction::Rename { from, to } => Step::Rename(from@, to@),
        }
    }
}

/// The models of a list of actions.
pub open spec fn steps(v: Seq<FsAction>) -> Seq<Step> {
    v.map_values(|a: FsAction| a.model())
}

/// A top-level entry of the extraction directory.
pub struct TopEntry {
    pub name: String,
    pub is_dir: bool,
}

/// The names of the top-level entries.
pub open spec fn entry_names(v: Seq<TopEntry>) -> Seq<Seq<char>> {
    v.map_values(|e: TopEntry| e.name@)
}

/// The moves of every entry of `temp` into `vdir`, in order.
pub open spec fn moves(temp: Seq<char>, vdir: Seq<char>, names: Seq<Seq<char>>) -> Seq<Step> {
    Seq::new(names.len(), |k: int| Step::Rename(child(temp, names[k]), child(vdir, names[k])))
}

/// The steps that relocate the extraction in `temp` to `vdir`: a lone
/// top-level directory is renamed to `vdir`; otherwise `vdir` is created and
/// every entry moved into it.
pub open spec fn relocation(temp: Seq<char>, vdir: Seq<char>, entries: Seq<TopEntry>) -> Seq<Step> {
    if entries.len() == 1 && entries[0].is_dir {
        seq![Step::Rename(child(temp, entries[0].name@), vdir)]
    } else {
        seq![Step::CreateDirAll(vdir)] + moves(temp, vdir, entry_names(entries))
    }
}

/// The whole normalization: remove a stale `vdir` first, relocate, then
/// remove `temp`.
pub open spec fn normalization(temp: Seq<char>, vdir: Seq<char>, entries: Seq<TopEntry>, stale: bool) -> Seq<
    Step,
> {
    (if stale {
        seq![Step::RemoveDirAll(vdir)]
    } else {
        Seq::<Step>::empty()
    }) + relocation(temp, vdir, entries) + seq![Step::RemoveDirAll(temp)]
}

/// The steps that turn the extraction in `temp_dir`, whose top-level
/// entries are `entries`, into the install directory `version_dir`;
/// `stale` says whether `version_dir` exists already, in which case it is
/// removed first and never merged into.
pub fn normalize(temp_dir: &str, version_dir: &str, entries: &Vec<TopEntry>, stale: bool) -> (r: Vec<
    FsAction,
>)
    ensures
        steps(r@) == normalization(temp_dir@, version_dir@, entries@, stale),
{
    let mut r: Vec<FsAction> = Vec::new();
    let ghost head = if stale {
        seq![Step::RemoveDirAll(version_dir@)]
    } else {
        Seq::<Step>::empty()
    };
    if stale {
        r.push(FsAction::RemoveDirAll(string_of(chars_of(version_dir).as_slice())));
    }
    assert(steps(r@) =~= head);
    if entries.len() == 1 && entries[0].is_dir {
        r.push(FsAction::Rename {
            from: join_path(temp_dir, entries[0].name.as_str()),
            to: string_of(chars_of(version_dir).as_slice()),
        });
        assert(steps(r@) =~= head + relocation(temp_dir@, version_dir@, entries@));
    } else {
        r.push(FsAction::CreateDirAll(string_of(chars_of(version_dir).as_slice())));
        let ghost start = steps(r@);
        let mut i: usize = 0;
        while i < entries.len()
            invariant
                i <= entries.len(),
                steps(r@) == start + moves(temp_dir@, version_dir@, entry_names(entries@)).take(
                    i as int,
                ),
            decreases entries.len() - i,
        {
            let name = entries[i].name.as_str();
            let ghost prev = steps(r@);
            let a = FsAction::Rename { from: join_path(temp_dir, name), to: join_path(version_dir, name) };
            assert(entry_names(entries@)[i as int] == name@);
            assert(a.model() == moves(temp_dir@, version_dir@, entry_names(entries@))[i as int]);
            r.push(a);
            assert(steps(r@) =~= prev.push(a.model()));
            assert(steps(r@) =~= start + moves(temp_dir@, version_dir@, entry_names(entries@)).take(
                i + 1,
            ));
            i += 1;
        }
        assert(moves(temp_dir@, version_dir@, entry_names(entries@)).take(i as int) =~= moves(
            temp_dir@,
            version_dir@,
            entry_names(entries@),
        ));
        assert(steps(r@) =~= head + relocation(temp_dir@, version_dir@, entries@));
    }
    let ghost body = steps(r@);
    r.push(FsAction::RemoveDirAll(string_of(chars_of(temp_dir).as_slice())));
    assert(steps(r@) =~= body + seq![Step::RemoveDirAll(temp_dir@)]);
    r
}

/// The program's own directory under the user's home directory.
pub fn get_env_home_dir(home: &str) -> (r: String)
    ensures
        r@ == child(home@, ".dev_env"@),
{
    join_path(home, ".dev_env")
}

/// The ledger file under the user's home directory.
pub fn get_home_config_path(home: &str) -> (r: String)
    ensures
        r@ == child(child(home@, ".dev_env"@), ".env.config.json"@),
{
    join_path(get_env_home_dir(home).as_str(), ".env.config.json")
}

/// The directory of partially downloaded archives under the temporary directory.
pub fn get_cache_dir(temp_root: &str) -> (r: String)
    ensures
        r@ == child(temp_root@, "env_download_cache"@),
{
    join_path(temp_root, "env_download_cache")
}

/// The version that an install directory's name records: for a name that
/// mentions the environment, its second `-`-separated field.
pub open spec fn version_in_dir_name_of(env_lower: Seq<char>, dir_lower: Seq<char>) -> Option<
    Seq<char>,
> {
    if contains_seq(dir_lower, env_lower) && split_on(dir_lower, '-').len() >= 2 {
        Some(split_on(dir_lower, '-')[1])
    } else {
        None
    }
}

/// The version recorded in the lower-cased directory name `dir_lower` of an
/// install of the environment whose lower-cased name is `env_lower`.
pub fn version_in_dir_name(env_lower: &str, dir_lower: &str) -> (r: Option<String>)
    ensures
        match r {
            Some(v) => version_in_dir_name_of(env_lower@, dir_lower@) == Some(v@),
            None => version_in_dir_name_of(env_lower@, dir_lower@) is None,
        },
{
    let d = chars_of(dir_lower);
    if !contains_chars(&d, &chars_of(env_lower)) {
        return None;
    }
    let parts = split_chars(&d, '-');
    if parts.len() < 2 {
        return None;
    }
    assert(char_views(parts@)[1] == parts@[1]@);
    Some(string_of(parts[1].as_slice()))
}

/// Where a version menu starts: at the first occurrence of the current
/// version, else at the top.
pub fn default_index(versions: &Vec<String>, current: Option<&str>) -> (r: usize)
    ensures
        match current {
            Some(c) => (r < versions.len() && views(versions@)[r as int] == c@ && forall|j: int|
                0 <= j < r ==> views(versions@)[j] != c@) || (r == 0 && forall|j: int|
                0 <= j < versions.len() ==> views(versions@)[j] != c@),
            None => r == 0,
        },
{
    match current {
        None => 0,
        Some(c) => {
            let key = chars_of(c);
            let mut i: usize = 0;
            while i < versions.len()
                invariant
                    current == Some(c),
                    i <= versions.len(),
                    key@ == c@,
                    forall|j: int| 0 <= j < i ==> views(versions@)[j] != c@,
                decreases versions.len() - i,
            {
                assert(views(versions@)[i as int] == versions@[i as int]@);
                if chars_equal(&chars_of(versions[i].as_str()), &key) {
                    return i;
                }
                i += 1;
            }
            0
        },
    }
}

/// The two directories that normalization touches: the entries of the
/// extraction directory by name, and those of the version directory when it
/// exists. An entry's payload `T` stands for its whole subtree; `inside` gives
/// the entries within a directory entry.
#[verifier::reject_recursive_types(T)]
pub struct DirState<T> {
    pub temp: Map<Seq<char>, T>,
    pub vdir: Option<Map<Seq<char>, T>>,
}

/// What one step does to the two directories at paths `temp` and `vdir`.
pub open spec fn apply_step<T>(
    s: DirState<T>,
    step: Step,
    temp: Seq<char>,
    vdir: Seq<char>,
    inside: spec_fn(T) -> Map<Seq<char>, T>,
) -> DirState<T> {
    match step {
        Step::RemoveDirAll(p) => if p == vdir {
            DirState { temp: s.temp, vdir: None }
        } else if p == temp {
            DirState { temp: Map::empty(), vdir: s.vdir }
        } else {
            s
        },
        Step::CreateDirAll(p) => if p == vdir && s.vdir is None {
            DirState { temp: s.temp, vdir: Some(Map::empty()) }
        } else {
            s
        },
        Step::Rename(from, to) => {
            let n = from.skip(temp.len() + 1int);
            if from == child(temp, n) && s.temp.contains_key(n) {
                if to == vdir && s.vdir is None {
                    DirState { temp: s.temp.remove(n), vdir: Some(inside(s.temp[n])) }
                } else if s.vdir is Some && to == child(vdir, n) {
                    DirState { temp: s.temp.remove(n), vdir: Some(s.vdir->0.insert(n, s.temp[n])) }
                } else {
                    s
                }
            } else {
                s
            }
        },
    }
}

/// The two directories after performing `steps` in order.
pub open spec fn run_steps<T>(
    s: DirState<T>,
    steps: Seq<Step>,
    temp: Seq<char>,
    vdir: Seq<char>,
    inside: spec_fn(T) -> Map<Seq<char>, T>,
) -> DirState<T>
    decreases steps.len(),
{
    if steps.len() == 0 {
        s
    } else {
        apply_step(run_steps(s, steps.drop_last(), temp, vdir, inside), steps.last(), temp, vdir, inside)
    }
}

proof fn lemma_run_concat<T>(
    s: DirState<T>,
    a: Seq<Step>,
    b: Seq<Step>,
    temp: Seq<char>,
    vdir: Seq<char>,
    inside: spec_fn(T) -> Map<Seq<char>, T>,
)
    ensures
        run_steps(s, a + b, temp, vdir, inside) == run_steps(
            run_steps(s, a, temp, vdir, inside),
            b,
            temp,
            vdir,
            inside,
        ),
    decreases b.len(),
{
    if b.len() == 0 {
        assert(a + b =~= a);
    } else {
        lemma_run_concat(s, a, b.drop_last(), temp, vdir, inside);
        assert((a + b).drop_last() =~= a + b.drop_last());
        assert((a + b).last() == b.last());
    }
}

proof fn lemma_child_name(dir: Seq<char>, name: Seq<char>)
    ensures
        child(dir, name).skip(dir.len() + 1int) == name,
        child(dir, name).len() > dir.len(),
{
    reveal_strlit("/");
    assert(child(dir, name).skip(dir.len() + 1int) =~= name);
}

/// The moves of the first `k` names, one after the other, carry exactly
/// those entries from the extraction directory into the version directory.
proof fn lemma_run_moves<T>(
    s: DirState<T>,
    names: Seq<Seq<char>>,
    k: int,
    temp: Seq<char>,
    vdir: Seq<char>,
    inside: spec_fn(T) -> Map<Seq<char>, T>,
)
    requires
        0 <= k <= names.len(),
        names.no_duplicates(),
        forall|i: int| 0 <= i < names.len() ==> s.temp.contains_key(#[trigger] names[i]),
        s.vdir == Some(Map::<Seq<char>, T>::empty()),
    ensures
        ({
            let r = run_steps(s, moves(temp, vdir, names).take(k), temp, vdir, inside);
            &&& r.vdir == Some(
                Map::new(|n: Seq<char>| names.take(k).contains(n), |n: Seq<char>| s.temp[n]),
            )
            &&& r.temp == Map::new(
                |n: Seq<char>| s.temp.contains_key(n) && !names.take(k).contains(n),
                |n: Seq<char>| s.temp[n],
            )
        }),
    decreases k,
{
    let ms = moves(temp, vdir, names);
    if k == 0 {
        assert(ms.take(0) =~= Seq::<Step>::empty());
        assert(Map::new(|n: Seq<char>| names.take(0).contains(n), |n: Seq<char>| s.temp[n]) =~= Map::<
            Seq<char>,
            T,
        >::empty());
        assert(Map::new(
            |n: Seq<char>| s.temp.contains_key(n) && !names.take(0).contains(n),
            |n: Seq<char>| s.temp[n],
        ) =~= s.temp);
    } else {
        lemma_run_moves(s, names, k - 1, temp, vdir, inside);
        let prev = run_steps(s, ms.take(k - 1), temp, vdir, inside);
        assert(ms.take(k).drop_last() =~= ms.take(k - 1));
        let n = names[k - 1];
        assert(ms.take(k).last() == Step::Rename(child(temp, n), child(vdir, n)));
        lemma_child_name(temp, n);
        lemma_child_name(vdir, n);
        assert(!names.take(k - 1).contains(n)) by {
            if names.take(k - 1).contains(n) {
                let j = choose|j: int| 0 <= j < k - 1 && #[trigger] names.take(k - 1)[j] == n;
                assert(names[j] == names[k - 1]);
            }
        }
        assert(names.take(k)[k - 1] == n);
        assert(prev.temp.contains_key(n));
        assert forall|m: Seq<char>| names.take(k).contains(m) <==> (names.take(k - 1).contains(m) || m
            == n) by {
            if names.take(k).contains(m) {
                let j = choose|j: int| 0 <= j < k && #[trigger] names.take(k)[j] == m;
                if j < k - 1 {
                    assert(names.take(k - 1)[j] == m);
                }
            }
            if names.take(k - 1).contains(m) {
                let j = choose|j: int| 0 <= j < k - 1 && #[trigger] names.take(k - 1)[j] == m;
                assert(names.take(k)[j] == m);
            }
        }
        let r = run_steps(s, ms.take(k), temp, vdir, inside);
        assert(r.vdir->0 =~= Map::new(|m: Seq<char>| names.take(k).contains(m), |m: Seq<char>| s.temp[m]));
        assert(r.temp =~= Map::new(
            |m: Seq<char>| s.temp.contains_key(m) && !names.take(k).contains(m),
            |m: Seq<char>| s.temp[m],
        ));
    }
}

/// What the version directory holds after normalizing the extraction `t`:
/// the inside of its lone top-level directory, or else all of it.
pub open spec fn normalized_content<T>(
    t: Map<Seq<char>, T>,
    entries: Seq<TopEntry>,
    inside: spec_fn(T) -> Map<Seq<char>, T>,
) -> Map<Seq<char>, T> {
    if entries.len() == 1 && entries[0].is_dir {
        inside(t[entries[0].name@])
    } else {
        t
    }
}

/// Normalizing replaces a stale version directory instead of merging into
/// it: whatever the version directory held before (an earlier install, or
/// nothing), afterwards it holds exactly what the current extraction gives,
/// and the extraction directory is gone. So of two normalizations of the same
/// version, the second leaves only its own content. `entries` lists the
/// extraction directory's top-level entries, each once, and the two
/// directories are distinct.
pub proof fn lemma_normalize_result<T>(
    s: DirState<T>,
    temp: Seq<char>,
    vdir: Seq<char>,
    entries: Seq<TopEntry>,
    inside: spec_fn(T) -> Map<Seq<char>, T>,
)
    requires
        temp != vdir,
        entry_names(entries).no_duplicates(),
        forall|n: Seq<char>| s.temp.contains_key(n) <==> entry_names(entries).contains(n),
    ensures
        run_steps(s, normalization(temp, vdir, entries, s.vdir is Some), temp, vdir, inside).vdir
            == Some(normalized_content(s.temp, entries, inside)),
        run_steps(s, normalization(temp, vdir, entries, s.vdir is Some), temp, vdir, inside).temp
            == Map::<Seq<char>, T>::empty(),
{
    let stale = s.vdir is Some;
    let head = if stale {
        seq![Step::RemoveDirAll(vdir)]
    } else {
        Seq::<Step>::empty()
    };
    let rel = relocation(temp, vdir, entries);
    let tail = seq![Step::RemoveDirAll(temp)];
    let names = entry_names(entries);
    lemma_run_concat(s, head + rel, tail, temp, vdir, inside);
    lemma_run_concat(s, head, rel, temp, vdir, inside);
    let s1 = run_steps(s, head, temp, vdir, inside);
    assert(run_steps(s, Seq::<Step>::empty(), temp, vdir, inside) == s);
    assert(s1.temp == s.temp && s1.vdir is None) by {
        if stale {
            assert(head.drop_last() =~= Seq::<Step>::empty());
            assert(head.last() == Step::RemoveDirAll(vdir));
        } else {
            assert(head =~= Seq::<Step>::empty());
        }
    }
    assert(run_steps(s1, Seq::<Step>::empty(), temp, vdir, inside) == s1);
    assert forall|i: int| 0 <= i < names.len() implies s.temp.contains_key(#[trigger] names[i]) by {
        assert(names.contains(names[i]));
    }
    let s2 = run_steps(s1, rel, temp, vdir, inside);
    if entries.len() == 1 && entries[0].is_dir {
        let d = entries[0].name@;
        lemma_child_name(temp, d);
        assert(rel.drop_last() =~= Seq::<Step>::empty());
        assert(rel.last() == Step::Rename(child(temp, d), vdir));
        assert(names[0] == d);
        assert(s.temp.contains_key(d));
        assert(s2.vdir == Some(inside(s.temp[d])));
    } else {
        let c = seq![Step::CreateDirAll(vdir)];
        let ms = moves(temp, vdir, names);
        lemma_run_concat(s1, c, ms, temp, vdir, inside);
        assert(c.drop_last() =~= Seq::<Step>::empty());
        assert(c.last() == Step::CreateDirAll(vdir));
        let s15 = run_steps(s1, c, temp, vdir, inside);
        assert(s15.temp == s.temp && s15.vdir == Some(Map::<Seq<char>, T>::empty()));
        lemma_run_moves(s15, names, names.len() as int, temp, vdir, inside);
        assert(ms.take(names.len() as int) =~= ms);
        assert(names.take(names.len() as int) =~= names);
        assert(s2.vdir->0 =~= s.temp);
    }
    assert(tail.drop_last() =~= Seq::<Step>::empty());
    assert(tail.last() == Step::RemoveDirAll(temp));
    assert(run_steps(s2, Seq::<Step>::empty(), temp, vdir, inside) == s2);
    assert(normalization(temp, vdir, entries, stale) =~= head + rel + tail);
}

} // verus!
