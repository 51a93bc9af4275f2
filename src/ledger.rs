//! The install ledger: for each environment, its current version, its home
//! directory and the versions installed, without duplicates. Environment
//! names are matched without regard to case.

use vstd::prelude::*;
use crate::text::{chars_of, string_of, lowercase, lower_of, chars_equal};
use crate::catalog::{deduplicate, dedup_seq, views};

verus! {

/// One environment's entry in the ledger.
pub struct InstalledEnvironment {
    pub name: String,
    pub current_version: Option<String>,
    pub home_dir: Option<String>,
    pub installed_versions: Vec<String>,
}

/// The view of an optional string.
pub open spec fn opt_string(o: Option<String>) -> Option<Seq<char>> {
    match o {
        Some(s) => Some(s@),
        None => None,
    }
}

/// The model of a ledger entry: name, current version, home directory and
/// installed versions.
pub open spec fn entry_model(e: InstalledEnvironment) -> (
    Seq<char>,
    Option<Seq<char>>,
    Option<Seq<char>>,
    Seq<Seq<char>>,
) {
    (e.name@, opt_string(e.current_version), opt_string(e.home_dir), views(e.installed_versions@))
}

fn copy_string(s: &String) -> (r: String)
    ensures
        r@ == s@,
{
    string_of(chars_of(s.as_str()).as_slice())
}

impl InstalledEnvironment {
    /// A fresh entry for an environment installed for the first time.
    pub fn new(name: &str, version: &str, home_dir: &str) -> (r: InstalledEnvironment)
        ensures
            entry_model(r) == (name@, Some(version@), Some(home_dir@), seq![version@]),
    {
        let mut versions: Vec<String> = Vec::new();
        versions.push(string_of(chars_of(version).as_slice()));
        let r = InstalledEnvironment {
            name: string_of(chars_of(name).as_slice()),
            current_version: Some(string_of(chars_of(version).as_slice())),
            home_dir: Some(string_of(chars_of(home_dir).as_slice())),
            installed_versions: versions,
        };
        assert(views(r.installed_versions@) =~= seq![version@]);
        r
    }
}

/// The ledger model: one entry model per environment, in order.
pub open spec fn ledger_model(v: Seq<InstalledEnvironment>) -> Seq<
    (Seq<char>, Option<Seq<char>>, Option<Seq<char>>, Seq<Seq<char>>),
> {
    v.map_values(|e: InstalledEnvironment| entry_model(e))
}

/// Whether an entry named `entry_name` belongs to the environment `name`.
pub open spec fn same_env(entry_name: Seq<char>, name: Seq<char>) -> bool {
    lower_of(entry_name) == lower_of(name)
}

/// The index of the first entry of `m` for the environment `name`.
pub open spec fn first_entry(
    m: Seq<(Seq<char>, Option<Seq<char>>, Option<Seq<char>>, Seq<Seq<char>>)>,
    name: Seq<char>,
) -> Option<int>
    decreases m.len(),
{
    if m.len() == 0 {
        None
    } else {
        match first_entry(m.drop_last(), name) {
            Some(i) => Some(i),
            None => if same_env(m.last().0, name) {
                Some(m.len() - 1)
            } else {
                None
            },
        }
    }
}

/// The ledger model after recording that `version` of `name`, at
/// `home_dir`, is installed and current.
pub open spec fn recorded(
    m: Seq<(Seq<char>, Option<Seq<char>>, Option<Seq<char>>, Seq<Seq<char>>)>,
    name: Seq<char>,
    version: Seq<char>,
    home_dir: Seq<char>,
) -> Seq<(Seq<char>, Option<Seq<char>>, Option<Seq<char>>, Seq<Seq<char>>)> {
    match first_entry(m, name) {
        Some(i) => m.update(
            i,
            (m[i].0, Some(version), Some(home_dir), dedup_seq(m[i].3.push(version))),
        ),
        None => m.push((name, Some(version), Some(home_dir), seq![version])),
    }
}

proof fn lemma_first_entry_prefix(
    m: Seq<(Seq<char>, Option<Seq<char>>, Option<Seq<char>>, Seq<Seq<char>>)>,
    name: Seq<char>,
    k: int,
)
    requires
        0 <= k <= m.len(),
    ensures
        first_entry(m.take(k), name) is Some ==> first_entry(m, name) == first_entry(
            m.take(k),
            name,
        ),
        first_entry(m, name) matches Some(i) ==> 0 <= i < m.len() && same_env(m[i].0, name),
        first_entry(m, name) is None ==> forall|j: int|
            0 <= j < m.len() ==> !same_env(#[trigger] m[j].0, name),
    decreases m.len(),
{
    if m.len() > 0 {
        if k == m.len() {
            assert(m.take(k) =~= m);
        }
        let init = m.drop_last();
        if k < m.len() {
            assert(init.take(k) =~= m.take(k));
            lemma_first_entry_prefix(init, name, k);
        } else {
            lemma_first_entry_prefix(init, name, 0);
        }
        assert forall|j: int| 0 <= j < m.len() - 1 implies m[j] == init[j] by {}
    }
}

/// Exec search for `first_entry`.
fn find_entry(v: &Vec<InstalledEnvironment>, name: &str) -> (r: Option<usize>)
    ensures
        match r {
            Some(i) => i < v.len() && first_entry(ledger_model(v@), name@) == Some(i as int),
            None => first_entry(ledger_model(v@), name@) is None,
        },
{
    let key = chars_of(lowercase(name).as_str());
    let mut i: usize = 0;
    while i < v.len()
        invariant
            i <= v.len(),
            key@ == lower_of(name@),
            first_entry(ledger_model(v@).take(i as int), name@) is None,
        decreases v.len() - i,
    {
        let ghost m = ledger_model(v@).take(i + 1);
        assert(m.drop_last() =~= ledger_model(v@).take(i as int));
        assert(m.last() == entry_model(v@[i as int]));
        let this = chars_of(lowercase(v[i].name.as_str()).as_str());
        if chars_equal(&this, &key) {
            proof {
                lemma_first_entry_prefix(ledger_model(v@), name@, i + 1);
            }
            return Some(i);
        }
        i += 1;
    }
    assert(ledger_model(v@).take(v.len() as int) =~= ledger_model(v@));
    None
}

/// A copy of a list of versions.
fn copy_versions(src: &Vec<String>) -> (r: Vec<String>)
    ensures
        views(r@) == views(src@),
{
    let mut r: Vec<String> = Vec::new();
    let mut k: usize = 0;
    while k < src.len()
        invariant
            k <= src.len(),
            views(r@) == views(src@).take(k as int),
        decreases src.len() - k,
    {
        let ghost prev = views(r@);
        r.push(copy_string(&src[k]));
        assert(views(r@) =~= prev.push(src@[k as int]@));
        assert(views(src@)[k as int] == src@[k as int]@);
        assert(views(r@) =~= views(src@).take(k + 1));
        k += 1;
    }
    assert(views(src@).take(k as int) =~= views(src@));
    r
}

/// The installed environments, as persisted.
pub struct InstallLedger {
    pub install_path: String,
    pub installed: Vec<InstalledEnvironment>,
}

impl InstallLedger {
    /// The current version of the environment `name`, if it is recorded.
    pub fn get_current_version(&self, name: &str) -> (r: Option<String>)
        ensures
            match first_entry(ledger_model(self.installed@), name@) {
                Some(i) => opt_string(r) == ledger_model(self.installed@)[i].1,
                None => r is None,
            },
    {
        match find_entry(&self.installed, name) {
            Some(i) => match &self.installed[i].current_version {
                Some(c) => Some(copy_string(c)),
                None => None,
            },
            None => None,
        }
    }

    /// The installed versions of the environment `name`; none when it is not
    /// recorded.
    pub fn get_install_versions(&self, name: &str) -> (r: Vec<String>)
        ensures
            match first_entry(ledger_model(self.installed@), name@) {
                Some(i) => views(r@) == ledger_model(self.installed@)[i].3,
                None => r@.len() == 0,
            },
    {
        match find_entry(&self.installed, name) {
            Some(i) => copy_versions(&self.installed[i].installed_versions),
            None => Vec::new(),
        }
    }

    /// Records that `version` of `name`, installed at `home_dir`, is now the
    /// current version; the version is added to the installed list unless
    /// already there.
    pub fn switch_version(&mut self, name: &str, version: &str, home_dir: &str)
        ensures
            ledger_model(final(self).installed@) == recorded(
                ledger_model(old(self).installed@),
                name@,
                version@,
                home_dir@,
            ),
            final(self).install_path == old(self).install_path,
    {
        match find_entry(&self.installed, name) {
            Some(i) => {
                let ghost m = ledger_model(self.installed@);
                let mut pushed = copy_versions(&self.installed[i].installed_versions);
                let ghost before = views(pushed@);
                pushed.push(string_of(chars_of(version).as_slice()));
                assert(views(pushed@) =~= before.push(version@));
                let versions = deduplicate(pushed.as_slice());
                let entry_name = copy_string(&self.installed[i].name);
                let e = InstalledEnvironment {
                    name: entry_name,
                    current_version: Some(string_of(chars_of(version).as_slice())),
                    home_dir: Some(string_of(chars_of(home_dir).as_slice())),
                    installed_versions: versions,
                };
                self.installed.set(i, e);
                assert(ledger_model(self.installed@) =~= m.update(i as int, entry_model(e)));
            },
            None => {
                let e = InstalledEnvironment::new(name, version, home_dir);
                let ghost m = ledger_model(self.installed@);
                self.installed.push(e);
                assert(ledger_model(self.installed@) =~= m.push(entry_model(e)));
            },
        }
    }
}

proof fn lemma_first_entry_before(
    m: Seq<(Seq<char>, Option<Seq<char>>, Option<Seq<char>>, Seq<Seq<char>>)>,
    name: Seq<char>,
)
    ensures
        first_entry(m, name) matches Some(i) ==> forall|j: int|
            0 <= j < i ==> !same_env(#[trigger] m[j].0, name),
    decreases m.len(),
{
    if m.len() > 0 {
        let init = m.drop_last();
        lemma_first_entry_before(init, name);
        lemma_first_entry_prefix(init, name, 0);
        assert forall|j: int| 0 <= j < m.len() - 1 implies m[j] == init[j] by {}
    }
}

proof fn lemma_first_entry_at(
    m: Seq<(Seq<char>, Option<Seq<char>>, Option<Seq<char>>, Seq<Seq<char>>)>,
    name: Seq<char>,
    i: int,
)
    requires
        0 <= i < m.len(),
        same_env(m[i].0, name),
        forall|j: int| 0 <= j < i ==> !same_env(#[trigger] m[j].0, name),
    ensures
        first_entry(m, name) == Some(i),
    decreases m.len(),
{
    let init = m.drop_last();
    if i < m.len() - 1 {
        assert forall|j: int| 0 <= j < i implies !same_env(#[trigger] init[j].0, name) by {
            assert(init[j] == m[j]);
        }
        assert(init[i] == m[i]);
        lemma_first_entry_at(init, name, i);
    } else {
        lemma_first_entry_prefix(init, name, 0);
        if first_entry(init, name) is Some {
            let k = first_entry(init, name)->0;
            assert(init[k] == m[k]);
        }
    }
}

proof fn lemma_dedup_contains_last(s: Seq<Seq<char>>)
    requires
        s.len() > 0,
    ensures
        dedup_seq(s).contains(s.last()),
{
    let d = dedup_seq(s.drop_last());
    if !d.contains(s.last()) {
        assert(d.push(s.last())[d.len() as int] == s.last());
    }
}

proof fn lemma_dedup_idempotent(s: Seq<Seq<char>>)
    ensures
        dedup_seq(dedup_seq(s)) == dedup_seq(s),
    decreases s.len(),
{
    if s.len() > 0 {
        let d = dedup_seq(s.drop_last());
        lemma_dedup_idempotent(s.drop_last());
        if !d.contains(s.last()) {
            assert(d.push(s.last()).drop_last() =~= d);
        }
    }
}

/// Recording the same version of the same environment a second time leaves
/// the ledger as the first recording left it: the version is current and
/// listed once.
pub proof fn lemma_record_twice(
    m: Seq<(Seq<char>, Option<Seq<char>>, Option<Seq<char>>, Seq<Seq<char>>)>,
    name: Seq<char>,
    version: Seq<char>,
    home_dir: Seq<char>,
)
    ensures
        recorded(recorded(m, name, version, home_dir), name, version, home_dir) == recorded(
            m,
            name,
            version,
            home_dir,
        ),
{
    let m1 = recorded(m, name, version, home_dir);
    lemma_first_entry_prefix(m, name, 0);
    match first_entry(m, name) {
        Some(i) => {
            lemma_first_entry_before(m, name);
            assert forall|j: int| 0 <= j < i implies !same_env(#[trigger] m1[j].0, name) by {
                assert(m1[j] == m[j]);
            }
            lemma_first_entry_at(m1, name, i);
            let d = dedup_seq(m[i].3.push(version));
            lemma_dedup_contains_last(m[i].3.push(version));
            lemma_dedup_idempotent(m[i].3.push(version));
            assert(d.push(version).drop_last() =~= d);
            assert(m1.update(i, (m1[i].0, Some(version), Some(home_dir), dedup_seq(d.push(version))))
                =~= m1);
        },
        None => {
            let n = m.len() as int;
            assert(m1.drop_last() =~= m);
            assert(first_entry(m1, name) == Some(n));
            let one = seq![version];
            assert(one.drop_last() =~= Seq::<Seq<char>>::empty());
            assert(dedup_seq(Seq::<Seq<char>>::empty()) == Seq::<Seq<char>>::empty());
            assert(!Seq::<Seq<char>>::empty().contains(version));
            assert(one.last() == version);
            assert(Seq::<Seq<char>>::empty().push(version) =~= one);
            assert(dedup_seq(one) =~= one);
            assert(one.push(version).drop_last() =~= one);
            assert(one.contains(version)) by {
                assert(one[0] == version);
            }
            assert(dedup_seq(one.push(version)) == one);
            assert(m1.update(n, (m1[n].0, Some(version), Some(home_dir), dedup_seq(one.push(version))))
                =~= m1);
        },
    }
}

} // verus!
