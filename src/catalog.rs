//! Environment names, version-string checks and list de-duplication.

use vstd::prelude::*;
use crate::text::{chars_of, string_of, is_digit, slice_chars};

verus! {

/// The environments whose active version can be switched.
#[derive(Copy, Clone, PartialEq, Eq, Debug, PartialOrd, Ord, Structural)]
pub enum ChooseEnvironment {
    Java,
    Python,
    Node,
    Rust,
    Go,
    MySQL,
    PostgreSQL,
    MongoDB,
    Redis,
}

impl ChooseEnvironment {
    /// The display name under which the environment is configured.
    pub open spec fn spec_name(self) -> Seq<char> {
        match self {
            ChooseEnvironment::Java => "Java"@,
            ChooseEnvironment::Python => "Python"@,
            ChooseEnvironment::Node => "Node.js"@,
            ChooseEnvironment::Rust => "Rust"@,
            ChooseEnvironment::Go => "Go"@,
            ChooseEnvironment::MySQL => "MySQL"@,
            ChooseEnvironment::PostgreSQL => "PostgreSQL"@,
            ChooseEnvironment::MongoDB => "MongoDB"@,
            ChooseEnvironment::Redis => "Redis"@,
        }
    }

    pub fn get_name(&self) -> (r: &'static str)
        ensures
            r@ == self.spec_name(),
    {
        match self {
            ChooseEnvironment::Java => "Java",
            ChooseEnvironment::Python => "Python",
            ChooseEnvironment::Node => "Node.js",
            ChooseEnvironment::Rust => "Rust",
            ChooseEnvironment::Go => "Go",
            ChooseEnvironment::MySQL => "MySQL",
            ChooseEnvironment::PostgreSQL => "PostgreSQL",
            ChooseEnvironment::MongoDB => "MongoDB",
            ChooseEnvironment::Redis => "Redis",
        }
    }
}

/// Number of occurrences of `c` in `s`.
pub open spec fn count_char(s: Seq<char>, c: char) -> nat
    decreases s.len(),
{
    if s.len() == 0 {
        0
    } else {
        count_char(s.drop_last(), c) + if s.last() == c { 1nat } else { 0nat }
    }
}

/// A version of the form `major.minor.patch`: three non-empty runs of
/// decimal digits separated by single dots.
pub open spec fn is_valid_version(s: Seq<char>) -> bool {
    &&& s.len() > 0
    &&& count_char(s, '.') == 2
    &&& s[0] != '.'
    &&& s.last() != '.'
    &&& forall|i: int| #![trigger s[i]] 0 <= i < s.len() ==> (s[i] == '.' || is_digit(s[i]))
    &&& forall|i: int| #![trigger s[i]] 0 <= i < s.len() - 1 ==> !(s[i] == '.' && s[i + 1] == '.')
}

/// Whether `version` is a three-part numeric version such as `17.0.12`.
pub fn validate_version(version: &str) -> (r: bool)
    ensures
        r == is_valid_version(version@),
{
    let s = chars_of(version);
    let n = s.len();
    if n == 0 {
        return false;
    }
    let mut dots: usize = 0;
    let mut i: usize = 0;
    while i < n
        invariant
            n == s.len(),
            n > 0,
            i <= n,
            dots == count_char(s@.take(i as int), '.'),
            dots <= i,
            s@ == version@,
            forall|k: int| #![trigger s@[k]] 0 <= k < i ==> (s@[k] == '.' || is_digit(s@[k])),
            forall|k: int| #![trigger s@[k]] 0 <= k < i - 1 ==> !(s@[k] == '.' && s@[k + 1] == '.'),
        decreases n - i,
    {
        let c = s[i];
        assert(s@.take(i + 1).drop_last() =~= s@.take(i as int));
        if c == '.' {
            if i > 0 && s[i - 1] == '.' {
                assert(s@[i - 1] == '.' && s@[(i - 1) + 1] == '.');
                return false;
            }
            dots += 1;
        } else if !('0' <= c && c <= '9') {
            assert(!(s@[i as int] == '.' || is_digit(s@[i as int])));
            return false;
        }
        i += 1;
    }
    assert(s@.take(n as int) =~= s@);
    dots == 2 && s[0] != '.' && s[n - 1] != '.'
}

/// Index of the first space in `s`, or its length when it holds none.
pub open spec fn field_end(s: Seq<char>) -> nat
    decreases s.len(),
{
    if s.len() == 0 {
        0
    } else if s[0] == ' ' {
        0
    } else {
        1 + field_end(s.drop_first())
    }
}

/// The second space-separated field of `s`, when `s` holds a space.
pub open spec fn second_field(s: Seq<char>) -> Option<Seq<char>> {
    let e = field_end(s);
    if e < s.len() {
        let rest = s.skip(e + 1 as int);
        Some(rest.take(field_end(rest) as int))
    } else {
        None
    }
}

/// The version reported in the output of `java --version`: its second field,
/// when that is a valid version.
pub open spec fn java_version_in(output: Seq<char>) -> Option<Seq<char>> {
    match second_field(output) {
        Some(f) => if is_valid_version(f) { Some(f) } else { None },
        None => None,
    }
}

proof fn lemma_field_end(s: Seq<char>)
    ensures
        field_end(s) <= s.len(),
        forall|k: int| 0 <= k < field_end(s) ==> s[k] != ' ',
        field_end(s) < s.len() ==> s[field_end(s) as int] == ' ',
    decreases s.len(),
{
    if s.len() > 0 && s[0] != ' ' {
        lemma_field_end(s.drop_first());
        assert forall|k: int| 0 <= k < field_end(s) implies s[k] != ' ' by {
            if k > 0 {
                assert(s[k] == s.drop_first()[k - 1]);
            }
        }
    }
}

/// Exec scan for `field_end`, starting at `from`.
fn find_space(s: &Vec<char>, from: usize) -> (r: usize)
    requires
        from <= s.len(),
    ensures
        from <= r <= s.len(),
        r == from + field_end(s@.skip(from as int)),
{
    let mut i: usize = from;
    while i < s.len() && s[i] != ' '
        invariant
            from <= i <= s.len(),
            forall|k: int| from <= k < i ==> s@[k] != ' ',
        decreases s.len() - i,
    {
        i += 1;
    }
    proof {
        lemma_field_end_at(s@.skip(from as int), (i - from) as nat);
    }
    i
}

proof fn lemma_field_end_at(s: Seq<char>, j: nat)
    requires
        j <= s.len(),
        forall|k: int| 0 <= k < j ==> s[k] != ' ',
        j == s.len() || s[j as int] == ' ',
    ensures
        field_end(s) == j,
    decreases j,
{
    if j > 0 {
        lemma_field_end_at(s.drop_first(), (j - 1) as nat);
    }
}

/// The version printed by `java --version`, read from its output.
pub fn get_java_version_from(output: &str) -> (r: Option<String>)
    ensures
        r is Some <==> java_version_in(output@) is Some,
        r matches Some(v) ==> java_version_in(output@) == Some(v@),
{
    let s = chars_of(output);
    let e = find_space(&s, 0);
    assert(s@.skip(0) =~= s@);
    if e >= s.len() {
        return None;
    }
    let e2 = find_space(&s, e + 1);
    let f = slice_chars(&s, e + 1, e2);
    assert(s@.skip(e + 1).take(field_end(s@.skip(e + 1)) as int) =~= s@.subrange(e + 1, e2 as int));
    assert(f@ =~= s@.skip(e + 1).take(field_end(s@.skip(e + 1)) as int));
    let fs = string_of(f.as_slice());
    if validate_version(fs.as_str()) {
        Some(fs)
    } else {
        None
    }
}

/// `s` with every element after its first occurrence removed.
pub open spec fn dedup_seq(s: Seq<Seq<char>>) -> Seq<Seq<char>>
    decreases s.len(),
{
    if s.len() == 0 {
        s
    } else {
        let d = dedup_seq(s.drop_last());
        if d.contains(s.last()) {
            d
        } else {
            d.push(s.last())
        }
    }
}

/// The character sequences that a list of strings holds.
pub open spec fn views(v: Seq<String>) -> Seq<Seq<char>> {
    v.map_values(|x: String| x@)
}

/// The strings of `arr` in order, each kept at its first occurrence only.
pub fn deduplicate(arr: &[String]) -> (r: Vec<String>)
    ensures
        views(r@) == dedup_seq(views(arr@)),
{
    let mut r: Vec<String> = Vec::new();
    let mut i: usize = 0;
    while i < arr.len()
        invariant
            i <= arr.len(),
            views(r@) == dedup_seq(views(arr@.take(i as int))),
        decreases arr.len() - i,
    {
        let mut found = false;
        let mut j: usize = 0;
        while j < r.len()
            invariant
                i < arr.len(),
                j <= r.len(),
                found <==> exists|k: int| 0 <= k < j && r@[k]@ == arr@[i as int]@,
            decreases r.len() - j,
        {
            if r[j] == arr[i] {
                found = true;
            }
            j += 1;
        }
        proof {
            let pre = views(arr@.take(i as int));
            let post = views(arr@.take(i + 1));
            assert(post.drop_last() =~= pre);
            assert(post.last() == arr@[i as int]@);
            if found {
                let k = choose|k: int| 0 <= k < r.len() && r@[k]@ == arr@[i as int]@;
                assert(views(r@)[k] == arr@[i as int]@);
            } else {
                assert forall|k: int| 0 <= k < views(r@).len() implies views(r@)[k] != arr@[i as int]@ by {
                    assert(views(r@)[k] == r@[k]@);
                }
            }
        }
        if !found {
            r.push(arr[i].clone());
            assert(views(r@) =~= dedup_seq(views(arr@.take(i + 1))));
        }
        i += 1;
    }
    assert(arr@.take(arr.len() as int) =~= arr@);
    r
}

} // verus!
