//! Environment definitions and their activation: each configured variable is
//! persisted with its placeholders substituted, then the executable
//! directory is added to the search path.

use vstd::prelude::*;
use crate::text::{chars_of, string_of, chars_equal, lowercase, lower_of};
use crate::lines::{join_with, join_chars, char_views};
use crate::vars::{handle_vars, substituted, binding_views, keys_unique};
use crate::profile::{set_persistent_env, set_persistent_path, profile_with_variable, profile_with_path};

verus! {

/// A question asked when configuring an environment.
pub struct EnvironmentInteractArgs {
    pub name: String,
    pub description: String,
    pub type_: String,
    pub default: String,
    pub options: Vec<String>,
    pub select_description: Vec<String>,
}

/// An answer given when configuring an environment.
pub struct EnvironmentSelectArgs {
    pub name: String,
    pub value: String,
}

/// One installable environment, as configured.
pub struct Environment {
    pub name: String,
    pub description: String,
    pub args: Vec<EnvironmentInteractArgs>,
    /// Path segments, possibly with placeholders, of the executable directory.
    pub executable: Vec<String>,
    /// Variables to persist, possibly with placeholders in their values;
    /// each name appears once (see `well_formed`).
    pub environment: Vec<(String, String)>,
    /// The repository URL template.
    pub repository: String,
    /// Whether the environment is supported; unset means supported.
    pub support: Option<bool>,
}

impl Environment {
    /// A definition is well formed when each variable it sets is named once,
    /// as in a map from names to values.
    pub open spec fn well_formed(&self) -> bool {
        keys_unique(binding_views(self.environment@))
    }

    /// Whether each variable of the definition is named once.
    pub fn has_unique_names(&self) -> (r: bool)
        ensures
            r == self.well_formed(),
    {
        let ghost b = binding_views(self.environment@);
        let n = self.environment.len();
        let mut i: usize = 0;
        while i < n
            invariant
                n == self.environment.len(),
                b == binding_views(self.environment@),
                i <= n,
                forall|x: int, y: int| 0 <= x < y < n && x < i ==> (#[trigger] b[x]).0 != (
                #[trigger] b[y]).0,
            decreases n - i,
        {
            let ki = chars_of(self.environment[i].0.as_str());
            let mut j: usize = i + 1;
            while j < n
                invariant
                    n == self.environment.len(),
                    b == binding_views(self.environment@),
                    i < j <= n,
                    ki@ == b[i as int].0,
                    forall|x: int, y: int| 0 <= x < y < n && x < i ==> (#[trigger] b[x]).0 != (
                    #[trigger] b[y]).0,
                    forall|y: int| i < y < j ==> (#[trigger] b[y]).0 != b[i as int].0,
                decreases n - j,
            {
                assert(b[j as int].0 == self.environment@[j as int].0@);
                if chars_equal(&chars_of(self.environment[j].0.as_str()), &ki) {
                    assert(b[i as int].0 == b[j as int].0);
                    return false;
                }
                j += 1;
            }
            i += 1;
        }
        true
    }
}

/// Whether the environment can be installed.
pub fn is_supported_env(env: &Environment) -> (r: bool)
    ensures
        r == (env.support != Some(false)),
{
    match env.support {
        Some(b) => b,
        None => true,
    }
}

/// The index of the first environment named `name`, ignoring case.
pub fn get_enviroment(envs: &Vec<Environment>, name: &str) -> (r: Option<usize>)
    ensures
        match r {
            Some(i) => i < envs.len() && lower_of(envs@[i as int].name@) == lower_of(name@)
                && forall|j: int| 0 <= j < i ==> lower_of(#[trigger] envs@[j].name@) != lower_of(
                name@,
            ),
            None => forall|j: int|
                0 <= j < envs.len() ==> lower_of(#[trigger] envs@[j].name@) != lower_of(name@),
        },
{
    let key = chars_of(lowercase(name).as_str());
    let mut i: usize = 0;
    while i < envs.len()
        invariant
            i <= envs.len(),
            key@ == lower_of(name@),
            forall|j: int| 0 <= j < i ==> lower_of(#[trigger] envs@[j].name@) != lower_of(name@),
        decreases envs.len() - i,
    {
        if chars_equal(&chars_of(lowercase(envs[i].name.as_str()).as_str()), &key) {
            return Some(i);
        }
        i += 1;
    }
    None
}

/// The executable directory: each segment substituted, joined with `/`.
pub open spec fn executable_path_of(segments: Seq<Seq<char>>, vars: Seq<(Seq<char>, Seq<char>)>) -> Seq<
    char,
> {
    join_with(segments.map_values(|s: Seq<char>| substituted(s, vars)), '/')
}

/// The executable directory of an environment, placeholders substituted.
pub fn executable_path(env: &Environment, vars: &Vec<(String, String)>) -> (r: String)
    ensures
        r@ == executable_path_of(crate::catalog::views(env.executable@), binding_views(vars@)),
{
    let mut parts: Vec<Vec<char>> = Vec::new();
    let ghost segs = crate::catalog::views(env.executable@);
    let ghost want = segs.map_values(|s: Seq<char>| substituted(s, binding_views(vars@)));
    let mut i: usize = 0;
    while i < env.executable.len()
        invariant
            i <= env.executable.len(),
            segs == crate::catalog::views(env.executable@),
            want == segs.map_values(|s: Seq<char>| substituted(s, binding_views(vars@))),
            char_views(parts@) == want.take(i as int),
        decreases env.executable.len() - i,
    {
        let v = handle_vars(env.executable[i].as_str(), vars);
        let ghost prev = char_views(parts@);
        let c = chars_of(v.as_str());
        parts.push(c);
        assert(segs[i as int] == env.executable@[i as int]@);
        assert(want[i as int] == substituted(segs[i as int], binding_views(vars@)));
        assert(c@ == want[i as int]);
        assert(char_views(parts@) =~= prev.push(c@));
        assert(char_views(parts@) =~= want.take(i + 1));
        i += 1;
    }
    assert(want.take(i as int) =~= want);
    string_of(join_chars(&parts, '/').as_slice())
}

/// The profile after persisting each configured variable in turn.
pub open spec fn with_variables(
    profile: Seq<char>,
    assignments: Seq<(Seq<char>, Seq<char>)>,
    vars: Seq<(Seq<char>, Seq<char>)>,
) -> Seq<char>
    decreases assignments.len(),
{
    if assignments.len() == 0 {
        profile
    } else {
        let (k, v) = assignments.last();
        profile_with_variable(
            with_variables(profile, assignments.drop_last(), vars),
            k,
            substituted(v, vars),
        )
    }
}

/// The profile text after activating `env`: each of its variables is set,
/// its value's placeholders substituted from `vars`, and its executable
/// directory is added to the search path.
pub fn activate_profile(profile: &str, env: &Environment, vars: &Vec<(String, String)>) -> (r: String)
    requires
        env.well_formed(),
    ensures
        r@ == profile_with_path(
            with_variables(profile@, binding_views(env.environment@), binding_views(vars@)),
            None,
            executable_path_of(crate::catalog::views(env.executable@), binding_views(vars@)),
        ),
{
    let mut cur = string_of(chars_of(profile).as_slice());
    let mut i: usize = 0;
    while i < env.environment.len()
        invariant
            i <= env.environment.len(),
            cur@ == with_variables(
                profile@,
                binding_views(env.environment@).take(i as int),
                binding_views(vars@),
            ),
        decreases env.environment.len() - i,
    {
        let key = &env.environment[i].0;
        let value = handle_vars(env.environment[i].1.as_str(), vars);
        let ghost a = binding_views(env.environment@).take(i + 1);
        assert(a.drop_last() =~= binding_views(env.environment@).take(i as int));
        assert(a.last() == (key@, env.environment@[i as int].1@));
        cur = set_persistent_env(cur.as_str(), key.as_str(), value.as_str());
        i += 1;
    }
    assert(binding_views(env.environment@).take(i as int) =~= binding_views(env.environment@));
    let path = executable_path(env, vars);
    set_persistent_path(cur.as_str(), None, path.as_str())
}

} // verus!
