//! Environment variables as data: the dispatcher never reads the process
//! environment itself. The caller hands in the variables the configured
//! strategies may name, and lookups are verified over that snapshot.

use vstd::prelude::*;

verus! {

/// One environment variable: its name and its value.
pub struct EnvVar {
    pub name: String,
    pub value: String,
}

/// Ghost model of an `EnvVar`.
#[verifier::ext_equal]
pub ghost struct EnvVarModel {
    pub name: Seq<char>,
    pub value: Seq<char>,
}

impl View for EnvVar {
    type V = EnvVarModel;

    open spec fn view(&self) -> EnvVarModel {
        EnvVarModel { name: self.name@, value: self.value@ }
    }
}

impl DeepView for EnvVar {
    type V = EnvVarModel;

    open spec fn deep_view(&self) -> EnvVarModel {
        self@
    }
}

/// The value of the first variable of `vars` named `name`, if any.
pub open spec fn spec_env_lookup(vars: Seq<EnvVarModel>, name: Seq<char>) -> Option<Seq<char>>
    decreases vars.len(),
{
    if vars.len() == 0 {
        None
    } else if vars[0].name == name {
        Some(vars[0].value)
    } else {
        spec_env_lookup(vars.drop_first(), name)
    }
}

/// A snapshot of the environment variables relevant to one dispatch.
pub struct Environment {
    pub vars: Vec<EnvVar>,
}

impl View for Environment {
    type V = Seq<EnvVarModel>;

    open spec fn view(&self) -> Seq<EnvVarModel> {
        self.vars.deep_view()
    }
}

impl Environment {
    /// Looks a variable up by name in the snapshot.
    pub fn get_environment_variable(&self, name: &String) -> (r: Option<String>)
        ensures
            r.deep_view() == spec_env_lookup(self@, name@),
    {
        let n = self.vars.len();
        let mut i: usize = 0;
        assert(self@.skip(0) == self@);
        while i < n
            invariant
                0 <= i <= n,
                n == self.vars.len(),
                spec_env_lookup(self@, name@) == spec_env_lookup(self@.skip(i as int), name@),
            decreases n - i,
        {
            assert(self@.skip(i as int)[0] == self@[i as int]);
            assert(self@.skip(i as int).drop_first() == self@.skip(i as int + 1));
            if self.vars[i].name == *name {
                return Some(self.vars[i].value.clone());
            }
            i = i + 1;
        }
        None
    }
}

} // verus!
