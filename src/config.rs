use vstd::prelude::*;

use crate::text::{has_prefix, push_char, spells};

verus! {

pub enum ConfigError {
    ReadFailure { path: String, msg: String },
}

impl ConfigError {
    pub fn to_string(&self) -> (r: String)
        ensures
            match self {
                ConfigError::ReadFailure { path, msg } => r@ == "Failed to read config from path: "@
                    + path@ + ". Error:"@ + msg@,
            },
    {
        match self {
            ConfigError::ReadFailure { path, msg } => {
                let mut out = String::from_str("Failed to read config from path: ");
                out.append(path.as_str());
                out.append(". Error:");
                out.append(msg.as_str());
                out
            },
        }
    }
}

/// The configuration file: where the repository comes from, options, rules.
pub struct Config {
    pub repository: RepositoryConfig,
    pub options: OptionsConfig,
    pub rules: Vec<Rule>,
}

/// Where to find the repository. `url` holds an address that has been parsed
/// as a URL, in its serialized form.
pub struct RepositoryConfig {
    pub url: Option<String>,
    pub path: Option<String>,
    pub access_token: Option<String>,
}

pub struct OptionsConfig {
    pub clone_into: Option<String>,
}

/// One step of a transform. `args` holds the string-valued entries of the
/// step's argument mapping, by key.
pub struct TransformStep {
    pub name: String,
    pub args: Option<Vec<(String, String)>>,
}

pub struct Transform {
    pub steps: Vec<TransformStep>,
}

#[derive(Debug, Clone, Copy, PartialEq, Eq, Structural)]
pub enum AlertLevel {
    Info,
    Warn,
    Severe,
}

pub struct Action {}

pub struct Rule {
    pub transform: Transform,
}

/// A user-defined transform: its step name and its script.
pub struct CustomStep {
    pub name: String,
    pub script: String,
}

impl View for CustomStep {
    type V = (Seq<char>, Seq<char>);

    open spec fn view(&self) -> (Seq<char>, Seq<char>) {
        (self.name@, self.script@)
    }
}

/// The value of the first entry of `args`, from index `i` on, whose key is `key`.
pub open spec fn arg_from(args: Seq<(String, String)>, key: Seq<char>, i: nat) -> Option<Seq<char>>
    decreases args.len() - i,
{
    if i >= args.len() {
        None
    } else if args[i as int].0@ == key {
        Some(args[i as int].1@)
    } else {
        arg_from(args, key, i + 1)
    }
}

/// The string value that `args` gives to `key`.
pub open spec fn arg_of(args: Seq<(String, String)>, key: Seq<char>) -> Option<Seq<char>> {
    arg_from(args, key, 0)
}

/// Looks up the string value of `key`.
pub fn arg(args: &Vec<(String, String)>, key: &str) -> (r: Option<String>)
    ensures
        match r {
            Some(v) => arg_of(args@, key@) == Some(v@),
            None => arg_of(args@, key@) is None,
        },
{
    let mut i: usize = 0;
    while i < args.len()
        invariant
            i <= args.len(),
            arg_of(args@, key@) == arg_from(args@, key@, i as nat),
        decreases args.len() - i,
    {
        if spells(&args[i].0, key) {
            return Some(args[i].1.clone());
        }
        i = i + 1;
    }
    None
}

/// The script of a step, when the step is a custom one: its name begins with
/// `custom` and its arguments give `script` a string.
pub open spec fn step_script(step: TransformStep) -> Option<Seq<char>> {
    let prefix = "custom"@;
    if prefix.len() <= step.name@.len() && step.name@.subrange(0, prefix.len() as int) == prefix
        && step.args is Some {
        arg_of(step.args->Some_0@, "script"@)
    } else {
        None
    }
}

/// The custom steps among `steps`, in order, as (name, script).
pub open spec fn custom_steps(steps: Seq<TransformStep>) -> Seq<(Seq<char>, Seq<char>)>
    decreases steps.len(),
{
    if steps.len() == 0 {
        Seq::empty()
    } else {
        let prev = custom_steps(steps.drop_last());
        match step_script(steps.last()) {
            Some(script) => prev.push((steps.last().name@, script)),
            None => prev,
        }
    }
}

/// The steps of all rules' transforms, rule after rule.
pub open spec fn rule_steps(rules: Seq<Rule>) -> Seq<TransformStep>
    decreases rules.len(),
{
    if rules.len() == 0 {
        Seq::empty()
    } else {
        rule_steps(rules.drop_last()) + rules.last().transform.steps@
    }
}

fn step_script_of(step: &TransformStep) -> (r: Option<String>)
    ensures
        match r {
            Some(v) => step_script(*step) == Some(v@),
            None => step_script(*step) is None,
        },
{
    if has_prefix(&step.name, "custom") {
        match &step.args {
            Some(args) => arg(args, "script"),
            None => None,
        }
    } else {
        None
    }
}

impl Config {
    /// The user-defined transforms of all rules, in order; `None` when there
    /// are none.
    pub fn custom_transform_scripts(&self) -> (r: Option<Vec<CustomStep>>)
        ensures
            match r {
                Some(v) => v@.len() > 0 && v@.map_values(|c: CustomStep| c@) == custom_steps(
                    rule_steps(self.rules@),
                ),
                None => custom_steps(rule_steps(self.rules@)).len() == 0,
            },
    {
        let mut scripts: Vec<CustomStep> = Vec::new();
        let mut i: usize = 0;
        while i < self.rules.len()
            invariant
                i <= self.rules.len(),
                scripts@.map_values(|c: CustomStep| c@) == custom_steps(
                    rule_steps(self.rules@.subrange(0, i as int)),
                ),
            decreases self.rules.len() - i,
        {
            let steps = &self.rules[i].transform.steps;
            let ghost done = rule_steps(self.rules@.subrange(0, i as int));
            let mut j: usize = 0;
            assert(done + steps@.subrange(0, 0) =~= done);
            while j < steps.len()
                invariant
                    j <= steps.len(),
                    scripts@.map_values(|c: CustomStep| c@) == custom_steps(
                        done + steps@.subrange(0, j as int),
                    ),
                decreases steps.len() - j,
            {
                let ghost before = scripts@;
                let ghost all = done + steps@.subrange(0, j as int + 1);
                assert(all.drop_last() =~= done + steps@.subrange(0, j as int));
                assert(all.last() == steps@[j as int]);
                match step_script_of(&steps[j]) {
                    Some(script) => {
                        scripts.push(CustomStep { name: steps[j].name.clone(), script });
                        assert(scripts@.map_values(|c: CustomStep| c@) =~= before.map_values(
                            |c: CustomStep| c@,
                        ).push((steps@[j as int].name@, script@)));
                    },
                    None => {},
                }
                j = j + 1;
            }
            proof {
                let upto = self.rules@.subrange(0, i as int + 1);
                assert(upto.drop_last() =~= self.rules@.subrange(0, i as int));
                assert(steps@.subrange(0, j as int) =~= steps@);
            }
            i = i + 1;
        }
        assert(self.rules@.subrange(0, i as int) =~= self.rules@);
        if scripts.len() == 0 {
            None
        } else {
            Some(scripts)
        }
    }
}

/// How an access token is shown: four stars, then its last five characters;
/// a token of fewer than five characters shows as `****INVALID`.
pub open spec fn masked_token(token: Seq<char>) -> Seq<char> {
    if token.len() >= 5 {
        "****"@ + token.subrange(token.len() - 5, token.len() as int)
    } else {
        "****INVALID"@
    }
}

/// The one-line description of a repository configuration, with the access
/// token masked.
pub open spec fn described(c: RepositoryConfig) -> Seq<char> {
    "RepositoryConfig { url: "@ + match c.url {
        Some(u) => u@,
        None => "None"@,
    } + ",  access_token: "@ + match c.access_token {
        Some(t) => masked_token(t@),
        None => "None"@,
    } + " }"@
}

fn mask(token: &String) -> (r: String)
    ensures
        r@ == masked_token(token@),
{
    let t = token.as_str();
    let n = t.unicode_len();
    if n < 5 {
        return String::from_str("****INVALID");
    }
    let mut out = String::from_str("****");
    let mut k: usize = n - 5;
    let ghost lo: int = k as int;
    while k < n
        invariant
            t@ == token@,
            n == t@.len(),
            0 <= lo,
            lo == n - 5,
            lo <= k <= n,
            out@ == "****"@ + t@.subrange(lo, k as int),
        decreases n - k,
    {
        let ghost before = out@;
        push_char(&mut out, t.get_char(k));
        assert(t@.subrange(lo, k + 1) =~= t@.subrange(lo, k as int).push(t@[k as int]));
        assert(out@ =~= "****"@ + t@.subrange(lo, k + 1));
        k = k + 1;
    }
    assert(lo == t@.len() - 5);
    out
}

impl RepositoryConfig {
    pub fn describe(&self) -> (r: String)
        ensures
            r@ == described(*self),
    {
        let mut out = String::from_str("RepositoryConfig { url: ");
        match &self.url {
            Some(u) => out.append(u.as_str()),
            None => out.append("None"),
        }
        out.append(",  access_token: ");
        match &self.access_token {
            Some(t) => {
                let m = mask(t);
                out.append(m.as_str());
            },
            None => out.append("None"),
        }
        out.append(" }");
        out
    }
}

} // verus!
