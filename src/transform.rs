use vstd::prelude::*;

use crate::config::{arg, arg_of, CustomStep};
use crate::text::spells;

verus! {

/// What a transform works on: the matched text and where it was found.
pub struct Context {
    pub matched_string: String,
    pub file_path: String,
    pub class_name: Option<String>,
}

/// Lower-cases the matched text.
pub struct ToLowerCase;

/// Replaces every occurrence of the `pattern` argument by the `with` argument.
pub struct Replace;

/// Runs a user script on the context.
pub struct CustomFunction {
    pub script: String,
}

/// What `str::to_lowercase` returns for `s`.
pub uninterp spec fn lower_of(s: Seq<char>) -> Seq<char>;

/// Relies on `str::to_lowercase`: the result depends on the characters alone.
#[verifier::external_body]
fn to_lowercase(s: &str) -> (r: String)
    ensures
        r@ == lower_of(s@),
{
    s.to_lowercase()
}

/// `s` with every match of `from` replaced by `to`: matches are taken left to
/// right without overlap; an empty `from` matches at every character boundary,
/// both ends included.
pub open spec fn replaced(s: Seq<char>, from: Seq<char>, to: Seq<char>) -> Seq<char>
    decreases s.len(),
{
    if from.len() == 0 {
        if s.len() == 0 {
            to
        } else {
            to + seq![s[0]] + replaced(s.drop_first(), from, to)
        }
    } else if s.len() < from.len() {
        s
    } else if s.subrange(0, from.len() as int) == from {
        to + replaced(s.subrange(from.len() as int, s.len() as int), from, to)
    } else {
        seq![s[0]] + replaced(s.drop_first(), from, to)
    }
}

/// Relies on `str::replace`: replaces the matches of `from` that
/// `str::match_indices` finds, non-overlapping and left to right.
#[verifier::external_body]
fn replace_all(s: &str, from: &str, to: &str) -> (r: String)
    ensures
        r@ == replaced(s@, from@, to@),
{
    s.replace(from, to)
}

/// The value of an optional argument, empty when absent.
pub open spec fn or_empty(v: Option<Seq<char>>) -> Seq<char> {
    match v {
        Some(s) => s,
        None => Seq::empty(),
    }
}

impl ToLowerCase {
    pub fn execute(&self, context: &Context, args: Option<&Vec<(String, String)>>) -> (r: Result<
        String,
        String,
    >)
        ensures
            r is Ok,
            r->Ok_0@ == lower_of(context.matched_string@),
    {
        Ok(to_lowercase(context.matched_string.as_str()))
    }
}

impl Replace {
    pub fn execute(&self, context: &Context, args: Option<&Vec<(String, String)>>) -> (r: Result<
        String,
        String,
    >)
        ensures
            match args {
                None => r is Err && r->Err_0@ == "Replace requires 'pattern' and 'with' arguments"@,
                Some(a) => r is Ok && r->Ok_0@ == replaced(
                    context.matched_string@,
                    or_empty(arg_of(a@, "pattern"@)),
                    or_empty(arg_of(a@, "with"@)),
                ),
            },
    {
        match args {
            Some(a) => {
                let pattern = match arg(a, "pattern") {
                    Some(p) => p,
                    None => String::new(),
                };
                let with = match arg(a, "with") {
                    Some(w) => w,
                    None => String::new(),
                };
                Ok(replace_all(context.matched_string.as_str(), pattern.as_str(), with.as_str()))
            },
            None => Err(String::from_str("Replace requires 'pattern' and 'with' arguments")),
        }
    }
}

/// A registered transform function.
pub enum TransformFn {
    ToLowerCase(ToLowerCase),
    Replace(Replace),
    Custom(CustomFunction),
}

/// A registered transform as the specifications see it.
pub enum TransformView {
    ToLowerCase,
    Replace,
    Custom(Seq<char>),
}

impl View for TransformFn {
    type V = TransformView;

    open spec fn view(&self) -> TransformView {
        match self {
            TransformFn::ToLowerCase(_) => TransformView::ToLowerCase,
            TransformFn::Replace(_) => TransformView::Replace,
            TransformFn::Custom(f) => TransformView::Custom(f.script@),
        }
    }
}

/// Registrations in order; a later one under a name replaces an earlier one.
pub open spec fn registered(entries: Seq<(String, TransformFn)>) -> Map<Seq<char>, TransformView>
    decreases entries.len(),
{
    if entries.len() == 0 {
        Map::empty()
    } else {
        registered(entries.drop_last()).insert(entries.last().0@, entries.last().1@)
    }
}

/// Transform functions by name.
pub struct TransformRegistry {
    entries: Vec<(String, TransformFn)>,
}

impl View for TransformRegistry {
    type V = Map<Seq<char>, TransformView>;

    closed spec fn view(&self) -> Map<Seq<char>, TransformView> {
        registered(self.entries@)
    }
}

proof fn lemma_registered_prefix(entries: Seq<(String, TransformFn)>, i: int, name: Seq<char>)
    requires
        0 <= i <= entries.len(),
        forall|k: int| i <= k < entries.len() ==> #[trigger] entries[k].0@ != name,
    ensures
        registered(entries).contains_key(name) == registered(entries.subrange(0, i)).contains_key(
            name,
        ),
        registered(entries)[name] == registered(entries.subrange(0, i))[name],
    decreases entries.len(),
{
    if entries.len() > i {
        let rest = entries.drop_last();
        assert(rest.subrange(0, i) =~= entries.subrange(0, i));
        lemma_registered_prefix(rest, i, name);
    } else {
        assert(entries.subrange(0, i) =~= entries);
    }
}

impl TransformRegistry {
    pub fn new() -> (r: Self)
        ensures
            r@ == Map::<Seq<char>, TransformView>::empty(),
    {
        TransformRegistry { entries: Vec::new() }
    }

    /// Registers `func` under `name`, replacing what was registered there.
    pub fn register(&mut self, name: &str, func: TransformFn)
        ensures
            final(self)@ == old(self)@.insert(name@, func@),
    {
        let ghost before = self.entries@;
        self.entries.push((String::from_str(name), func));
        assert(self.entries@.drop_last() =~= before);
    }

    /// The transform registered under `name`.
    pub fn get(&self, name: &str) -> (r: Option<&TransformFn>)
        ensures
            match r {
                Some(f) => self@.contains_key(name@) && self@[name@] == f@,
                None => !self@.contains_key(name@),
            },
    {
        let mut i: usize = self.entries.len();
        while i > 0
            invariant
                i <= self.entries.len(),
                forall|k: int| i <= k < self.entries.len() ==> #[trigger] self.entries@[k].0@ != name@,
            decreases i,
        {
            if spells(&self.entries[i - 1].0, name) {
                proof {
                    let e = self.entries@;
                    lemma_registered_prefix(e, i as int, name@);
                    assert(e.subrange(0, i as int).drop_last() =~= e.subrange(0, i - 1));
                }
                return Some(&self.entries[i - 1].1);
            }
            i = i - 1;
        }
        proof {
            lemma_registered_prefix(self.entries@, 0, name@);
        }
        None
    }
}

/// The built-in transforms, then each custom step in order.
pub open spec fn registry_of(custom_steps: Seq<CustomStep>) -> Map<Seq<char>, TransformView>
    decreases custom_steps.len(),
{
    if custom_steps.len() == 0 {
        Map::empty().insert("toUpperCase"@, TransformView::ToLowerCase).insert(
            "replace"@,
            TransformView::Replace,
        )
    } else {
        registry_of(custom_steps.drop_last()).insert(
            custom_steps.last().name@,
            TransformView::Custom(custom_steps.last().script@),
        )
    }
}

/// A registry holding the built-in transforms and the given custom ones.
pub fn init_registry(custom_steps: Option<Vec<CustomStep>>) -> (r: TransformRegistry)
    ensures
        r@ == registry_of(
            match custom_steps {
                Some(steps) => steps@,
                None => Seq::empty(),
            },
        ),
{
    let mut registry = TransformRegistry::new();
    registry.register("toUpperCase", TransformFn::ToLowerCase(ToLowerCase));
    registry.register("replace", TransformFn::Replace(Replace));
    match custom_steps {
        Some(steps) => {
            let mut i: usize = 0;
            assert(steps@.subrange(0, 0) =~= Seq::<CustomStep>::empty());
            while i < steps.len()
                invariant
                    i <= steps.len(),
                    registry@ == registry_of(steps@.subrange(0, i as int)),
                decreases steps.len() - i,
            {
                let step = &steps[i];
                registry.register(
                    step.name.as_str(),
                    TransformFn::Custom(CustomFunction { script: step.script.clone() }),
                );
                assert(steps@.subrange(0, i as int + 1).drop_last() =~= steps@.subrange(
                    0,
                    i as int,
                ));
                i = i + 1;
            }
            assert(steps@.subrange(0, i as int) =~= steps@);
        },
        None => {},
    }
    registry
}

} // verus!
