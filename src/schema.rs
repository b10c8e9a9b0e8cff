use vstd::prelude::*;

verus! {

/// The layout convention for structured fields inside a log event.
#[derive(Debug, Clone, Copy, PartialEq, Eq, Structural)]
pub enum LogNamespace {
    /// Fields are laid out under the explicit schema namespace.
    Vector,
    /// Fields are laid out the way they always were.
    Legacy,
}

impl LogNamespace {
    pub open spec fn spec_from_flag(use_vector_namespace: bool) -> LogNamespace {
        if use_vector_namespace {
            LogNamespace::Vector
        } else {
            LogNamespace::Legacy
        }
    }

    /// The namespace selected by an explicit `log_namespace` setting.
    pub fn from_flag(use_vector_namespace: bool) -> (r: LogNamespace)
        ensures
            r == Self::spec_from_flag(use_vector_namespace),
    {
        if use_vector_namespace {
            LogNamespace::Vector
        } else {
            LogNamespace::Legacy
        }
    }

    pub open spec fn spec_name(self) -> Seq<char> {
        match self {
            LogNamespace::Vector => "Vector"@,
            LogNamespace::Legacy => "Legacy"@,
        }
    }

    /// The name of the namespace as it appears in messages.
    pub fn name(self) -> (r: &'static str)
        ensures
            r@ == self.spec_name(),
    {
        match self {
            LogNamespace::Vector => "Vector",
            LogNamespace::Legacy => "Legacy",
        }
    }
}

/// One component's schema preferences.
#[derive(Debug, Clone, Copy, PartialEq, Eq, Structural)]
pub struct Options {
    pub enabled: bool,
    pub validation: bool,
    pub log_namespace: Option<bool>,
}

pub open spec fn resolved_namespace(log_namespace: Option<bool>) -> LogNamespace {
    match log_namespace {
        Some(b) => LogNamespace::spec_from_flag(b),
        None => LogNamespace::Legacy,
    }
}

/// Whether merging `with` into `base` is a `log_namespace` conflict.
pub open spec fn conflicts(base: Options, with: Options) -> bool {
    base.log_namespace.is_some() && with.log_namespace.is_some() && base.log_namespace
        != with.log_namespace
}

pub open spec fn conflict_message(base: Options, with: Options) -> Seq<char> {
    "conflicting values for 'log_namespace' found. Both "@ + resolved_namespace(
        base.log_namespace,
    ).spec_name() + " and "@ + resolved_namespace(with.log_namespace).spec_name()
        + " used in the same component"@
}

/// The errors that merging `with` into `base` reports.
pub open spec fn merge_errors(base: Options, with: Options) -> Seq<Seq<char>> {
    if conflicts(base, with) {
        seq![conflict_message(base, with)]
    } else {
        seq![]
    }
}

/// The value that merging `with` into `base` leaves in `base`: the first explicit
/// namespace wins, and the two flags are or-ed.
pub open spec fn merged(base: Options, with: Options) -> Options {
    Options {
        enabled: base.enabled || with.enabled,
        validation: base.validation || with.validation,
        log_namespace: if base.log_namespace.is_some() {
            base.log_namespace
        } else {
            with.log_namespace
        },
    }
}

pub open spec fn default_options() -> Options {
    Options { enabled: false, validation: false, log_namespace: None }
}

pub fn default_enabled() -> (r: bool)
    ensures
        r == false,
{
    false
}

pub fn default_validation() -> (r: bool)
    ensures
        r == false,
{
    false
}

impl Default for Options {
    fn default() -> (r: Options)
        ensures
            r == default_options(),
    {
        Options { enabled: default_enabled(), validation: default_validation(), log_namespace: None }
    }
}

impl Options {
    /// The configured log namespace, or the legacy one where none is set.
    pub fn log_namespace(self) -> (r: LogNamespace)
        ensures
            r == resolved_namespace(self.log_namespace),
    {
        match self.log_namespace {
            Some(use_vector_namespace) => LogNamespace::from_flag(use_vector_namespace),
            None => LogNamespace::Legacy,
        }
    }

    /// Merges the options of another component into these, adding to `errors` a
    /// message for a conflicting `log_namespace`.
    pub fn append(&mut self, with: Self, errors: &mut Vec<String>)
        ensures
            *final(self) == merged(*old(self), with),
            final(errors)@.map_values(|e: String| e@) == old(errors)@.map_values(|e: String| e@)
                + merge_errors(*old(self), with),
            final(errors)@.len() == old(errors)@.len() + merge_errors(*old(self), with).len(),
    {
        let ghost errs0 = errors@;
        if self.log_namespace.is_some() && with.log_namespace.is_some() && self.log_namespace
            != with.log_namespace {
            let mut message = String::from_str("conflicting values for 'log_namespace' found. Both ");
            message.append(self.log_namespace().name());
            message.append(" and ");
            message.append(with.log_namespace().name());
            message.append(" used in the same component");
            errors.push(message);
            assert(errors@.map_values(|e: String| e@) =~= errs0.map_values(|e: String| e@)
                + merge_errors(*old(self), with));
        } else {
            assert(errors@.map_values(|e: String| e@) =~= errs0.map_values(|e: String| e@)
                + merge_errors(*old(self), with));
        }
        if self.log_namespace.is_none() {
            self.log_namespace = with.log_namespace;
        }
        self.enabled = self.enabled || with.enabled;
        self.validation = self.validation || with.validation;
    }
}

/// The options after merging each of `all` in turn into `base`.
pub open spec fn merged_all(base: Options, all: Seq<Options>) -> Options
    decreases all.len(),
{
    if all.len() == 0 {
        base
    } else {
        merged(merged_all(base, all.drop_last()), all.last())
    }
}

/// Every error reported while merging each of `all` in turn into `base`.
pub open spec fn merge_all_errors(base: Options, all: Seq<Options>) -> Seq<Seq<char>>
    decreases all.len(),
{
    if all.len() == 0 {
        seq![]
    } else {
        merge_all_errors(base, all.drop_last()) + merge_errors(
            merged_all(base, all.drop_last()),
            all.last(),
        )
    }
}

/// Combines the options of every component, starting from the defaults. Any
/// conflict fails the whole merge, with every conflict found.
pub fn merge_components(all: &Vec<Options>) -> (r: Result<Options, Vec<String>>)
    ensures
        merge_all_errors(default_options(), all@).len() == 0 ==> r == Ok::<Options, Vec<String>>(
            merged_all(default_options(), all@),
        ),
        merge_all_errors(default_options(), all@).len() > 0 ==> r is Err && r->Err_0@.map_values(
            |e: String| e@,
        ) == merge_all_errors(default_options(), all@),
{
    let mut acc = Options::default();
    let mut errors: Vec<String> = Vec::new();
    let mut i: usize = 0;
    while i < all.len()
        invariant
            i <= all@.len(),
            acc == merged_all(default_options(), all@.take(i as int)),
            errors@.map_values(|e: String| e@) == merge_all_errors(
                default_options(),
                all@.take(i as int),
            ),
        decreases all@.len() - i,
    {
        proof {
            assert(all@.take(i as int + 1).drop_last() =~= all@.take(i as int));
        }
        acc.append(all[i], &mut errors);
        i = i + 1;
    }
    proof {
        assert(all@.take(all@.len() as int) =~= all@);
    }
    if errors.len() == 0 {
        Ok(acc)
    } else {
        Err(errors)
    }
}

/// The merged `enabled` and `validation` flags are the or of the inputs, whatever
/// the order in which components are merged: merging is commutative and
/// associative on these two fields.
pub proof fn lemma_flags_merge_order_free(a: Options, b: Options, c: Options)
    ensures
        merged(a, b).enabled == (a.enabled || b.enabled),
        merged(a, b).validation == (a.validation || b.validation),
        merged(a, b).enabled == merged(b, a).enabled,
        merged(a, b).validation == merged(b, a).validation,
        merged(merged(a, b), c).enabled == merged(a, merged(b, c)).enabled,
        merged(merged(a, b), c).validation == merged(a, merged(b, c)).validation,
        merged(merged(a, b), c).enabled == (a.enabled || b.enabled || c.enabled),
        merged(merged(a, b), c).validation == (a.validation || b.validation || c.validation),
{
}

/// Merging any number of components in turn leaves each flag set exactly when
/// the starting value or some component sets it, so the order does not matter.
pub proof fn lemma_merged_flags_are_or(base: Options, all: Seq<Options>)
    ensures
        merged_all(base, all).enabled == (base.enabled || exists|i: int|
            0 <= i < all.len() && #[trigger] all[i].enabled),
        merged_all(base, all).validation == (base.validation || exists|i: int|
            0 <= i < all.len() && #[trigger] all[i].validation),
    decreases all.len(),
{
    if all.len() > 0 {
        let prefix = all.drop_last();
        lemma_merged_flags_are_or(base, prefix);
        if merged_all(base, all).enabled && !base.enabled {
            if all.last().enabled {
                assert(all[all.len() - 1].enabled);
            } else {
                let i = choose|i: int| 0 <= i < prefix.len() && #[trigger] prefix[i].enabled;
                assert(all[i].enabled);
            }
        }
        if merged_all(base, all).validation && !base.validation {
            if all.last().validation {
                assert(all[all.len() - 1].validation);
            } else {
                let i = choose|i: int| 0 <= i < prefix.len() && #[trigger] prefix[i].validation;
                assert(all[i].validation);
            }
        }
        assert forall|i: int| 0 <= i < all.len() - 1 implies all[i] == prefix[i] by {}
    }
}

/// Two different explicit namespaces always give an error, and the namespace
/// of the side merged into is kept.
pub proof fn lemma_conflict_reported(a: Options, b: Options)
    requires
        a.log_namespace.is_some(),
        b.log_namespace.is_some(),
        a.log_namespace != b.log_namespace,
    ensures
        merge_errors(a, b).len() > 0,
        merged(a, b).log_namespace == a.log_namespace,
{
}

/// Where only one side sets a namespace, the merge takes it and reports nothing.
pub proof fn lemma_single_namespace_adopted(a: Options, b: Options)
    requires
        a.log_namespace.is_some() != b.log_namespace.is_some(),
    ensures
        merge_errors(a, b).len() == 0,
        merged(a, b).log_namespace == (if a.log_namespace.is_some() {
            a.log_namespace
        } else {
            b.log_namespace
        }),
        merged(a, b).log_namespace.is_some(),
{
}

} // verus!
