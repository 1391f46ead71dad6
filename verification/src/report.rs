//! What a report says of a whole invocation: whether every case met its
//! threshold, and the parts of the summary table that are counting and
//! layout.

use vstd::prelude::*;

use crate::text::{decimal, decimal_text, owned};

verus! {

/// How many of `flags` are set.
pub open spec fn count_set(flags: Seq<bool>) -> nat
    decreases flags.len(),
{
    if flags.len() == 0 {
        0
    } else {
        count_set(flags.drop_last()) + if flags.last() {
            1nat
        } else {
            0nat
        }
    }
}

/// Whether every case in a report met its threshold.
///
/// A consumer maps this to a process exit code; this library has no
/// opinion on which code that should be.
#[derive(Debug, Clone, Copy, PartialEq, Eq, Structural)]
pub struct SuiteResult {
    /// `true` when every case met its threshold.
    pub all_met: bool,
}

impl SuiteResult {
    /// The result of a report whose cases met their thresholds as `met`
    /// says, case by case.
    pub fn of(met: &Vec<bool>) -> (r: Self)
        ensures
            r.all_met == (forall|i: int| 0 <= i < met@.len() ==> #[trigger] met@[i]),
    {
        let mut i: usize = 0;
        while i < met.len()
            invariant
                i <= met@.len(),
                forall|k: int| 0 <= k < i ==> #[trigger] met@[k],
            decreases met.len() - i,
        {
            if !met[i] {
                return SuiteResult { all_met: false };
            }
            i = i + 1;
        }
        SuiteResult { all_met: true }
    }
}

/// A case's name as the summary shows it: a canary is marked, since its
/// threshold of 1.0 is not a typo.
pub open spec fn shown_name(name: Seq<char>, canary: bool) -> Seq<char> {
    if canary {
        name + " (canary)"@
    } else {
        name
    }
}

/// A case's name as the summary shows it.
pub fn display_name(name: &str, canary: bool) -> (r: String)
    ensures
        r@ == shown_name(name@, canary),
{
    if canary {
        owned(name).concat(" (canary)")
    } else {
        owned(name)
    }
}

/// The narrowest the summary's case column ever is.
pub const MIN_NAME_WIDTH: usize = 34;

/// The case column's width for `names`: two more than the longest, and
/// never below [`MIN_NAME_WIDTH`].
pub open spec fn column_width(names: Seq<Seq<char>>) -> nat
    decreases names.len(),
{
    if names.len() == 0 {
        MIN_NAME_WIDTH as nat
    } else {
        let rest = column_width(names.drop_last());
        let here = names.last().len() + 2;
        if here > rest {
            here
        } else {
            rest
        }
    }
}

/// The case column's width for the shown names `names`.
pub fn name_width(names: &Vec<String>) -> (w: usize)
    requires
        forall|i: int| 0 <= i < names@.len() ==> #[trigger] names@[i]@.len() + 2 <= usize::MAX,
    ensures
        w == column_width(names@.map_values(|s: String| s@)),
{
    let ghost views = names@.map_values(|s: String| s@);
    let mut width: usize = MIN_NAME_WIDTH;
    let mut i: usize = 0;
    while i < names.len()
        invariant
            i <= names@.len(),
            views == names@.map_values(|s: String| s@),
            forall|k: int| 0 <= k < names@.len() ==> #[trigger] names@[k]@.len() + 2 <= usize::MAX,
            width == column_width(views.take(i as int)),
        decreases names.len() - i,
    {
        assert(views.take(i + 1).drop_last() =~= views.take(i as int));
        assert(views.take(i + 1).last() == names@[i as int]@);
        let here = names[i].as_str().unicode_len() + 2;
        if here > width {
            width = here;
        }
        i = i + 1;
    }
    assert(views.take(names.len() as int) =~= views);
    width
}

/// The summary's footer for cases that met their thresholds as `met` says.
pub open spec fn footer_text(met: Seq<bool>) -> Seq<char> {
    decimal(met.len()) + " cases, "@ + decimal(count_set(met)) + " at or above threshold, "@
        + decimal((met.len() - count_set(met)) as nat) + " below"@
}

/// The summary's footer: how many cases there are, how many met their
/// thresholds, and how many did not.
pub fn footer(met: &Vec<bool>) -> (r: String)
    ensures
        r@ == footer_text(met@),
{
    let mut passed: usize = 0;
    let mut i: usize = 0;
    while i < met.len()
        invariant
            i <= met@.len(),
            passed == count_set(met@.take(i as int)),
            passed <= i,
        decreases met.len() - i,
    {
        assert(met@.take(i + 1).drop_last() =~= met@.take(i as int));
        if met[i] {
            passed = passed + 1;
        }
        i = i + 1;
    }
    assert(met@.take(met.len() as int) =~= met@);
    let total = met.len();
    decimal_text(total as u64).concat(" cases, ").concat(decimal_text(passed as u64).as_str()).concat(
        " at or above threshold, ",
    ).concat(decimal_text((total - passed) as u64).as_str()).concat(" below")
}

} // verus!
