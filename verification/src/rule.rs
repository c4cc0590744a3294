//! Rules that optimize logical plans.

use std::sync::Arc;
use vstd::prelude::*;

use crate::error::DaftError;
use crate::text;

verus! {

/// What became of a value that was rewritten.
#[derive(Debug, PartialEq, Eq)]
pub struct Transformed<T> {
    pub data: T,
    /// Whether the value was changed.
    pub transformed: bool,
}

impl<T> Transformed<T> {
    /// A value that was changed.
    pub fn yes(data: T) -> (result: Self)
        ensures
            result.data == data,
            result.transformed,
    {
        Transformed { data, transformed: true }
    }

    /// A value that was left as it is.
    pub fn no(data: T) -> (result: Self)
        ensures
            result.data == data,
            !result.transformed,
    {
        Transformed { data, transformed: false }
    }
}

/// Whether `name` is what follows the last `::` in `full`, or all of it where there
/// is none.
pub open spec fn is_last_segment(name: Seq<char>, full: Seq<char>) -> bool {
    if text::contains_text(full, "::"@) {
        exists|at: int|
            {
                &&& #[trigger] text::occurs_at(full, "::"@, at)
                &&& name == full.skip(at + 2)
                &&& forall|later: int|
                    at < later ==> !#[trigger] text::occurs_at(full, "::"@, later)
            }
    } else {
        name == full
    }
}

/// The last segment of a type's full path.
pub fn short_type_name(full_name: &'static str) -> (name: &'static str)
    ensures
        is_last_segment(name@, full_name@),
{
    let chars = text::chars_of(full_name);
    let total: usize = chars.len();
    proof {
        reveal_strlit("::");
    }
    let mut start: usize = total;
    while start > 1 && !(chars[start - 1] == ':' && chars[start - 2] == ':')
        invariant
            "::"@ == seq![':', ':'],
            chars@ == full_name@,
            total == chars@.len(),
            start <= total,
            forall|later: int| start - 1 <= later ==> !text::occurs_at(full_name@, "::"@, later),
        decreases start,
    {
        assert forall|later: int| start - 2 <= later implies !text::occurs_at(
            full_name@,
            "::"@,
            later,
        ) by {
            if later == start - 2 && text::occurs_at(full_name@, "::"@, later) {
                let found = full_name@.subrange(later, later + 2);
                assert(found[0] == ':' && found[1] == ':');
            }
        }
        start = start - 1;
    }
    if start > 1 {
        let at: Ghost<int> = Ghost(start - 2);
        assert(full_name@.subrange(at@, at@ + 2) =~= "::"@);
        assert(text::occurs_at(full_name@, "::"@, at@));
        assert(full_name@.subrange(start as int, total as int) =~= full_name@.skip(at@ + 2));
        full_name.substring_char(start, total)
    } else {
        full_name
    }
}

/// The last segment of a path holds no `::`.
pub proof fn law_last_segment_is_unqualified(name: Seq<char>, full: Seq<char>)
    requires
        is_last_segment(name, full),
    ensures
        !text::contains_text(name, "::"@),
{
    reveal_strlit("::");
    if text::contains_text(full, "::"@) && text::contains_text(name, "::"@) {
        let at = choose|at: int|
            {
                &&& #[trigger] text::occurs_at(full, "::"@, at)
                &&& name == full.skip(at + 2)
                &&& forall|later: int|
                    at < later ==> !#[trigger] text::occurs_at(full, "::"@, later)
            };
        let inner = choose|inner: int| text::occurs_at(name, "::"@, inner);
        assert(full.subrange(at + 2 + inner, at + 2 + inner + 2) =~= name.subrange(
            inner,
            inner + 2,
        ));
        assert(text::occurs_at(full, "::"@, at + 2 + inner));
    }
}

/// A logical plan optimization rule.
pub trait OptimizerRule {
    /// The plans that the rule works on.
    type Plan;

    /// Returns the name of this optimization rule, whose type has the fully-qualified
    /// path `type_path`.
    ///
    /// Defaults to the short type name (last segment of the fully-qualified type path).
    fn name(&self, type_path: &'static str) -> (name: &'static str)
        default_ensures
            is_last_segment(name@, type_path@),
    {
        short_type_name(type_path)
    }

    /// Try to optimize the logical plan with this rule.
    ///
    /// This returns [`Transformed::yes`] of the new plan if the rule modified the plan,
    /// [`Transformed::no`] of the old plan otherwise.
    fn try_optimize(&self, plan: Arc<Self::Plan>) -> (result: Result<
        Transformed<Arc<Self::Plan>>,
        DaftError,
    >)
        ensures
            result matches Ok(outcome) ==> (outcome.transformed <==> outcome.data != plan),
    ;
}

/// The last segment of a path is its end, holds no `::`, and starts the path or follows the
/// last `::` in it.
pub proof fn law_last_segment_ends_the_path(name: Seq<char>, full: Seq<char>)
    requires
        is_last_segment(name, full),
    ensures
        name.len() <= full.len(),
        ({
            let start = full.len() - name.len();
            &&& name == full.skip(start)
            &&& start > 0 ==> start >= 2 && full[start - 1] == ':' && full[start - 2]
                == ':'
            &&& forall|i: int|
                start - 2 < i < full.len() - 1 && 0 <= i ==> !(#[trigger] full[i] == ':'
                    && full[i + 1] == ':')
        }),
{
    reveal_strlit("::");
    assert forall|at: int| #[trigger] text::occurs_at(full, "::"@, at) <==> (0 <= at <= full.len()
        - 2 && full[at] == ':' && full[at + 1] == ':') by {
        text::law_occurrences_hold_the_characters(full, "::"@, at);
        if text::holds_at(full, "::"@, at) {
            assert("::"@[0] == full[at]);
            assert("::"@[1] == full[at + 1]);
        }
        if 0 <= at <= full.len() - 2 && full[at] == ':' && full[at + 1] == ':' {
            assert(text::holds_at(full, "::"@, at));
        }
    }
    let start = full.len() - name.len();
    if text::contains_text(full, "::"@) {
        let at = choose|at: int|
            {
                &&& #[trigger] text::occurs_at(full, "::"@, at)
                &&& name == full.skip(at + 2)
                &&& forall|later: int|
                    at < later ==> !#[trigger] text::occurs_at(full, "::"@, later)
            };
        assert(start == at + 2);
        assert forall|i: int| start - 2 < i < full.len() - 1 && 0 <= i implies !(
        #[trigger] full[i] == ':' && full[i + 1] == ':') by {
            assert(!text::occurs_at(full, "::"@, i));
        }
    } else {
        assert(full.skip(0) =~= full);
        assert forall|i: int| start - 2 < i < full.len() - 1 && 0 <= i implies !(
        #[trigger] full[i] == ':' && full[i + 1] == ':') by {
            assert(!text::occurs_at(full, "::"@, i));
        }
    }
}

/// The short name of a type is the end of its path, holds no `::`, and starts the path or
/// follows the last `::` in it.
pub proof fn law_short_name_ends_the_path(full_name: &'static str, name: &'static str)
    requires
        call_ensures(short_type_name, (full_name,), name),
    ensures
        name@.len() <= full_name@.len(),
        ({
            let start = full_name@.len() - name@.len();
            &&& name@ == full_name@.skip(start)
            &&& start > 0 ==> start >= 2 && full_name@[start - 1] == ':' && full_name@[start - 2]
                == ':'
            &&& forall|i: int|
                start - 2 < i < full_name@.len() - 1 && 0 <= i ==> !(#[trigger] full_name@[i] == ':'
                    && full_name@[i + 1] == ':')
        }),
{
    law_last_segment_ends_the_path(name@, full_name@);
}

/// A value that was changed, or left as it is, is kept as it is and marked as such.
pub proof fn law_transformed_values_are_marked<T>(data: T, yes: Transformed<T>, no: Transformed<T>)
    requires
        call_ensures(Transformed::<T>::yes, (data,), yes),
        call_ensures(Transformed::<T>::no, (data,), no),
    ensures
        yes.transformed && yes.data == data,
        !no.transformed && no.data == data,
{
}

} // verus!
