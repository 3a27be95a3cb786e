//! What is put in a variable's place in the template, as a function of what
//! the requested modules yield.
//!
//! The modules themselves are run elsewhere; here their outputs are any
//! function from requests to modules, and the laws below hold whatever that
//! function is.

use vstd::prelude::*;
use crate::config::Context;
use crate::evaluate::{
    all_segments, arranged, covers, lemma_completion_order_is_irrelevant, ordered_segments,
    present, Completed,
};
use crate::resolve::{
    explicit_name, is_enabled, lemma_explicit_custom_is_not_repeated,
    lemma_resolved_modules_are_enabled, lemma_wildcard_modules_are_enabled,
    lemma_wildcard_skips_listed, request_views, resolved, variable_requests, wildcard_upto, Plan,
    RequestView,
};
use crate::segment::{Module, Segment};

verus! {

/// What each request yields when the requests are computed one after the
/// other.
pub open spec fn computed(
    requests: Seq<RequestView>,
    outputs: spec_fn(RequestView) -> Option<Module>,
) -> Seq<Option<Module>> {
    Seq::new(requests.len(), |i: int| outputs(requests[i]))
}

/// The segments that the requests yield, computed one after the other: each
/// module's segments together and in their own order, the modules in the
/// order of the requests.
pub open spec fn segments_for(
    requests: Seq<RequestView>,
    outputs: spec_fn(RequestView) -> Option<Module>,
) -> Seq<Segment> {
    all_segments(present(computed(requests, outputs)))
}

/// The segments that are put in the place of the variable `name`, or `None`
/// where the variable has no value.
pub open spec fn substituted(
    context: Context,
    name: Seq<char>,
    listed: Seq<Seq<char>>,
    outputs: spec_fn(RequestView) -> Option<Module>,
) -> Option<Seq<Segment>> {
    match variable_requests(context, name, listed) {
        Some(requests) => Some(segments_for(requests, outputs)),
        None => None,
    }
}

/// Whether two assignments of outputs differ at most in what `request`
/// yields.
pub open spec fn differ_only_at(
    first: spec_fn(RequestView) -> Option<Module>,
    second: spec_fn(RequestView) -> Option<Module>,
    request: RequestView,
) -> bool {
    forall|other: RequestView| other != request ==> #[trigger] first(other) == second(other)
}

/// The modules that came back for two joined lists of results are those of
/// the first followed by those of the second.
pub proof fn lemma_present_of_joined(a: Seq<Option<Module>>, b: Seq<Option<Module>>)
    ensures
        present(a + b) == present(a) + present(b),
    decreases b.len(),
{
    if b.len() == 0 {
        assert(a + b =~= a);
        assert(present(a) + present(b) =~= present(a));
    } else {
        assert((a + b).drop_last() =~= a + b.drop_last());
        assert((a + b).last() == b.last());
        lemma_present_of_joined(a, b.drop_last());
        assert(present(a + b) =~= present(a) + present(b));
    }
}

/// The segments of two joined lists of modules are those of the first
/// followed by those of the second.
pub proof fn lemma_all_segments_of_joined(a: Seq<Module>, b: Seq<Module>)
    ensures
        all_segments(a + b) == all_segments(a) + all_segments(b),
    decreases b.len(),
{
    if b.len() == 0 {
        assert(a + b =~= a);
        assert(all_segments(a) + all_segments(b) =~= all_segments(a));
    } else {
        assert((a + b).drop_last() =~= a + b.drop_last());
        assert((a + b).last() == b.last());
        lemma_all_segments_of_joined(a, b.drop_last());
        assert(all_segments(a + b) =~= all_segments(a) + all_segments(b));
    }
}

/// The segments for two joined lists of requests are those for the first
/// followed by those for the second.
pub proof fn lemma_segments_for_joined(
    a: Seq<RequestView>,
    b: Seq<RequestView>,
    outputs: spec_fn(RequestView) -> Option<Module>,
)
    ensures
        segments_for(a + b, outputs) == segments_for(a, outputs) + segments_for(b, outputs),
{
    assert(computed(a + b, outputs) =~= computed(a, outputs) + computed(b, outputs));
    lemma_present_of_joined(computed(a, outputs), computed(b, outputs));
    lemma_all_segments_of_joined(
        present(computed(a, outputs)),
        present(computed(b, outputs)),
    );
}

/// The segments put in the wildcard's place are, for each builtin module of
/// the fixed order in turn, the segments of what that name denotes.
pub proof fn lemma_wildcard_segments_follow_the_order(
    context: Context,
    upto: int,
    listed: Seq<Seq<char>>,
    outputs: spec_fn(RequestView) -> Option<Module>,
)
    requires
        0 < upto <= context.modules.prompt_order@.len(),
    ensures
        segments_for(wildcard_upto(context, upto, listed), outputs) == segments_for(
            wildcard_upto(context, upto - 1, listed),
            outputs,
        ) + segments_for(
            resolved(context, context.modules.prompt_order@[upto - 1]@, listed),
            outputs,
        ),
{
    lemma_segments_for_joined(
        wildcard_upto(context, upto - 1, listed),
        resolved(context, context.modules.prompt_order@[upto - 1]@, listed),
        outputs,
    );
}

/// Whether each result is what its request yields.
pub open spec fn answers_with(
    completed: Seq<Completed>,
    requests: Seq<RequestView>,
    outputs: spec_fn(RequestView) -> Option<Module>,
) -> bool {
    forall|i: int|
        0 <= i < completed.len() ==> (#[trigger] completed[i]).module == outputs(
            requests[completed[i].position as int],
        )
}

/// Modules computed side by side give the segments that computing them one
/// after the other gives, whatever the order in which they finish.
pub proof fn lemma_side_by_side_is_in_turn(
    requests: Seq<RequestView>,
    outputs: spec_fn(RequestView) -> Option<Module>,
    completed: Seq<Completed>,
)
    requires
        covers(completed, requests.len()),
        answers_with(completed, requests, outputs),
    ensures
        all_segments(present(arranged(completed, requests.len()))) == segments_for(
            requests,
            outputs,
        ),
{
    lemma_completion_order_is_irrelevant(computed(requests, outputs), completed);
}

/// Two orders of completion of the same computations give the same
/// segments.
pub proof fn lemma_two_completion_orders_agree(
    requests: Seq<RequestView>,
    outputs: spec_fn(RequestView) -> Option<Module>,
    first: Seq<Completed>,
    second: Seq<Completed>,
)
    requires
        covers(first, requests.len()),
        covers(second, requests.len()),
        answers_with(first, requests, outputs),
        answers_with(second, requests, outputs),
    ensures
        all_segments(present(arranged(first, requests.len()))) == all_segments(
            present(arranged(second, requests.len())),
        ),
{
    lemma_side_by_side_is_in_turn(requests, outputs, first);
    lemma_side_by_side_is_in_turn(requests, outputs, second);
}

/// What a module yields that is not requested has no part in the segments.
pub proof fn lemma_unrequested_output_has_no_part(
    requests: Seq<RequestView>,
    request: RequestView,
    first: spec_fn(RequestView) -> Option<Module>,
    second: spec_fn(RequestView) -> Option<Module>,
)
    requires
        !requests.contains(request),
        differ_only_at(first, second, request),
    ensures
        segments_for(requests, first) == segments_for(requests, second),
{
    assert forall|i: int| 0 <= i < requests.len() implies first(requests[i]) == second(
        requests[i],
    ) by {
        assert(requests.contains(requests[i]));
    }
    assert(computed(requests, first) =~= computed(requests, second));
}

/// Whatever a custom module yields that the template names itself, it has no
/// part in what is put in the place of any other variable, the word `custom`
/// and the wildcard included.
pub proof fn lemma_named_custom_has_no_part_elsewhere(
    context: Context,
    listed: Seq<Seq<char>>,
    id: Seq<char>,
    name: Seq<char>,
    first: spec_fn(RequestView) -> Option<Module>,
    second: spec_fn(RequestView) -> Option<Module>,
)
    requires
        context.modules.well_formed(),
        listed.contains(explicit_name(id)),
        name != explicit_name(id),
        differ_only_at(first, second, RequestView::Custom(id)),
    ensures
        substituted(context, name, listed, first) == substituted(context, name, listed, second),
{
    let request = RequestView::Custom(id);
    match variable_requests(context, name, listed) {
        Some(requests) => {
            if name == "all"@ {
                lemma_wildcard_skips_listed(
                    context,
                    context.modules.prompt_order@.len() as int,
                    listed,
                    id,
                );
            } else {
                lemma_explicit_custom_is_not_repeated(context, listed, id, name);
            }
            lemma_unrequested_output_has_no_part(requests, request, first, second);
        },
        None => {},
    }
}

/// Whatever a module yields that the configuration switches off, it has no
/// part in what is put in the place of any variable.
pub proof fn lemma_disabled_module_has_no_part(
    context: Context,
    listed: Seq<Seq<char>>,
    name: Seq<char>,
    request: RequestView,
    first: spec_fn(RequestView) -> Option<Module>,
    second: spec_fn(RequestView) -> Option<Module>,
)
    requires
        context.config.well_formed(),
        !is_enabled(context, request),
        differ_only_at(first, second, request),
    ensures
        substituted(context, name, listed, first) == substituted(context, name, listed, second),
{
    match variable_requests(context, name, listed) {
        Some(requests) => {
            if requests.contains(request) {
                if name == "all"@ {
                    lemma_wildcard_modules_are_enabled(
                        context,
                        context.modules.prompt_order@.len() as int,
                        listed,
                        request,
                    );
                } else {
                    lemma_resolved_modules_are_enabled(context, name, listed, request);
                }
            }
            lemma_unrequested_output_has_no_part(requests, request, first, second);
        },
        None => {},
    }
}

/// The segments to put in the place of a variable, from the results of the
/// modules that were computed for it, whatever the order in which the
/// computations finished. Returns `None` unless every request of the plan is
/// answered exactly once. Where each result is what its request yields, the
/// segments are those of computing the requests one after the other.
pub fn substitute(plan: &Plan, completed: Vec<Completed>) -> (segments: Option<Vec<Segment>>)
    ensures
        segments is Some <==> covers(completed@, plan.requests@.len()),
        segments is Some ==> segments->0@ == all_segments(
            present(arranged(completed@, plan.requests@.len())),
        ),
        forall|outputs: spec_fn(RequestView) -> Option<Module>|
            segments is Some && #[trigger] answers_with(
                completed@,
                request_views(plan.requests@),
                outputs,
            ) ==> segments->0@ == segments_for(request_views(plan.requests@), outputs),
{
    let ghost requests = request_views(plan.requests@);
    let ghost results = completed@;
    let segments = ordered_segments(plan.requests.len(), completed);
    proof {
        assert forall|outputs: spec_fn(RequestView) -> Option<Module>|
            segments is Some && #[trigger] answers_with(
                results,
                requests,
                outputs,
            ) implies segments->0@ == segments_for(requests, outputs) by {
            lemma_side_by_side_is_in_turn(requests, outputs, results);
        }
    }
    segments
}

} // verus!
