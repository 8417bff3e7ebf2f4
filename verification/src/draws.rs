//! Drawing UUIDs, one call for each.
use crate::outside::random_uuid;
use crate::text::is_random_uuid;
use vstd::prelude::*;

verus! {

/// Whether a text is what a call of [`random_uuid`] gave.
pub closed spec fn is_drawn(uuid: String) -> bool {
    call_ensures(random_uuid, (), uuid)
}

/// Calls a function, and tells that the result is what the call gave.
fn result_of<F: Fn() -> String>(draw: F) -> (r: String)
    requires
        call_requires(draw, ()),
    ensures
        call_ensures(draw, (), r),
{
    draw()
}

/// Calls a function of a place, and tells that the result is what the call for that place gave.
pub(crate) fn result_at<F: Fn(usize) -> String>(draw: F, place: usize) -> (r: String)
    requires
        call_requires(draw, (place,)),
    ensures
        call_ensures(draw, (place,), r),
{
    draw(place)
}

/// Draws the UUID for one place in a list of UUIDs.
pub fn draw_uuid(place: usize) -> (r: String)
    ensures
        is_drawn(r),
        is_random_uuid(r@),
{
    result_of(random_uuid)
}

/// Whether each UUID of a list is what the draw for its own place gave: a draw of its own.
pub open spec fn drawn_in_turn(uuids: Seq<String>) -> bool {
    forall|k: usize| k < uuids.len() ==> call_ensures(draw_uuid, (k,), #[trigger] uuids[k as int])
}

/// Law: a UUID that counts as drawn is what a call of [`random_uuid`] gave.
pub(crate) proof fn law_drawn_is_what_a_call_gave(uuid: String)
    requires
        is_drawn(uuid),
    ensures
        call_ensures(random_uuid, (), uuid),
{
}

/// Law: in a list of UUIDs drawn in turn, each is what the draw for its own place gave. No draw
/// serves two places.
pub proof fn law_each_place_has_its_own_draw(uuids: Seq<String>, place: usize)
    requires
        drawn_in_turn(uuids),
        place < uuids.len(),
    ensures
        call_ensures(draw_uuid, (place,), uuids[place as int]),
        is_drawn(uuids[place as int]),
        is_random_uuid(uuids[place as int]@),
{
}

} // verus!
