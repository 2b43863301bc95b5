//! Requests as the card takes them.
use crate::modeset::{assign, spec_flip_request, Assignment, Pipeline, PropValue};
use drm::control::atomic::AtomicModeReq;
use drm::control::{from_u32, property, RawResourceHandle};
use vstd::prelude::*;

verus! {

/// `drm::control::atomic::AtomicModeReq`, a set of property assignments.
#[verifier::external_type_specification]
#[verifier::external_body]
pub struct ExAtomicModeReq(AtomicModeReq);

/// The value that a request assigns to each property of each object.
pub uninterp spec fn assigned(req: AtomicModeReq) -> Map<(u32, u32), u64>;

pub open spec fn no_assignments() -> Map<(u32, u32), u64> {
    Map::empty()
}

/// Calls `AtomicModeReq::new`: the request assigns nothing.
#[verifier::external_body]
fn new_request() -> (r: AtomicModeReq)
    ensures
        assigned(r) == no_assignments(),
{
    AtomicModeReq::new()
}

/// Calls `AtomicModeReq::add_raw_property`: the property of the object is assigned the value,
/// in place of one that it was assigned before, and all other assignments stay.
#[verifier::external_body]
fn add_raw_property(req: &mut AtomicModeReq, object: u32, property: u32, value: u64)
    requires
        object != 0,
        property != 0,
    ensures
        assigned(*final(req)) == assigned(*old(req)).insert((object, property), value),
{
    let object = RawResourceHandle::new(object).unwrap();
    let property: property::Handle = from_u32(property).unwrap();
    req.add_raw_property(object, property, value)
}

/// A value in the 64 bits that the kernel takes: handles and numbers as they are, negative
/// numbers in two's complement.
pub open spec fn raw_value(value: PropValue) -> u64 {
    match value {
        PropValue::Crtc(handle) => handle as u64,
        PropValue::Framebuffer(handle) => handle as u64,
        PropValue::Blob(id) => id,
        PropValue::Boolean(b) => if b {
            1
        } else {
            0
        },
        PropValue::UnsignedRange(x) => x,
        PropValue::SignedRange(x) => if x >= 0 {
            x as u64
        } else {
            (x + 0x1_0000_0000_0000_0000) as u64
        },
    }
}

fn to_raw(value: PropValue) -> (r: u64)
    ensures
        r == raw_value(value),
{
    match value {
        PropValue::Crtc(handle) => handle as u64,
        PropValue::Framebuffer(handle) => handle as u64,
        PropValue::Blob(id) => id,
        PropValue::Boolean(b) => if b {
            1
        } else {
            0
        },
        PropValue::UnsignedRange(x) => x,
        PropValue::SignedRange(x) => if x >= 0 {
            x as u64
        } else {
            (x as i128 + 0x1_0000_0000_0000_0000) as u64
        },
    }
}

/// What the assignments amount to when they are made one after the other.
pub open spec fn in_effect(assignments: Seq<Assignment>) -> Map<(u32, u32), u64>
    decreases assignments.len(),
{
    if assignments.len() == 0 {
        no_assignments()
    } else {
        let last = assignments.last();
        in_effect(assignments.drop_last()).insert(
            (last.object, last.property),
            raw_value(last.value),
        )
    }
}

/// Handles are never zero.
pub open spec fn has_handles(assignment: Assignment) -> bool {
    assignment.object != 0 && assignment.property != 0
}

/// Whether all objects and properties have handles.
pub fn all_have_handles(assignments: &Vec<Assignment>) -> (r: bool)
    ensures
        r == (forall|i: int| 0 <= i < assignments@.len() ==> has_handles(#[trigger] assignments@[i])),
{
    let mut i: usize = 0;
    while i < assignments.len()
        invariant
            i <= assignments.len(),
            forall|j: int| 0 <= j < i ==> has_handles(#[trigger] assignments@[j]),
        decreases assignments.len() - i,
    {
        if assignments[i].object == 0 || assignments[i].property == 0 {
            assert(!has_handles(assignments@[i as int]));
            return false;
        }
        i += 1;
    }
    true
}

/// Builds the request that makes the assignments, the last one for each property counting.
pub fn build_request(assignments: &Vec<Assignment>) -> (r: AtomicModeReq)
    requires
        forall|i: int| 0 <= i < assignments@.len() ==> has_handles(#[trigger] assignments@[i]),
    ensures
        assigned(r) == in_effect(assignments@),
{
    let mut req = new_request();
    let mut i: usize = 0;
    while i < assignments.len()
        invariant
            i <= assignments.len(),
            forall|j: int| 0 <= j < assignments@.len() ==> has_handles(#[trigger] assignments@[j]),
            assigned(req) == in_effect(assignments@.take(i as int)),
        decreases assignments.len() - i,
    {
        let a = assignments[i];
        assert(has_handles(assignments@[i as int]));
        assert(assignments@.take(i + 1).drop_last() =~= assignments@.take(i as int));
        add_raw_property(&mut req, a.object, a.property, to_raw(a.value));
        i += 1;
    }
    assert(assignments@.take(assignments@.len() as int) =~= assignments@);
    req
}

/// An assignment is in effect unless a later one is for the same property.
pub proof fn last_assignment_counts(assignments: Seq<Assignment>, i: int)
    requires
        0 <= i < assignments.len(),
        forall|j: int|
            i < j < assignments.len() ==> ((#[trigger] assignments[j]).object
                != assignments[i].object || assignments[j].property != assignments[i].property),
    ensures
        ({
            let a = assignments[i];
            let key = (a.object, a.property);
            in_effect(assignments).dom().contains(key) && in_effect(assignments)[key] == raw_value(
                a.value,
            )
        }),
    decreases assignments.len(),
{
    if i < assignments.len() - 1 {
        let front = assignments.drop_last();
        assert forall|j: int| i < j < front.len() implies ((#[trigger] front[j]).object
            != front[i].object || front[j].property != front[i].property) by {
            assert(front[j] == assignments[j]);
        }
        last_assignment_counts(front, i);
        assert(assignments[assignments.len() - 1] == assignments.last());
    }
}

/// A flip assigns the plane's CRTC and framebuffer, and nothing else.
pub proof fn flip_assigns_two_properties(p: Pipeline, fb: u32)
    requires
        p.props.crtc != p.props.fb,
    ensures
        in_effect(spec_flip_request(p, fb)) == map![
            (p.plane, p.props.crtc) => p.crtc as u64,
            (p.plane, p.props.fb) => fb as u64,
        ],
{
    let first = assign(p.plane, p.props.crtc, PropValue::Crtc(p.crtc));
    let second = assign(p.plane, p.props.fb, PropValue::Framebuffer(fb));
    reveal_with_fuel(in_effect, 3);
    assert(spec_flip_request(p, fb) =~= seq![first, second]);
    assert(seq![first, second].drop_last() =~= seq![first]);
    assert(seq![first].drop_last() =~= seq![]);
    assert(in_effect(spec_flip_request(p, fb)) =~= map![
        (p.plane, p.props.crtc) => p.crtc as u64,
        (p.plane, p.props.fb) => fb as u64,
    ]);
}

/// Handles and numbers reach the kernel as they are, switches as one or zero, and negative
/// numbers wrapped round once.
pub proof fn raw_values_keep_their_meaning(value: PropValue)
    ensures
        match value {
            PropValue::Crtc(handle) | PropValue::Framebuffer(handle) => raw_value(value) as int
                == handle as int,
            PropValue::Blob(x) | PropValue::UnsignedRange(x) => raw_value(value) == x,
            PropValue::Boolean(on) => raw_value(value) == if on {
                1u64
            } else {
                0u64
            },
            PropValue::SignedRange(x) => {
                &&& x >= 0 ==> raw_value(value) as int == x as int
                &&& x < 0 ==> raw_value(value) as int == 0x1_0000_0000_0000_0000 + x as int
            },
        },
{
}

/// A request assigns exactly the properties that occur in the assignments.
pub proof fn only_listed_properties_are_assigned(
    assignments: Seq<Assignment>,
    object: u32,
    property: u32,
)
    ensures
        in_effect(assignments).dom().contains((object, property)) <==> exists|i: int|
            0 <= i < assignments.len() && (#[trigger] assignments[i]).object == object
                && assignments[i].property == property,
    decreases assignments.len(),
{
    if assignments.len() > 0 {
        let front = assignments.drop_last();
        let last = assignments[assignments.len() - 1];
        only_listed_properties_are_assigned(front, object, property);
        if in_effect(assignments).dom().contains((object, property)) {
            if last.object == object && last.property == property {
                assert(assignments[assignments.len() - 1].object == object);
            } else {
                let i = choose|i: int|
                    0 <= i < front.len() && (#[trigger] front[i]).object == object
                        && front[i].property == property;
                assert(assignments[i].object == object && assignments[i].property == property);
            }
        }
        if exists|i: int|
            0 <= i < assignments.len() && (#[trigger] assignments[i]).object == object
                && assignments[i].property == property {
            let i = choose|i: int|
                0 <= i < assignments.len() && (#[trigger] assignments[i]).object == object
                    && assignments[i].property == property;
            if i < front.len() {
                assert(front[i] == assignments[i]);
            }
        }
    }
}

/// An object or a property without a handle keeps a request from being built.
pub proof fn zero_is_no_handle(assignment: Assignment)
    ensures
        has_handles(assignment) <==> assignment.object > 0 && assignment.property > 0,
{
}

} // verus!
