//! Frames as DMA-BUFs: what a consumer is told of them.
use vstd::prelude::*;

verus! {

/// How the memory of an object is laid out.
#[derive(Clone, Copy, PartialEq, Eq, Structural, Debug)]
pub enum Modifier {
    /// Nobody said.
    Implicit,
    Explicit(u64),
}

/// A memory object.
#[derive(Clone, Copy, PartialEq, Eq, Structural, Debug)]
pub struct Object {
    pub fd: i32,
    pub size: u64,
    pub modifier: Modifier,
}

/// A plane inside a memory object.
#[derive(Clone, Copy, PartialEq, Eq, Structural, Debug)]
pub struct Plane {
    pub object_index: u32,
    pub offset: u64,
    pub pitch: u32,
}

/// Planes that make up an image of one format.
#[derive(Debug)]
pub struct Layer {
    pub fourcc: u32,
    pub planes: Vec<Plane>,
}

#[derive(Debug)]
pub struct Descriptor {
    pub version: u32,
    pub objects: Vec<Object>,
    pub layers: Vec<Layer>,
}

/// The plane starts inside an object and has rows.
pub open spec fn plane_is_valid(objects: Seq<Object>, plane: Plane) -> bool {
    &&& plane.pitch != 0
    &&& plane.object_index < objects.len()
    &&& plane.offset < objects[plane.object_index as int].size
}

pub open spec fn layer_is_valid(objects: Seq<Object>, layer: Layer) -> bool {
    &&& layer.fourcc != 0
    &&& 1 <= layer.planes@.len() <= 4
    &&& forall|p: int|
        0 <= p < layer.planes@.len() ==> plane_is_valid(objects, #[trigger] layer.planes@[p])
}

/// Number of planes in all the layers.
pub open spec fn plane_count(layers: Seq<Layer>) -> nat
    decreases layers.len(),
{
    if layers.len() == 0 {
        0
    } else {
        plane_count(layers.drop_last()) + layers.last().planes@.len()
    }
}

/// Some plane lies in the object.
pub open spec fn is_referenced(layers: Seq<Layer>, object: int) -> bool {
    exists|l: int, p: int|
        0 <= l < layers.len() && 0 <= p < layers[l].planes@.len() && (
        #[trigger] layers[l].planes@[p]).object_index == object
}

impl Descriptor {
    /// The descriptor can be handed to a consumer.
    pub open spec fn is_valid(self) -> bool {
        &&& self.version == 1
        &&& 1 <= self.objects@.len() <= 4
        &&& 1 <= self.layers@.len() <= 4
        &&& forall|i: int|
            0 <= i < self.objects@.len() ==> (#[trigger] self.objects@[i]).fd >= 0
                && self.objects@[i].size > 0
        &&& forall|l: int|
            0 <= l < self.layers@.len() ==> layer_is_valid(
                self.objects@,
                #[trigger] self.layers@[l],
            )
        &&& plane_count(self.layers@) <= 4
        &&& forall|i: int| 0 <= i < self.objects@.len() ==> is_referenced(self.layers@, i)
    }
}

/// Calls `Descriptor::validate` of the `video_interop` crate on the same descriptor and says
/// whether it found nothing wrong: version 1, one to four objects with a descriptor and a
/// size, one to four layers with a code and one to four planes, each plane with a pitch and
/// starting inside an object, four planes at most in all, and no object without a plane.
#[verifier::external_body]
fn validate(descriptor: &Descriptor) -> (r: bool)
    ensures
        r == descriptor.is_valid(),
{
    let objects = descriptor.objects.iter().map(|o| video_interop::Object {
        fd: o.fd,
        size: o.size,
        modifier: match o.modifier {
            Modifier::Implicit => video_interop::Modifier::Implicit,
            Modifier::Explicit(m) => video_interop::Modifier::Explicit(m),
        },
    }).collect();
    let planes = |l: &Layer| l.planes.iter().map(|p| video_interop::Plane {
        object_index: p.object_index, offset: p.offset, pitch: p.pitch,
    }).collect();
    let layers = descriptor.layers.iter().map(|l| video_interop::Layer { fourcc: l.fourcc, planes: planes(l) });
    let version = descriptor.version;
    video_interop::Descriptor { version, objects, layers: layers.collect() }.validate().is_ok()
}

impl Descriptor {
    /// Whether the descriptor can be handed to a consumer.
    pub fn check(&self) -> (r: bool)
        ensures
            r == self.is_valid(),
    {
        validate(self)
    }
}

/// A single layer holds all the planes.
pub proof fn single_layer_plane_count(layer: Layer)
    ensures
        plane_count(seq![layer]) == layer.planes@.len(),
{
    reveal_with_fuel(plane_count, 2);
    assert(seq![layer].drop_last() =~= seq![]);
}

} // verus!
