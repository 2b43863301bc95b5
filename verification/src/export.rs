//! Exporting decoded frames as NV12 DMA-BUFs.
use crate::dmabuf::{
    is_referenced, layer_is_valid, plane_is_valid, single_layer_plane_count, Descriptor, Layer,
    Modifier, Object, Plane,
};
use crate::fourcc::{
    self, recognised, spec_frame_fourcc, FourccError, FOURCC_GR88, FOURCC_R8,
};
use crate::pixel_format::FOURCC_NV12;
use vstd::prelude::*;

verus! {

/// A memory object of a decoded frame.
#[derive(Clone, Copy, PartialEq, Eq, Structural, Debug)]
pub struct DrmObject {
    pub fd: i32,
    pub size: usize,
    pub format_modifier: u64,
}

/// A plane of a decoded frame.
#[derive(Clone, Copy, PartialEq, Eq, Structural, Debug)]
pub struct DrmPlane {
    pub object_index: i32,
    pub offset: isize,
    pub pitch: isize,
}

/// A layer of a decoded frame.
#[derive(Clone, Copy, Debug)]
pub struct DrmLayer {
    pub format: u32,
    pub nb_planes: i32,
    pub planes: [DrmPlane; 4],
}

/// What a decoder says of a frame that lies in DMA-BUFs.
#[derive(Clone, Copy, Debug)]
pub struct DrmFrameDescriptor {
    pub nb_objects: i32,
    pub objects: [DrmObject; 4],
    pub nb_layers: i32,
    pub layers: [DrmLayer; 4],
}

/// The modifier that decoders report when they know none.
pub const DRM_FORMAT_MOD_INVALID: u64 = 0x00ff_ffff_ffff_ffff;

/// Why a frame cannot be exported.
#[derive(Clone, Copy, PartialEq, Eq, Structural, Debug)]
pub enum ExportError {
    /// Too few or too many objects or layers.
    InvalidCounts(i32, i32),
    Fourcc(FourccError),
    NotNv12,
    /// The object has no descriptor.
    NegativeFd(usize),
    /// The descriptor of the object could not be duplicated.
    DuplicateFailed(usize),
    /// The decoder does not know the layout of the object.
    ImplicitModifier(usize),
    DifferentModifiers,
    /// The layer has too few or too many planes.
    InvalidPlaneCount(usize, i32),
    ObjectIndexOverflow,
    PitchOverflow,
    OffsetOverflow,
    /// There are not two planes.
    WrongPlaneCount(usize),
    InvalidDescriptor,
}

/// The object under its new descriptor. Its layout is always spelled out.
pub open spec fn object_as(source: DrmObject, fd: i32) -> Object {
    Object {
        fd,
        size: source.size as u64,
        modifier: Modifier::Explicit(source.format_modifier),
    }
}

/// A plane in unsigned numbers, if it can be written so.
pub open spec fn plane_of(p: DrmPlane) -> Result<Plane, ExportError> {
    if p.object_index < 0 {
        Err(ExportError::ObjectIndexOverflow)
    } else if !(0 <= p.pitch <= u32::MAX) {
        Err(ExportError::PitchOverflow)
    } else if p.offset < 0 {
        Err(ExportError::OffsetOverflow)
    } else {
        Ok(
            Plane {
                object_index: p.object_index as u32,
                offset: p.offset as u64,
                pitch: p.pitch as u32,
            },
        )
    }
}

/// The first `n` planes of a layer.
pub open spec fn planes_of(layer: DrmLayer, n: nat) -> Result<Seq<Plane>, ExportError>
    decreases n,
{
    if n == 0 {
        Ok(seq![])
    } else {
        match planes_of(layer, (n - 1) as nat) {
            Ok(planes) => match plane_of(layer.planes@[n - 1]) {
                Ok(plane) => Ok(planes.push(plane)),
                Err(e) => Err(e),
            },
            Err(e) => Err(e),
        }
    }
}

/// All planes of the layer at position `i`.
pub open spec fn layer_planes(desc: DrmFrameDescriptor, i: int) -> Result<Seq<Plane>, ExportError> {
    let layer = desc.layers@[i];
    if 1 <= layer.nb_planes <= 4 {
        planes_of(layer, layer.nb_planes as nat)
    } else {
        Err(ExportError::InvalidPlaneCount(i as usize, layer.nb_planes))
    }
}

/// The planes of the layers in the given order.
pub open spec fn ordered_planes(desc: DrmFrameDescriptor, order: Seq<usize>) -> Result<
    Seq<Plane>,
    ExportError,
>
    decreases order.len(),
{
    if order.len() == 0 {
        Ok(seq![])
    } else {
        match ordered_planes(desc, order.drop_last()) {
            Ok(planes) => match layer_planes(desc, order.last() as int) {
                Ok(more) => Ok(planes + more),
                Err(e) => Err(e),
            },
            Err(e) => Err(e),
        }
    }
}

impl DrmFrameDescriptor {
    pub open spec fn counts_fit(self) -> bool {
        1 <= self.nb_objects <= 4 && 1 <= self.nb_layers <= 4
    }

    pub open spec fn spec_fourcc(self, rpi: bool) -> Result<u32, FourccError> {
        spec_frame_fourcc(
            self.nb_layers,
            self.layers@[0].format,
            self.layers@[1].format,
            recognised(self.layers@[0].format),
            rpi,
        )
    }

    /// The order in which the layers hold luma and chroma.
    pub open spec fn spec_layer_order(self) -> Seq<usize> {
        if self.nb_layers == 1 {
            seq![0usize]
        } else if self.layers@[0].format == FOURCC_GR88 {
            seq![1usize, 0usize]
        } else {
            seq![0usize, 1usize]
        }
    }
}

fn read_plane(p: DrmPlane) -> (r: Result<Plane, ExportError>)
    ensures
        r == plane_of(p),
{
    if p.object_index < 0 {
        return Err(ExportError::ObjectIndexOverflow);
    }
    if p.pitch < 0 || p.pitch as i128 > u32::MAX as i128 {
        return Err(ExportError::PitchOverflow);
    }
    if p.offset < 0 {
        return Err(ExportError::OffsetOverflow);
    }
    Ok(
        Plane {
            object_index: p.object_index as u32,
            offset: p.offset as u64,
            pitch: p.pitch as u32,
        },
    )
}

proof fn lemma_planes_err_stays(layer: DrmLayer, k: nat, n: nat)
    requires
        k <= n,
        planes_of(layer, k) is Err,
    ensures
        planes_of(layer, n) == planes_of(layer, k),
    decreases n,
{
    if k < n {
        lemma_planes_err_stays(layer, k, (n - 1) as nat);
    }
}

fn read_layer(desc: &DrmFrameDescriptor, i: usize, planes: &mut Vec<Plane>) -> (r: Result<
    (),
    ExportError,
>)
    requires
        i < 4,
    ensures
        match layer_planes(*desc, i as int) {
            Ok(more) => r is Ok && final(planes)@ == old(planes)@ + more,
            Err(e) => r == Err::<(), ExportError>(e),
        },
{
    let layer = desc.layers[i];
    if layer.nb_planes < 1 || layer.nb_planes > 4 {
        return Err(ExportError::InvalidPlaneCount(i, layer.nb_planes));
    }
    let n: usize = layer.nb_planes as usize;
    let mut k: usize = 0;
    let ghost start = planes@;
    while k < n
        invariant
            k <= n <= 4,
            n == layer.nb_planes,
            layer == desc.layers@[i as int],
            planes_of(layer, k as nat) matches Ok(more) && planes@ == start + more,
        decreases n - k,
    {
        match read_plane(layer.planes[k]) {
            Ok(plane) => {
                let ghost more = planes_of(layer, k as nat)->Ok_0;
                planes.push(plane);
                assert(planes@ =~= start + more.push(plane));
            },
            Err(e) => {
                proof {
                    lemma_planes_err_stays(layer, (k + 1) as nat, n as nat);
                }
                return Err(e);
            },
        }
        k += 1;
    }
    Ok(())
}

/// The planes lie in the objects, and every object holds a plane.
pub open spec fn layout_is_valid(objects: Seq<Object>, planes: Seq<Plane>) -> bool {
    &&& forall|i: int|
        0 <= i < objects.len() ==> (#[trigger] objects[i]).fd >= 0 && objects[i].size > 0
    &&& forall|p: int| 0 <= p < planes.len() ==> plane_is_valid(objects, #[trigger] planes[p])
    &&& forall|i: int| 0 <= i < objects.len() ==> holds_plane(planes, i)
}

pub open spec fn holds_plane(planes: Seq<Plane>, object: int) -> bool {
    exists|p: int| 0 <= p < planes.len() && (#[trigger] planes[p]).object_index == object
}

proof fn lemma_single_layer_validity(d: Descriptor)
    requires
        d.version == 1,
        1 <= d.objects@.len() <= 4,
        d.layers@.len() == 1,
        d.layers@[0].fourcc != 0,
        1 <= d.layers@[0].planes@.len() <= 4,
    ensures
        d.is_valid() == layout_is_valid(d.objects@, d.layers@[0].planes@),
{
    let planes = d.layers@[0].planes@;
    assert(d.layers@ =~= seq![d.layers@[0]]);
    single_layer_plane_count(d.layers@[0]);
    assert forall|i: int| is_referenced(d.layers@, i) == holds_plane(planes, i) by {
        if is_referenced(d.layers@, i) {
            let (l, p) = choose|l: int, p: int|
                0 <= l < d.layers@.len() && 0 <= p < d.layers@[l].planes@.len() && (
                #[trigger] d.layers@[l].planes@[p]).object_index == i;
            assert(planes[p].object_index == i);
        }
        if holds_plane(planes, i) {
            let p = choose|p: int|
                0 <= p < planes.len() && (#[trigger] planes[p]).object_index == i;
            assert(d.layers@[0].planes@[p].object_index == i);
        }
    }
    if d.is_valid() {
        assert(layer_is_valid(d.objects@, d.layers@[0]));
        assert forall|i: int| 0 <= i < d.objects@.len() implies holds_plane(planes, i) by {
            assert(is_referenced(d.layers@, i));
        }
    }
    if layout_is_valid(d.objects@, planes) {
        assert forall|i: int| 0 <= i < d.objects@.len() implies is_referenced(d.layers@, i) by {
            assert(holds_plane(planes, i));
        }
    }
}

/// An export under way: objects are taken over one by one, under new descriptors.
pub struct DmabufExport {
    desc: DrmFrameDescriptor,
    objects: Vec<Object>,
}

/// A frame that was exported. All its objects have the same explicit modifier.
#[derive(Debug)]
pub struct ExportedFrame {
    pub width: u32,
    pub height: u32,
    pub modifier: Modifier,
    pub descriptor: Descriptor,
}

impl DmabufExport {
    pub closed spec fn source(self) -> DrmFrameDescriptor {
        self.desc
    }

    /// The objects that were taken over.
    pub closed spec fn taken(self) -> Seq<Object> {
        self.objects@
    }

    /// The frame is NV12, and each object that was taken over is the source's, with an explicit
    /// modifier that they share.
    pub open spec fn wf(self) -> bool {
        &&& self.source().counts_fit()
        &&& self.source().nb_layers <= 2
        &&& self.taken().len() <= self.source().nb_objects
        &&& forall|i: int|
            0 <= i < self.taken().len() ==> (#[trigger] self.taken()[i]) == object_as(
                self.source().objects@[i],
                self.taken()[i].fd,
            ) && self.taken()[i].fd >= 0 && self.taken()[i].modifier == Modifier::Explicit(
                self.source().objects@[0].format_modifier,
            )
        &&& self.taken().len() > 0 ==> self.source().objects@[0].format_modifier
            != DRM_FORMAT_MOD_INVALID
    }

    /// Begins to export a frame.
    pub fn new(desc: DrmFrameDescriptor, rpi: bool) -> (r: Result<DmabufExport, ExportError>)
        ensures
            match r {
                Ok(export) => {
                    &&& desc.counts_fit()
                    &&& desc.spec_fourcc(rpi) == Ok::<u32, FourccError>(FOURCC_NV12)
                    &&& export.wf()
                    &&& export.source() == desc
                    &&& export.taken().len() == 0
                },
                Err(e) => if !desc.counts_fit() {
                    e == ExportError::InvalidCounts(desc.nb_objects, desc.nb_layers)
                } else {
                    match desc.spec_fourcc(rpi) {
                        Ok(code) => code != FOURCC_NV12 && e == ExportError::NotNv12,
                        Err(cause) => e == ExportError::Fourcc(cause),
                    }
                },
            },
    {
        if desc.nb_objects < 1 || desc.nb_objects > 4 || desc.nb_layers < 1 || desc.nb_layers > 4 {
            return Err(ExportError::InvalidCounts(desc.nb_objects, desc.nb_layers));
        }
        match fourcc::derive_fourcc(
            desc.nb_layers,
            desc.layers[0].format,
            desc.layers[1].format,
            rpi,
        ) {
            Ok(code) => if code != FOURCC_NV12 {
                Err(ExportError::NotNv12)
            } else {
                Ok(DmabufExport { desc, objects: Vec::new() })
            },
            Err(cause) => Err(ExportError::Fourcc(cause)),
        }
    }

    /// The descriptor of the object that is to be duplicated now, if any is left.
    pub fn next_source(&self) -> (r: Option<Result<i32, ExportError>>)
        requires
            self.wf(),
        ensures
            ({
                let i = self.taken().len() as int;
                if i == self.source().nb_objects {
                    r is None
                } else if self.source().objects@[i].fd < 0 {
                    r == Some(Err::<i32, ExportError>(ExportError::NegativeFd(i as usize)))
                } else {
                    r == Some(Ok::<i32, ExportError>(self.source().objects@[i].fd))
                }
            }),
    {
        let i: usize = self.objects.len();
        if i >= self.desc.nb_objects as usize {
            return None;
        }
        let fd: i32 = self.desc.objects[i].fd;
        if fd < 0 {
            Some(Err(ExportError::NegativeFd(i)))
        } else {
            Some(Ok(fd))
        }
    }

    /// Takes the current object over. `fd` is what duplicating its descriptor returned.
    pub fn push_duplicate(&mut self, fd: i32) -> (r: Result<(), ExportError>)
        requires
            old(self).wf(),
            old(self).taken().len() < old(self).source().nb_objects,
        ensures
            final(self).wf(),
            final(self).source() == old(self).source(),
            ({
                let i = old(self).taken().len() as int;
                let source = old(self).source().objects@[i];
                let first = old(self).source().objects@[0];
                match r {
                    Ok(()) => {
                        &&& fd >= 0
                        &&& source.format_modifier != DRM_FORMAT_MOD_INVALID
                        &&& source.format_modifier == first.format_modifier
                        &&& final(self).taken() == old(self).taken().push(object_as(source, fd))
                        &&& final(self).taken().last().fd == fd
                        &&& final(self).taken().last().size as int == source.size as int
                        &&& final(self).taken().last().modifier == Modifier::Explicit(
                            source.format_modifier,
                        )
                    },
                    Err(e) => {
                        &&& final(self).taken() == old(self).taken()
                        &&& if fd < 0 {
                            e == ExportError::DuplicateFailed(i as usize)
                        } else if source.format_modifier == DRM_FORMAT_MOD_INVALID {
                            e == ExportError::ImplicitModifier(i as usize)
                        } else {
                            &&& source.format_modifier != first.format_modifier
                            &&& e == ExportError::DifferentModifiers
                        }
                    },
                }
            }),
    {
        let i: usize = self.objects.len();
        if fd < 0 {
            return Err(ExportError::DuplicateFailed(i));
        }
        let source = self.desc.objects[i];
        if source.format_modifier == DRM_FORMAT_MOD_INVALID {
            return Err(ExportError::ImplicitModifier(i));
        }
        if source.format_modifier != self.desc.objects[0].format_modifier {
            return Err(ExportError::DifferentModifiers);
        }
        let modifier = Modifier::Explicit(source.format_modifier);
        self.objects.push(Object { fd, size: source.size as u64, modifier });
        Ok(())
    }

    /// The exported frame holds the objects and the planes as one NV12 layer.
    pub open spec fn exports(self, planes: Seq<Plane>, frame: ExportedFrame) -> bool {
        let d = frame.descriptor;
        &&& frame.modifier == Modifier::Explicit(self.source().objects@[0].format_modifier)
        &&& self.source().objects@[0].format_modifier != DRM_FORMAT_MOD_INVALID
        &&& d.version == 1
        &&& d.objects@ == self.taken()
        &&& d.layers@.len() == 1
        &&& d.layers@[0].fourcc == FOURCC_NV12
        &&& d.layers@[0].planes@ == planes
    }

    /// Ends the export of a frame of this size, once all objects were taken over.
    pub fn finish(self, width: u32, height: u32) -> (r: Result<ExportedFrame, ExportError>)
        requires
            self.wf(),
            self.taken().len() == self.source().nb_objects,
        ensures
            match ordered_planes(self.source(), self.source().spec_layer_order()) {
                Err(e) => r == Err::<ExportedFrame, ExportError>(e),
                Ok(planes) => match r {
                    Ok(frame) => {
                        &&& planes.len() == 2
                        &&& layout_is_valid(self.taken(), planes)
                        &&& self.exports(planes, frame)
                        &&& frame.width == width && frame.height == height
                        &&& frame.descriptor.is_valid()
                    },
                    Err(e) => if planes.len() != 2 {
                        e == ExportError::WrongPlaneCount(planes.len() as usize)
                    } else {
                        &&& !layout_is_valid(self.taken(), planes)
                        &&& e == ExportError::InvalidDescriptor
                    },
                },
            },
    {
        let ghost order = self.desc.spec_layer_order();
        let (first, second): (usize, Option<usize>) = if self.desc.nb_layers == 1 {
            (0, None)
        } else if self.desc.layers[0].format == FOURCC_GR88 {
            (1, Some(0))
        } else {
            (0, Some(1))
        };
        let mut planes: Vec<Plane> = Vec::new();
        proof {
            reveal_with_fuel(ordered_planes, 3);
            assert(seq![first].drop_last() =~= seq![]);
            if second is Some {
                assert(order =~= seq![first, second->0]);
                assert(order.drop_last() =~= seq![first]);
            } else {
                assert(order =~= seq![first]);
            }
        }
        let before = read_layer(&self.desc, first, &mut planes);
        if let Err(e) = before {
            return Err(e);
        }
        assert(ordered_planes(self.desc, seq![first]) matches Ok(p) && p =~= planes@);
        if let Some(second) = second {
            if let Err(e) = read_layer(&self.desc, second, &mut planes) {
                return Err(e);
            }
        }
        assert(ordered_planes(self.desc, order) matches Ok(p) && p =~= planes@);
        if planes.len() != 2 {
            return Err(ExportError::WrongPlaneCount(planes.len()));
        }
        let ghost all = planes@;
        assert(self.taken()[0].modifier == Modifier::Explicit(
            self.source().objects@[0].format_modifier,
        ));
        let modifier = self.objects[0].modifier;
        let descriptor = Descriptor {
            version: 1,
            objects: self.objects,
            layers: vec![Layer { fourcc: FOURCC_NV12, planes }],
        };
        let frame = ExportedFrame { width, height, modifier, descriptor };
        proof {
            lemma_single_layer_validity(frame.descriptor);
        }
        if frame.descriptor.check() {
            Ok(frame)
        } else {
            Err(ExportError::InvalidDescriptor)
        }
    }
}

proof fn lemma_planes_len(layer: DrmLayer, n: nat)
    ensures
        planes_of(layer, n) matches Ok(planes) ==> planes.len() == n,
    decreases n,
{
    if n > 0 {
        lemma_planes_len(layer, (n - 1) as nat);
    }
}

/// In an exported frame luma comes before chroma, whatever the order of the layers it came in:
/// with two layers, each of them gives one plane, and the first is that of the single-channel
/// layer; with one layer, its planes keep their order.
pub proof fn luma_plane_comes_first(desc: DrmFrameDescriptor, rpi: bool, planes: Seq<Plane>)
    requires
        desc.counts_fit(),
        desc.spec_fourcc(rpi) == Ok::<u32, FourccError>(FOURCC_NV12),
        ordered_planes(desc, desc.spec_layer_order()) == Ok::<Seq<Plane>, ExportError>(planes),
        planes.len() == 2,
    ensures
        desc.nb_layers == 1 || desc.nb_layers == 2,
        desc.nb_layers == 1 ==> {
            &&& plane_of(desc.layers@[0].planes@[0]) == Ok::<Plane, ExportError>(planes[0])
            &&& plane_of(desc.layers@[0].planes@[1]) == Ok::<Plane, ExportError>(planes[1])
        },
        desc.nb_layers == 2 ==> ({
            let luma = desc.spec_layer_order()[0] as int;
            let chroma = desc.spec_layer_order()[1] as int;
            &&& luma == 1 - chroma
            &&& desc.layers@[luma].format == FOURCC_R8
            &&& plane_of(desc.layers@[luma].planes@[0]) == Ok::<Plane, ExportError>(planes[0])
            &&& plane_of(desc.layers@[chroma].planes@[0]) == Ok::<Plane, ExportError>(planes[1])
        }),
{
    reveal_with_fuel(ordered_planes, 3);
    reveal_with_fuel(planes_of, 3);
    let order = desc.spec_layer_order();
    let first = order[0] as int;
    lemma_planes_len(desc.layers@[first], desc.layers@[first].nb_planes as nat);
    assert(seq![order[0]].drop_last() =~= seq![]);
    if desc.nb_layers == 1 {
        assert(order =~= seq![order[0]]);
        let of_first = layer_planes(desc, first)->Ok_0;
        assert(planes =~= of_first);
        assert(desc.layers@[0].nb_planes == 2);
    } else {
        let second = order[1] as int;
        lemma_planes_len(desc.layers@[second], desc.layers@[second].nb_planes as nat);
        assert(order =~= seq![order[0], order[1]]);
        assert(order.drop_last() =~= seq![order[0]]);
        let of_first = layer_planes(desc, first)->Ok_0;
        let of_second = layer_planes(desc, second)->Ok_0;
        assert(planes =~= of_first + of_second);
        assert(desc.layers@[first].nb_planes == 1 && desc.layers@[second].nb_planes == 1);
        assert(planes[0] == of_first[0]);
        assert(planes[1] == of_second[0]);
    }
}

/// An exported frame has one explicit modifier, and so has every object of it.
pub proof fn exported_objects_share_the_modifier(
    export: DmabufExport,
    planes: Seq<Plane>,
    frame: ExportedFrame,
    i: int,
)
    requires
        export.wf(),
        export.exports(planes, frame),
        0 <= i < frame.descriptor.objects@.len(),
    ensures
        frame.descriptor.objects@[i].modifier == frame.modifier,
        frame.modifier matches Modifier::Explicit(m) && m != DRM_FORMAT_MOD_INVALID,
        frame.descriptor.objects@[i].size == export.source().objects@[i].size,
{
    assert(export.taken()[i] == frame.descriptor.objects@[i]);
}

/// The plane's numbers can be written without a sign, the pitch in 32 bits.
pub open spec fn has_unsigned_numbers(p: DrmPlane) -> bool {
    0 <= p.object_index && 0 <= p.offset && 0 <= p.pitch <= 0xffff_ffff
}

/// A plane is read exactly where its numbers are not negative and its pitch has 32 bits, and the
/// numbers stay what they are. What is wrong is named in the order object, pitch, offset.
pub proof fn planes_keep_their_numbers(source: DrmPlane)
    ensures
        match plane_of(source) {
            Ok(plane) => {
                &&& plane.object_index as int == source.object_index as int
                &&& plane.offset as int == source.offset as int
                &&& plane.pitch as int == source.pitch as int
            },
            Err(ExportError::ObjectIndexOverflow) => source.object_index < 0,
            Err(ExportError::PitchOverflow) => source.object_index >= 0 && (source.pitch < 0
                || source.pitch > 0xffff_ffff),
            Err(ExportError::OffsetOverflow) => source.object_index >= 0 && 0 <= source.pitch
                <= 0xffff_ffff && source.offset < 0,
            Err(_) => false,
        },
        plane_of(source) is Ok <==> 0 <= source.object_index && 0 <= source.offset && 0
            <= source.pitch <= 0xffff_ffff,
{
}

/// In an exported frame each plane carries the numbers that the decoder reported: with one layer
/// plane `k` of that layer, with two layers the only plane of one of them, luma first.
pub proof fn exported_planes_carry_the_decoders_numbers(
    desc: DrmFrameDescriptor,
    rpi: bool,
    planes: Seq<Plane>,
    k: int,
)
    requires
        desc.counts_fit(),
        desc.spec_fourcc(rpi) == Ok::<u32, FourccError>(FOURCC_NV12),
        ordered_planes(desc, desc.spec_layer_order()) == Ok::<Seq<Plane>, ExportError>(planes),
        planes.len() == 2,
        0 <= k < 2,
    ensures
        ({
            let source = if desc.nb_layers == 1 {
                desc.layers@[0].planes@[k]
            } else if desc.layers@[0].format == FOURCC_R8 {
                desc.layers@[k].planes@[0]
            } else {
                desc.layers@[1 - k].planes@[0]
            };
            &&& planes[k].offset as int == source.offset as int
            &&& planes[k].pitch as int == source.pitch as int
            &&& planes[k].object_index as int == source.object_index as int
        }),
        desc.nb_layers == 2 && k == 0 ==> (desc.layers@[0].format == FOURCC_R8
            || desc.layers@[1].format == FOURCC_R8),
{
    luma_plane_comes_first(desc, rpi, planes);
}

/// The same of a frame that an export ended with.
pub proof fn exported_frames_carry_the_decoders_numbers(
    export: DmabufExport,
    rpi: bool,
    planes: Seq<Plane>,
    frame: ExportedFrame,
    k: int,
)
    requires
        export.wf(),
        export.source().spec_fourcc(rpi) == Ok::<u32, FourccError>(FOURCC_NV12),
        ordered_planes(export.source(), export.source().spec_layer_order()) == Ok::<
            Seq<Plane>,
            ExportError,
        >(planes),
        planes.len() == 2,
        export.exports(planes, frame),
        0 <= k < 2,
    ensures
        ({
            let desc = export.source();
            let out = frame.descriptor.layers@[0].planes@[k];
            let source = if desc.nb_layers == 1 {
                desc.layers@[0].planes@[k]
            } else if desc.layers@[0].format == FOURCC_R8 {
                desc.layers@[k].planes@[0]
            } else {
                desc.layers@[1 - k].planes@[0]
            };
            &&& out.offset as int == source.offset as int
            &&& out.pitch as int == source.pitch as int
            &&& out.object_index as int == source.object_index as int
        }),
        frame.descriptor.version == 1,
        frame.descriptor.layers@.len() == 1,
        frame.descriptor.layers@[0].fourcc == FOURCC_NV12,
        frame.descriptor.objects@ == export.taken(),
{
    exported_planes_carry_the_decoders_numbers(export.source(), rpi, planes, k);
}

proof fn lemma_planes_ok(layer: DrmLayer, n: nat)
    ensures
        planes_of(layer, n) is Ok <==> forall|k: int|
            0 <= k < n ==> has_unsigned_numbers(#[trigger] layer.planes@[k]),
        planes_of(layer, n) matches Ok(planes) ==> planes.len() == n && forall|k: int|
            0 <= k < n ==> {
                &&& (#[trigger] planes[k]).offset as int == layer.planes@[k].offset as int
                &&& planes[k].pitch as int == layer.planes@[k].pitch as int
                &&& planes[k].object_index as int == layer.planes@[k].object_index as int
            },
    decreases n,
{
    if n > 0 {
        lemma_planes_ok(layer, (n - 1) as nat);
        planes_keep_their_numbers(layer.planes@[n - 1]);
        if planes_of(layer, n) is Ok {
            assert forall|k: int| 0 <= k < n implies has_unsigned_numbers(
                #[trigger] layer.planes@[k],
            ) by {
                if k < n - 1 {
                    assert(has_unsigned_numbers(layer.planes@[k]));
                }
            }
        }
        if forall|k: int| 0 <= k < n ==> has_unsigned_numbers(#[trigger] layer.planes@[k]) {
            assert(has_unsigned_numbers(layer.planes@[n - 1]));
        }
    }
}

/// All planes of a layer are read, in their order and with their numbers, where there are one to
/// four and none has a number that cannot be written without a sign; else the layer is refused.
pub proof fn layers_keep_their_planes(desc: DrmFrameDescriptor, i: int)
    requires
        0 <= i < 4,
    ensures
        ({
            let layer = desc.layers@[i];
            let r = layer_planes(desc, i);
            &&& r is Ok <==> 1 <= layer.nb_planes <= 4 && forall|k: int|
                0 <= k < layer.nb_planes ==> has_unsigned_numbers(#[trigger] layer.planes@[k])
            &&& r matches Err(ExportError::InvalidPlaneCount(l, n)) ==> l == i && n
                == layer.nb_planes && !(1 <= n <= 4)
            &&& r matches Ok(planes) ==> planes.len() == layer.nb_planes && forall|k: int|
                0 <= k < planes.len() ==> {
                    &&& (#[trigger] planes[k]).offset as int == layer.planes@[k].offset as int
                    &&& planes[k].pitch as int == layer.planes@[k].pitch as int
                    &&& planes[k].object_index as int == layer.planes@[k].object_index as int
                }
        }),
{
    let layer = desc.layers@[i];
    if 1 <= layer.nb_planes <= 4 {
        lemma_planes_ok(layer, layer.nb_planes as nat);
        lemma_plane_errors(layer, layer.nb_planes as nat);
    }
}

proof fn lemma_plane_errors(layer: DrmLayer, n: nat)
    ensures
        planes_of(layer, n) matches Err(e) ==> e == ExportError::ObjectIndexOverflow || e
            == ExportError::PitchOverflow || e == ExportError::OffsetOverflow,
    decreases n,
{
    if n > 0 {
        lemma_plane_errors(layer, (n - 1) as nat);
    }
}

/// The planes of several layers follow each other in the order given.
pub proof fn ordered_planes_follow_the_order(desc: DrmFrameDescriptor, order: Seq<usize>, last: usize)
    ensures
        ({
            let before = ordered_planes(desc, order);
            let all = ordered_planes(desc, order.push(last));
            &&& all is Ok <==> before is Ok && layer_planes(desc, last as int) is Ok
            &&& all is Ok ==> all->Ok_0 == before->Ok_0 + layer_planes(desc, last as int)->Ok_0
            &&& before matches Err(e) ==> all == Err::<Seq<Plane>, ExportError>(e)
        }),
        ordered_planes(desc, seq![]) is Ok && ordered_planes(desc, seq![])->Ok_0.len() == 0,
{
    assert(order.push(last).drop_last() =~= order);
    assert(order.push(last).last() == last);
}

/// The layer with chroma comes second, whichever way round the two are reported.
pub proof fn chroma_layer_comes_second(desc: DrmFrameDescriptor)
    requires
        desc.counts_fit(),
    ensures
        ({
            let order = desc.spec_layer_order();
            &&& desc.nb_layers == 1 ==> order.len() == 1 && order[0] == 0
            &&& desc.nb_layers > 1 ==> order.len() == 2 && order[0] + order[1] == 1
            &&& desc.nb_layers > 1 && desc.layers@[0].format == fourcc::letters('G', 'R', '8', '8')
                ==> order[1] == 0
            &&& desc.nb_layers > 1 && desc.layers@[0].format != fourcc::letters('G', 'R', '8', '8')
                ==> order[0] == 0
        }),
{
    fourcc::codes_spell_their_names();
}

/// An object keeps its size and modifier when it is taken over, and gets the new descriptor.
pub proof fn objects_keep_their_numbers(source: DrmObject, fd: i32)
    ensures
        ({
            let object = object_as(source, fd);
            &&& object.fd == fd
            &&& object.size as int == source.size as int
            &&& object.modifier == Modifier::Explicit(source.format_modifier)
        }),
{
}

/// Frames have one to four objects and one to four layers. The code of a frame of one layer is
/// that layer's, where it is known; a frame of two layers is NV12 where one of them is `R8` and
/// the other `GR88`, whichever comes first.
pub proof fn frame_codes_come_from_the_layers(desc: DrmFrameDescriptor, rpi: bool)
    ensures
        desc.counts_fit() <==> 0 < desc.nb_objects < 5 && 0 < desc.nb_layers < 5,
        ({
            let first = desc.layers@[0].format;
            let second = desc.layers@[1].format;
            let code = desc.spec_fourcc(rpi);
            let r8 = fourcc::letters('R', '8', ' ', ' ');
            let gr88 = fourcc::letters('G', 'R', '8', '8');
            &&& desc.nb_layers == 1 ==> (code is Ok <==> fourcc::known_fourcc(first))
            &&& desc.nb_layers == 1 && code is Ok ==> code->Ok_0 == first
            &&& desc.nb_layers == 2 && !rpi ==> (code is Ok <==> (first == r8 && second == gr88) || (
            first == gr88 && second == r8))
            &&& desc.nb_layers == 2 && ((first == r8 && second == gr88) || (first == gr88 && second
                == r8)) ==> code == Ok::<u32, FourccError>(FOURCC_NV12)
            &&& desc.nb_layers > 2 ==> code is Err
        }),
{
    fourcc::codes_spell_their_names();
}

} // verus!
