//! Exporting decoded frames plane by plane, each plane under a descriptor of its own.
use crate::export::DrmFrameDescriptor;
use crate::fourcc::{check_fourcc, recognised};
use vstd::prelude::*;

verus! {

/// Why a frame cannot be exported.
#[derive(Clone, Copy, PartialEq, Eq, Structural, Debug)]
pub enum PrimeExportError {
    /// There are no objects or no layers.
    EmptyDescriptor,
    UnsupportedFourcc(u32),
    /// The descriptor of the object could not be duplicated.
    DuplicateObjectFailed(usize),
    /// No such object, for the plane.
    InvalidObjectIndex(i32, usize),
    /// Neither the object of the plane nor the first object has a descriptor.
    NoDescriptor(usize, usize),
    /// The object's descriptor could not be duplicated for the plane.
    DuplicateFailed(usize, usize),
    /// The first object's descriptor could not be duplicated for the plane.
    DuplicateFallbackFailed(usize),
}

/// Where a plane comes from.
#[derive(Clone, Copy, PartialEq, Eq, Structural, Debug)]
pub struct PlaneSource {
    /// Position in its layer.
    pub plane: usize,
    /// The object that the plane lies in.
    pub object: usize,
    /// The object whose descriptor is duplicated.
    pub fd_from: usize,
    pub pitch: u32,
    pub offset: u32,
    pub modifier: Option<u64>,
}

impl PlaneSource {
    pub open spec fn spec_duplicate_failed(self) -> PrimeExportError {
        if self.fd_from == self.object {
            PrimeExportError::DuplicateFailed(self.plane, self.object)
        } else {
            PrimeExportError::DuplicateFallbackFailed(self.plane)
        }
    }

    /// What it is reported as that the descriptor could not be duplicated.
    pub fn duplicate_failed(&self) -> (r: PrimeExportError)
        ensures
            r == (if self.fd_from == self.object {
                PrimeExportError::DuplicateFailed(self.plane, self.object)
            } else {
                PrimeExportError::DuplicateFallbackFailed(self.plane)
            }),
            r == self.spec_duplicate_failed(),
    {
        if self.fd_from == self.object {
            PrimeExportError::DuplicateFailed(self.plane, self.object)
        } else {
            PrimeExportError::DuplicateFallbackFailed(self.plane)
        }
    }
}

/// The lowest 32 bits of a number.
pub open spec fn spec_low_word(x: isize) -> int {
    x as int % 0x1_0000_0000
}

fn low_word(x: isize) -> (r: u32)
    ensures
        r == spec_low_word(x),
{
    if x >= 0 {
        (x as u64 % 0x1_0000_0000) as u32
    } else {
        let y: u64 = (-(x + 1)) as u64;
        (0xffff_ffff - y % 0x1_0000_0000) as u32
    }
}

/// Counting from zero, `i` is still below the count. A negative count has no end.
pub open spec fn counts(count: i32, i: int) -> bool {
    count < 0 || i < count
}

fn is_counted(count: i32, i: usize) -> (r: bool)
    ensures
        r == counts(count, i as int),
{
    count < 0 || (i as u128) < count as u128
}

/// Where the search for the next plane ends.
#[derive(Clone, Copy, PartialEq, Eq, Structural, Debug)]
pub enum Position {
    /// At this plane of this layer.
    At(usize, usize),
    /// Behind the last plane.
    End,
    /// Behind the end of a table, where a count is wrong.
    Outside,
}

impl DrmFrameDescriptor {
    /// The first plane at or behind the given position of the given layer.
    pub open spec fn spec_position(self, layer: int, plane: int) -> Position
        decreases 4 - layer,
    {
        if !counts(self.nb_layers, layer) {
            Position::End
        } else if layer < 0 || layer >= 4 {
            Position::Outside
        } else if !counts(self.layers@[layer].nb_planes, plane) {
            self.spec_position(layer + 1, 0)
        } else if plane >= 4 {
            Position::Outside
        } else {
            Position::At(layer as usize, plane as usize)
        }
    }

    fn position(&self, layer: usize, plane: usize) -> (r: Position)
        ensures
            r == self.spec_position(layer as int, plane as int),
        decreases 4 - layer,
    {
        if !is_counted(self.nb_layers, layer) {
            Position::End
        } else if layer >= 4 {
            Position::Outside
        } else if !is_counted(self.layers[layer].nb_planes, plane) {
            self.position(layer + 1, 0)
        } else if plane >= 4 {
            Position::Outside
        } else {
            Position::At(layer, plane)
        }
    }

    /// Where the plane comes from. A plane whose object has no descriptor uses that of the
    /// first object.
    pub open spec fn spec_plane_source(self, layer: usize, plane: usize) -> Result<
        PlaneSource,
        PrimeExportError,
    > {
        let p = self.layers@[layer as int].planes@[plane as int];
        let object = p.object_index;
        if object < 0 || object >= self.nb_objects {
            Err(PrimeExportError::InvalidObjectIndex(object, plane))
        } else if self.objects@[object as int].fd < 0 && self.objects@[0].fd < 0 {
            Err(PrimeExportError::NoDescriptor(plane, object as usize))
        } else {
            Ok(
                PlaneSource {
                    plane,
                    object: object as usize,
                    fd_from: if self.objects@[object as int].fd >= 0 {
                        object as usize
                    } else {
                        0
                    },
                    pitch: spec_low_word(p.pitch) as u32,
                    offset: spec_low_word(p.offset) as u32,
                    modifier: Some(self.objects@[object as int].format_modifier),
                },
            )
        }
    }
}

/// The code of the frame, or why it cannot be exported.
pub open spec fn spec_check_header(desc: DrmFrameDescriptor, known: Option<u32>) -> Result<
    u32,
    PrimeExportError,
> {
    if desc.nb_objects == 0 || desc.nb_layers == 0 {
        Err(PrimeExportError::EmptyDescriptor)
    } else {
        match known {
            Some(code) => Ok(code),
            None => Err(PrimeExportError::UnsupportedFourcc(desc.layers@[0].format)),
        }
    }
}

/// Checks that there is something to export, once it is known whether the first layer's code
/// is known. Returns the code of the frame.
pub fn check_header(desc: &DrmFrameDescriptor, known: Option<u32>) -> (r: Result<
    u32,
    PrimeExportError,
>)
    ensures
        r == (if desc.nb_objects == 0 || desc.nb_layers == 0 {
            Err(PrimeExportError::EmptyDescriptor)
        } else {
            match known {
                Some(code) => Ok(code),
                None => Err(PrimeExportError::UnsupportedFourcc(desc.layers@[0].format)),
            }
        }),
        r == spec_check_header(*desc, known),
{
    if desc.nb_objects == 0 || desc.nb_layers == 0 {
        return Err(PrimeExportError::EmptyDescriptor);
    }
    match known {
        Some(code) => Ok(code),
        None => Err(PrimeExportError::UnsupportedFourcc(desc.layers[0].format)),
    }
}

/// An export under way: first the objects are looked at, then the planes, one by one.
pub struct PrimeExport {
    desc: DrmFrameDescriptor,
    fourcc: u32,
    layer: usize,
    plane: usize,
}

impl PrimeExport {
    pub closed spec fn source(self) -> DrmFrameDescriptor {
        self.desc
    }

    pub closed spec fn code(self) -> u32 {
        self.fourcc
    }

    /// The plane that comes next.
    pub closed spec fn next_position(self) -> Position {
        self.desc.spec_position(self.layer as int, self.plane as int)
    }

    /// The export goes on at or behind the given plane.
    pub closed spec fn goes_on_from(self, layer: int, plane: int) -> bool {
        self.layer == layer && self.plane == plane
    }

    /// The number of objects fits their table.
    pub open spec fn objects_fit(self) -> bool {
        1 <= self.source().nb_objects <= 4
    }

    /// Begins to export a frame.
    pub fn new(desc: DrmFrameDescriptor) -> (r: Result<PrimeExport, PrimeExportError>)
        ensures
            match r {
                Ok(export) => {
                    &&& export.source() == desc
                    &&& recognised(desc.layers@[0].format) == Some(export.code())
                    &&& desc.nb_objects != 0 && desc.nb_layers != 0
                    &&& export.goes_on_from(0, 0)
                    &&& export.next_position() == desc.spec_position(0, 0)
                },
                Err(e) => if desc.nb_objects == 0 || desc.nb_layers == 0 {
                    e == PrimeExportError::EmptyDescriptor
                } else {
                    &&& recognised(desc.layers@[0].format) is None
                    &&& e == PrimeExportError::UnsupportedFourcc(desc.layers@[0].format)
                },
            },
    {
        let known = check_fourcc(desc.layers[0].format);
        match check_header(&desc, known) {
            Ok(fourcc) => Ok(PrimeExport { desc, fourcc, layer: 0, plane: 0 }),
            Err(e) => Err(e),
        }
    }

    /// The code of the frame.
    pub fn fourcc(&self) -> (r: u32)
        ensures
            r == self.code(),
    {
        self.fourcc
    }

    /// Whether there is an object at position `j`.
    pub fn has_object(&self, j: usize) -> (r: bool)
        ensures
            r == counts(self.source().nb_objects, j as int),
    {
        is_counted(self.desc.nb_objects, j)
    }

    /// The descriptor to duplicate of the object at position `j`, if the object has one. All
    /// objects are looked at before any plane is.
    pub fn object_fd(&self, j: usize) -> (r: Option<i32>)
        requires
            j < 4,
        ensures
            r == (if self.source().objects@[j as int].fd >= 0 {
                Some(self.source().objects@[j as int].fd)
            } else {
                None
            }),
    {
        let fd: i32 = self.desc.objects[j].fd;
        if fd >= 0 {
            Some(fd)
        } else {
            None
        }
    }

    /// Whether the number of objects fits their table and the next plane is in its table.
    pub fn next_is_in_tables(&self) -> (r: bool)
        ensures
            r == (self.objects_fit() && self.next_position() != Position::Outside),
    {
        let outside = match self.desc.position(self.layer, self.plane) {
            Position::Outside => true,
            _ => false,
        };
        self.desc.nb_objects >= 1 && self.desc.nb_objects <= 4 && !outside
    }

    /// Where the next plane comes from, if any is left.
    pub fn next_plane(&mut self) -> (r: Option<Result<PlaneSource, PrimeExportError>>)
        requires
            old(self).objects_fit(),
            old(self).next_position() != Position::Outside,
        ensures
            final(self).source() == old(self).source(),
            final(self).code() == old(self).code(),
            match old(self).next_position() {
                Position::At(layer, plane) => {
                    &&& r == Some(old(self).source().spec_plane_source(layer, plane))
                    &&& final(self).goes_on_from(layer as int, plane + 1)
                    &&& final(self).next_position() == old(self).source().spec_position(
                        layer as int,
                        plane + 1,
                    )
                },
                _ => r is None && *final(self) == *old(self),
            },
    {
        let (layer, plane): (usize, usize) = match self.desc.position(self.layer, self.plane) {
            Position::At(layer, plane) => (layer, plane),
            _ => {
                return None;
            },
        };
        proof {
            lemma_position_is_in_tables(self.desc, self.layer as int, self.plane as int);
        }
        self.layer = layer;
        self.plane = plane + 1;
        let p = self.desc.layers[layer].planes[plane];
        if p.object_index < 0 || p.object_index >= self.desc.nb_objects {
            return Some(Err(PrimeExportError::InvalidObjectIndex(p.object_index, plane)));
        }
        let object: usize = p.object_index as usize;
        let fd_from: usize = if self.desc.objects[object].fd >= 0 {
            object
        } else if self.desc.objects[0].fd >= 0 {
            0
        } else {
            return Some(Err(PrimeExportError::NoDescriptor(plane, object)));
        };
        Some(
            Ok(
                PlaneSource {
                    plane,
                    object,
                    fd_from,
                    pitch: low_word(p.pitch),
                    offset: low_word(p.offset),
                    modifier: Some(self.desc.objects[object].format_modifier),
                },
            ),
        )
    }
}

proof fn lemma_position_is_in_tables(desc: DrmFrameDescriptor, layer: int, plane: int)
    requires
        0 <= layer,
        0 <= plane,
    ensures
        desc.spec_position(layer, plane) matches Position::At(l, p) ==> layer <= l < 4 && p < 4
            && counts(desc.nb_layers, l as int) && counts(
            desc.layers@[l as int].nb_planes,
            p as int,
        ) && (l == layer ==> p == plane) && (l > layer ==> p == 0),
    decreases 4 - layer,
{
    if counts(desc.nb_layers, layer) && layer < 4 && !counts(desc.layers@[layer].nb_planes, plane) {
        lemma_position_is_in_tables(desc, layer + 1, 0);
    }
}

/// The planes are looked at in order, each once: the plane after one is the next in its layer,
/// or the first of a later layer where only layers without planes lie between.
pub proof fn planes_come_in_order(desc: DrmFrameDescriptor, layer: int, plane: int, between: int)
    requires
        0 <= layer < 4,
        0 <= plane < 4,
        counts(desc.nb_layers, layer),
    ensures
        counts(desc.layers@[layer].nb_planes, plane) ==> desc.spec_position(layer, plane)
            == Position::At(layer as usize, plane as usize),
        desc.spec_position(layer, plane) matches Position::At(l, p) ==> {
            &&& l == layer ==> p == plane
            &&& l > layer ==> p == 0
            &&& layer < between < l ==> desc.layers@[between].nb_planes == 0
        },
    decreases 4 - layer,
{
    lemma_position_is_in_tables(desc, layer, plane);
    if !counts(desc.layers@[layer].nb_planes, plane) && counts(desc.nb_layers, layer + 1) && layer
        + 1 < 4 {
        planes_come_in_order(desc, layer + 1, 0, between);
    }
}

/// A plane is only ever given the descriptor of an object that has one.
pub proof fn plane_source_has_descriptor(desc: DrmFrameDescriptor, layer: usize, plane: usize)
    requires
        1 <= desc.nb_objects <= 4,
    ensures
        desc.spec_plane_source(layer, plane) matches Ok(source) ==> source.fd_from
            < desc.nb_objects && desc.objects@[source.fd_from as int].fd >= 0 && source.object
            < desc.nb_objects,
{
}

/// A number that has 32 bits is its own lowest word; of any other one, the word differs by a
/// multiple of what 32 bits can hold.
pub proof fn low_word_keeps_small_numbers(x: isize)
    ensures
        0 <= spec_low_word(x) <= 0xffff_ffff,
        0 <= x <= 0xffff_ffff ==> spec_low_word(x) == x,
        (x - spec_low_word(x)) % 0x1_0000_0000 == 0,
{
}

/// A plane comes with the decoder's numbers: its position, its object, pitch and offset in 32
/// bits and the modifier of its own object. The descriptor is that of its object, or of the
/// first object where that has none. What is refused is a plane of no object, or one for which
/// there is no descriptor, and it is named.
pub proof fn plane_sources_keep_their_numbers(
    desc: DrmFrameDescriptor,
    layer: usize,
    plane: usize,
)
    requires
        layer < 4,
        plane < 4,
        1 <= desc.nb_objects <= 4,
    ensures
        ({
            let p = desc.layers@[layer as int].planes@[plane as int];
            let own = desc.objects@[p.object_index as int];
            let r = desc.spec_plane_source(layer, plane);
            let exists_object = 0 <= p.object_index < desc.nb_objects;
            &&& r is Ok <==> exists_object && (own.fd >= 0 || desc.objects@[0].fd >= 0)
            &&& r matches Ok(source) ==> {
                &&& source.plane == plane
                &&& source.object as int == p.object_index as int
                &&& source.modifier == Some(own.format_modifier)
                &&& own.fd >= 0 ==> source.fd_from as int == p.object_index as int
                &&& own.fd < 0 ==> source.fd_from == 0
                &&& 0 <= p.pitch <= 0xffff_ffff ==> source.pitch as int == p.pitch as int
                &&& 0 <= p.offset <= 0xffff_ffff ==> source.offset as int == p.offset as int
                &&& (p.pitch - source.pitch) % 0x1_0000_0000 == 0
                &&& (p.offset - source.offset) % 0x1_0000_0000 == 0
            }
            &&& !exists_object ==> r == Err::<PlaneSource, PrimeExportError>(
                PrimeExportError::InvalidObjectIndex(p.object_index, plane),
            )
            &&& exists_object && r is Err ==> r == Err::<PlaneSource, PrimeExportError>(
                PrimeExportError::NoDescriptor(plane, p.object_index as usize),
            )
        }),
{
}

/// No plane is passed over: the search ends behind the last plane only where the layers that are
/// left have none, and it stays inside the tables where the counts do.
pub proof fn no_plane_is_passed_over(
    desc: DrmFrameDescriptor,
    layer: int,
    plane: int,
    later: int,
)
    requires
        0 <= layer,
        0 <= plane,
        0 <= desc.nb_layers <= 4,
        forall|l: int| 0 <= l < 4 ==> 0 <= (#[trigger] desc.layers@[l]).nb_planes <= 4,
    ensures
        desc.spec_position(layer, plane) != Position::Outside,
        desc.spec_position(layer, plane) == Position::End && layer < later < desc.nb_layers
            ==> desc.layers@[later].nb_planes == 0,
        desc.spec_position(layer, plane) == Position::End && layer < desc.nb_layers ==> plane
            >= desc.layers@[layer].nb_planes,
        desc.spec_position(layer, plane) matches Position::At(l, p) ==> l < desc.nb_layers && p
            < desc.layers@[l as int].nb_planes,
    decreases 4 - layer,
{
    if layer < desc.nb_layers {
        assert(0 <= desc.layers@[layer].nb_planes <= 4);
        if plane >= desc.layers@[layer].nb_planes {
            no_plane_is_passed_over(desc, layer + 1, 0, later);
        }
    }
}

/// A count that is not negative ends where it says; a negative one never does.
pub proof fn negative_counts_have_no_end(count: i32, i: int)
    requires
        0 <= i,
    ensures
        count >= 0 ==> (counts(count, i) <==> i < count),
        count < 0 ==> counts(count, i),
{
}

/// A frame has the code of its first layer. One without objects or layers is refused before its
/// code is looked at, and an unknown code is named.
pub proof fn headers_are_checked_in_order(desc: DrmFrameDescriptor, known: Option<u32>)
    ensures
        ({
            let r = spec_check_header(desc, known);
            let empty = desc.nb_objects == 0 || desc.nb_layers == 0;
            &&& empty <==> (r matches Err(e) && e is EmptyDescriptor)
            &&& r is Ok <==> !empty && known is Some
            &&& r is Ok ==> Some(r->Ok_0) == known
            &&& !empty && known is None ==> (r matches Err(PrimeExportError::UnsupportedFourcc(c))
                && c == desc.layers@[0].format)
        }),
{
}

/// What could not be duplicated is named: the plane, and its object where that was its own.
pub proof fn failed_duplicates_are_named(source: PlaneSource)
    ensures
        source.fd_from == source.object ==> (source.spec_duplicate_failed() matches
            PrimeExportError::DuplicateFailed(plane, object) && plane == source.plane && object
            == source.object),
        source.fd_from != source.object ==> (source.spec_duplicate_failed() matches
            PrimeExportError::DuplicateFallbackFailed(plane) && plane == source.plane),
{
}

} // verus!
