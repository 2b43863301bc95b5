//! Frames that arrive as DMA-BUFs: describing them to the card, and giving their handles back.
use crate::error::{Error, ErrorKind};
use crate::text::{self, decimal_text};
use vstd::prelude::*;

verus! {

/// One plane of an imported frame.
#[derive(Clone, Copy, PartialEq, Eq, Structural, Debug)]
pub struct PrimePlane {
    /// The memory object that the plane lies in.
    pub obj_idx: u32,
    pub pitch: u32,
    pub offset: u32,
}

/// One memory object of an imported frame.
#[derive(Clone, Copy, PartialEq, Eq, Structural, Debug)]
pub struct PrimeObject {
    pub fd: i32,
    pub modifier: Option<u64>,
}

impl PrimeObject {
    /// Takes a file descriptor that a caller passed; negative ones are none.
    pub fn new(fd: i32, modifier: Option<u64>) -> (r: Option<PrimeObject>)
        ensures
            r == (if fd < 0 {
                None
            } else {
                Some(PrimeObject { fd, modifier })
            }),
    {
        if fd < 0 {
            None
        } else {
            Some(PrimeObject { fd, modifier })
        }
    }
}

/// An imported frame, but for what keeps it alive.
#[derive(Debug)]
pub struct PrimeImage {
    pub width: u32,
    pub height: u32,
    /// Four-character code.
    pub format: u32,
    pub objects: Vec<PrimeObject>,
    pub planes: Vec<PrimePlane>,
}

impl PrimeImage {
    /// Planes and references to objects fit the four slots that a framebuffer has.
    pub open spec fn planes_fit(self) -> bool {
        &&& self.planes@.len() <= 4
        &&& forall|i: int|
            0 <= i < self.planes@.len() ==> (#[trigger] self.planes@[i]).obj_idx < 4
    }

    /// Whether planes and references to objects fit four slots.
    pub fn check_slots(&self) -> (r: bool)
        ensures
            r == self.planes_fit(),
    {
        if self.planes.len() > 4 {
            return false;
        }
        let mut i: usize = 0;
        while i < self.planes.len()
            invariant
                i <= self.planes.len(),
                forall|j: int| 0 <= j < i ==> (#[trigger] self.planes@[j]).obj_idx < 4,
            decreases self.planes.len() - i,
        {
            if self.planes[i].obj_idx >= 4 {
                assert(self.planes@[i as int].obj_idx >= 4);
                return false;
            }
            i += 1;
        }
        true
    }

    /// A frame without planes cannot be shown.
    pub fn check_planes(&self) -> (r: Result<(), Error>)
        ensures
            match r {
                Ok(()) => self.planes@.len() > 0,
                Err(e) => self.planes@.len() == 0 && e.says(
                    ErrorKind::Other,
                    "PrimeDesc has no planes"@,
                ),
            },
    {
        if self.planes.len() == 0 {
            Err(Error::new(ErrorKind::Other, "PrimeDesc has no planes"))
        } else {
            Ok(())
        }
    }
}

/// The modifiers of the objects.
pub open spec fn modifiers(objects: Seq<PrimeObject>) -> Seq<Option<u64>> {
    objects.map_values(|o: PrimeObject| o.modifier)
}

/// `i` is the first object with a modifier.
pub open spec fn first_modified(mods: Seq<Option<u64>>, i: int) -> bool {
    &&& 0 <= i < mods.len()
    &&& mods[i] is Some
    &&& forall|j: int| 0 <= j < i ==> #[trigger] mods[j] is None
}

/// `i` is the first object with a modifier other than `m`.
pub open spec fn first_different(mods: Seq<Option<u64>>, m: u64, i: int) -> bool {
    &&& 0 <= i < mods.len()
    &&& mods[i] is Some && mods[i] != Some(m)
    &&& forall|j: int| 0 <= j < i ==> #[trigger] mods[j] is None || mods[j] == Some(m)
}

/// The modifier that all objects with a modifier share, if any has one.
pub open spec fn is_common_modifier(mods: Seq<Option<u64>>, common: Option<u64>) -> bool {
    match common {
        None => forall|i: int| 0 <= i < mods.len() ==> #[trigger] mods[i] is None,
        Some(m) => {
            &&& exists|i: int| 0 <= i < mods.len() && #[trigger] mods[i] == Some(m)
            &&& forall|i: int|
                0 <= i < mods.len() ==> #[trigger] mods[i] is None || mods[i] == Some(m)
        },
    }
}

/// The first modifier, and the first one that differs from it.
pub open spec fn is_modifier_clash(mods: Seq<Option<u64>>, first: u64, other: u64) -> bool {
    exists|i: int, j: int| #[trigger]
        first_modified(mods, i) && #[trigger] first_different(mods, first, j) && mods[i] == Some(
            first,
        ) && mods[j] == Some(other)
}

/// Collapses the objects' modifiers to one.
pub fn common_modifier(objects: &Vec<PrimeObject>) -> (r: Result<Option<u64>, (u64, u64)>)
    ensures
        match r {
            Ok(common) => is_common_modifier(modifiers(objects@), common),
            Err((first, other)) => is_modifier_clash(modifiers(objects@), first, other),
        },
{
    let ghost mods = modifiers(objects@);
    let mut common: Option<u64> = None;
    let mut i: usize = 0;
    let ghost mut at: int = 0;
    while i < objects.len()
        invariant
            i <= objects.len(),
            mods == modifiers(objects@),
            match common {
                None => forall|j: int| 0 <= j < i ==> #[trigger] mods[j] is None,
                Some(m) => {
                    &&& 0 <= at < i
                    &&& first_modified(mods, at)
                    &&& mods[at] == Some(m)
                    &&& forall|j: int|
                        0 <= j < i ==> #[trigger] mods[j] is None || mods[j] == Some(m)
                },
            },
        decreases objects.len() - i,
    {
        assert(mods[i as int] == objects@[i as int].modifier);
        if let Some(m) = objects[i].modifier {
            match common {
                None => {
                    common = Some(m);
                    proof {
                        at = i as int;
                        assert(first_modified(mods, at));
                    }
                },
                Some(first) => {
                    if first != m {
                        assert(first_different(mods, first, i as int));
                        return Err((first, m));
                    }
                },
            }
        }
        i += 1;
    }
    Ok(common)
}

/// A frame as the card takes it: per plane a handle, pitch and offset, and one modifier.
#[derive(Clone, Copy, Debug)]
pub struct PrimePlanarBuf {
    pub w: u32,
    pub h: u32,
    pub fourcc: u32,
    pub pitches: [u32; 4],
    pub offsets: [u32; 4],
    pub handles: [Option<u32>; 4],
    pub modifier: Option<u64>,
}

impl PrimePlanarBuf {
    /// Whether the framebuffer is registered with an explicit modifier.
    pub fn with_modifiers(&self) -> (r: bool)
        ensures
            r == (self.modifier is Some),
    {
        self.modifier.is_some()
    }

    /// The buffer describes the frame whose objects were imported as `gems`: each plane has its
    /// own pitch and offset and the handle of its object, and unused slots are empty.
    pub open spec fn describes(self, image: PrimeImage, gems: Seq<u32>) -> bool {
        &&& self.w == image.width
        &&& self.h == image.height
        &&& self.fourcc == image.format
        &&& is_common_modifier(modifiers(image.objects@), self.modifier)
        &&& forall|i: int|
            0 <= i < 4 ==> #[trigger] self.pitches@[i] == (if i < image.planes@.len() {
                image.planes@[i].pitch
            } else {
                0
            })
        &&& forall|i: int|
            0 <= i < 4 ==> #[trigger] self.offsets@[i] == (if i < image.planes@.len() {
                image.planes@[i].offset
            } else {
                0
            })
        &&& forall|i: int|
            0 <= i < 4 ==> #[trigger] self.handles@[i] == (if i < image.planes@.len()
                && image.planes@[i].obj_idx < gems.len() {
                Some(gems[image.planes@[i].obj_idx as int])
            } else {
                None
            })
    }
}

/// The handles of the imported objects, in the order of the objects.
pub fn handle_slots(gems: &Vec<u32>) -> (r: [Option<u32>; 4])
    requires
        gems@.len() <= 4,
    ensures
        forall|i: int|
            0 <= i < 4 ==> #[trigger] r@[i] == (if i < gems@.len() {
                Some(gems@[i])
            } else {
                None
            }),
{
    let mut slots: [Option<u32>; 4] = [None, None, None, None];
    let mut i: usize = 0;
    while i < gems.len()
        invariant
            i <= gems.len() <= 4,
            forall|j: int|
                0 <= j < 4 ==> #[trigger] slots@[j] == (if j < i {
                    Some(gems@[j])
                } else {
                    None
                }),
        decreases gems.len() - i,
    {
        slots[i] = Some(gems[i]);
        i += 1;
    }
    slots
}

/// What a clash of modifiers is reported as.
pub open spec fn clash_text(first: u64, other: u64) -> Seq<char> {
    "mixed plane modifiers not supported ("@ + decimal_text(first as nat) + " vs "@ + decimal_text(
        other as nat,
    ) + ")"@
}

/// Describes an imported frame to the card. `gems` are the handles that its objects were
/// imported as.
pub fn planar_buffer(image: &PrimeImage, gems: &Vec<u32>) -> (r: Result<PrimePlanarBuf, Error>)
    requires
        image.planes_fit(),
        gems@.len() == image.objects@.len(),
        gems@.len() <= 4,
    ensures
        match r {
            Ok(buf) => buf.describes(*image, gems@),
            Err(e) => exists|first: u64, other: u64| #[trigger]
                is_modifier_clash(modifiers(image.objects@), first, other) && e.says(
                    ErrorKind::Other,
                    clash_text(first, other),
                ),
        },
{
    let obj_handles = handle_slots(gems);
    let mut handles: [Option<u32>; 4] = [None, None, None, None];
    let mut pitches: [u32; 4] = [0, 0, 0, 0];
    let mut offsets: [u32; 4] = [0, 0, 0, 0];
    let mut i: usize = 0;
    while i < image.planes.len()
        invariant
            i <= image.planes.len(),
            image.planes_fit(),
            gems@.len() <= 4,
            forall|j: int|
                0 <= j < 4 ==> #[trigger] obj_handles@[j] == (if j < gems@.len() {
                    Some(gems@[j])
                } else {
                    None
                }),
            forall|j: int|
                0 <= j < 4 ==> #[trigger] pitches@[j] == (if j < i {
                    image.planes@[j].pitch
                } else {
                    0
                }),
            forall|j: int|
                0 <= j < 4 ==> #[trigger] offsets@[j] == (if j < i {
                    image.planes@[j].offset
                } else {
                    0
                }),
            forall|j: int|
                0 <= j < 4 ==> #[trigger] handles@[j] == (if j < i && image.planes@[j].obj_idx
                    < gems@.len() {
                    Some(gems@[image.planes@[j].obj_idx as int])
                } else {
                    None
                }),
        decreases image.planes.len() - i,
    {
        let plane = image.planes[i];
        assert(image.planes@[i as int].obj_idx < 4);
        handles[i] = obj_handles[plane.obj_idx as usize];
        pitches[i] = plane.pitch;
        offsets[i] = plane.offset;
        i += 1;
    }
    match common_modifier(&image.objects) {
        Ok(modifier) => Ok(
            PrimePlanarBuf {
                w: image.width,
                h: image.height,
                fourcc: image.format,
                pitches,
                offsets,
                handles,
                modifier,
            },
        ),
        Err((first, other)) => {
            let start = text::join(
                "mixed plane modifiers not supported (",
                text::decimal(first).as_str(),
            );
            let middle = text::join(start.as_str(), " vs ");
            let end = text::join(middle.as_str(), text::decimal(other).as_str());
            let message = text::join(end.as_str(), ")");
            assert(message@ == clash_text(first, other));
            Err(Error::new(ErrorKind::Other, message.as_str()))
        },
    }
}

/// What it is reported as that object `i` could not be imported.
pub fn object_import_failed(i: usize) -> (e: Error)
    ensures
        e.says(ErrorKind::Other, "prime_fd_to_buffer failed on plane "@ + decimal_text(i as nat)),
{
    let message = text::join(
        "prime_fd_to_buffer failed on plane ",
        text::decimal(i as u64).as_str(),
    );
    Error::new(ErrorKind::Other, message.as_str())
}

/// What it is reported as that the card did not take the framebuffer.
pub fn framebuffer_failed() -> (e: Error)
    ensures
        e.says(ErrorKind::Other, "add_planar_framebuffer failed"@),
{
    Error::new(ErrorKind::Other, "add_planar_framebuffer failed")
}

/// The handles among the slots, each once, in the order of their first slot.
pub open spec fn unique_handles(slots: Seq<Option<u32>>) -> Seq<u32>
    decreases slots.len(),
{
    if slots.len() == 0 {
        seq![]
    } else {
        let before = unique_handles(slots.drop_last());
        match slots.last() {
            Some(handle) => if before.contains(handle) {
                before
            } else {
                before.push(handle)
            },
            None => before,
        }
    }
}

/// How an attempt to close a handle ended.
#[derive(Clone, Copy, PartialEq, Eq, Structural, Debug)]
pub enum CloseOutcome {
    Closed,
    Interrupted,
    /// It failed in any other way.
    Failed,
}

/// The handles that are left to try once an attempt to close the first has ended.
pub open spec fn left_after(left: Seq<u32>, outcome: CloseOutcome) -> Seq<u32> {
    if outcome == CloseOutcome::Interrupted {
        left.drop_first()
    } else {
        seq![]
    }
}

/// Closing the handles of a framebuffer. Each handle is tried at most once, however many planes
/// share it, and trying goes on only after an interrupted attempt.
pub struct HandleCloser {
    handles: Vec<u32>,
    next: usize,
}

impl HandleCloser {
    /// The handles that are left to try.
    pub closed spec fn left(self) -> Seq<u32> {
        self.handles@.skip(self.next as int)
    }

    pub closed spec fn wf(self) -> bool {
        self.next <= self.handles@.len()
    }

    pub fn new(slots: &[Option<u32>; 4]) -> (r: HandleCloser)
        ensures
            r.wf(),
            r.left() == unique_handles(slots@),
    {
        let mut handles: Vec<u32> = Vec::new();
        let mut i: usize = 0;
        while i < 4
            invariant
                i <= 4,
                handles@ == unique_handles(slots@.take(i as int)),
            decreases 4 - i,
        {
            assert(slots@.take(i + 1).drop_last() =~= slots@.take(i as int));
            if let Some(handle) = slots[i] {
                let mut known = false;
                let mut k: usize = 0;
                while k < handles.len()
                    invariant
                        k <= handles.len(),
                        known == handles@.take(k as int).contains(handle),
                    decreases handles.len() - k,
                {
                    let ghost seen = handles@.take(k as int);
                    let ghost more = handles@.take(k + 1);
                    proof {
                        assert(more[k as int] == handles@[k as int]);
                        if seen.contains(handle) {
                            let w = choose|w: int| 0 <= w < seen.len() && seen[w] == handle;
                            assert(more[w] == handle);
                        }
                        if more.contains(handle) {
                            let w = choose|w: int| 0 <= w < more.len() && more[w] == handle;
                            if w < k {
                                assert(seen[w] == handle);
                            }
                        }
                    }
                    if handles[k] == handle {
                        known = true;
                    }
                    k += 1;
                }
                assert(handles@.take(handles@.len() as int) =~= handles@);
                if !known {
                    handles.push(handle);
                }
            }
            i += 1;
        }
        assert(slots@.take(4) =~= slots@);
        let r = HandleCloser { handles, next: 0 };
        assert(r.left() =~= handles@);
        r
    }

    /// The handle to close now, if any is left.
    pub fn current(&self) -> (r: Option<u32>)
        requires
            self.wf(),
        ensures
            r == (if self.left().len() > 0 {
                Some(self.left()[0])
            } else {
                None
            }),
    {
        if self.next < self.handles.len() {
            Some(self.handles[self.next])
        } else {
            None
        }
    }

    /// Takes note of how closing the current handle ended.
    pub fn report(&mut self, outcome: CloseOutcome)
        requires
            old(self).wf(),
            old(self).left().len() > 0,
        ensures
            final(self).wf(),
            final(self).left() == (if outcome == CloseOutcome::Interrupted {
                old(self).left().drop_first()
            } else {
                seq![]
            }),
            final(self).left() == left_after(old(self).left(), outcome),
    {
        match outcome {
            CloseOutcome::Interrupted => {
                assert(self.next < self.handles.len());
                self.next = self.next + 1;
                assert(self.left() =~= old(self).left().drop_first());
            },
            _ => {
                self.next = self.handles.len();
                assert(self.left() =~= seq![]);
            },
        }
    }
}

/// No handle is tried twice.
pub proof fn unique_handles_are_unique(slots: Seq<Option<u32>>)
    ensures
        unique_handles(slots).no_duplicates(),
    decreases slots.len(),
{
    if slots.len() > 0 {
        unique_handles_are_unique(slots.drop_last());
    }
}

/// The handles that are tried are those in the slots.
pub proof fn unique_handles_are_those_in_slots(slots: Seq<Option<u32>>, handle: u32)
    ensures
        unique_handles(slots).contains(handle) <==> slots.contains(Some(handle)),
    decreases slots.len(),
{
    if slots.len() > 0 {
        let front = slots.drop_last();
        let before = unique_handles(front);
        unique_handles_are_those_in_slots(front, handle);
        if front.contains(Some(handle)) {
            let i = choose|i: int| 0 <= i < front.len() && front[i] == Some(handle);
            assert(slots[i] == Some(handle));
        }
        if slots.contains(Some(handle)) && slots.last() != Some(handle) {
            let i = choose|i: int| 0 <= i < slots.len() && slots[i] == Some(handle);
            assert(front[i] == Some(handle));
        }
        if slots.last() is Some && !before.contains(slots.last()->0) {
            let after = before.push(slots.last()->0);
            assert(after.last() == slots.last()->0);
            if before.contains(handle) {
                let i = choose|i: int| 0 <= i < before.len() && before[i] == handle;
                assert(after[i] == handle);
            }
            if after.contains(handle) && handle != slots.last()->0 {
                let i = choose|i: int| 0 <= i < after.len() && after[i] == handle;
                assert(before[i] == handle);
            }
        }
        if slots.last() == Some(handle) {
            assert(slots[slots.len() - 1] == Some(handle));
        }
    }
}

/// There is one clash at most, and none where the modifiers have a common one.
pub proof fn modifier_clash_is_unique(
    mods: Seq<Option<u64>>,
    first: u64,
    other: u64,
    first2: u64,
    other2: u64,
)
    requires
        is_modifier_clash(mods, first, other),
    ensures
        is_modifier_clash(mods, first2, other2) ==> first == first2 && other == other2,
        forall|common: Option<u64>| !is_common_modifier(mods, common),
{
    let (i, j) = choose|i: int, j: int| #[trigger]
        first_modified(mods, i) && #[trigger] first_different(mods, first, j) && mods[i] == Some(
            first,
        ) && mods[j] == Some(other);
    if is_modifier_clash(mods, first2, other2) {
        let (k, l) = choose|k: int, l: int| #[trigger]
            first_modified(mods, k) && #[trigger] first_different(mods, first2, l) && mods[k]
                == Some(first2) && mods[l] == Some(other2);
        assert(i == k);
        assert(j == l);
    }
    assert forall|common: Option<u64>| !is_common_modifier(mods, common) by {
        assert(mods[i] is Some && mods[j] is Some);
    }
}

/// Slots suffice for at most four planes, each in one of the first four objects.
pub proof fn four_slots_suffice(image: PrimeImage)
    ensures
        image.planes_fit() <==> image.planes@.len() <= 4 && forall|i: int|
            0 <= i < image.planes@.len() ==> 0 <= (#[trigger] image.planes@[i]).obj_idx <= 3,
{
}

/// A modifier that objects have is the common one, and a common modifier is one that an object
/// has.
pub proof fn common_modifier_is_the_objects_own(
    objects: Seq<PrimeObject>,
    common: Option<u64>,
    i: int,
)
    requires
        is_common_modifier(modifiers(objects), common),
        0 <= i < objects.len(),
    ensures
        objects[i].modifier is Some ==> common == objects[i].modifier,
        common is Some ==> exists|k: int|
            0 <= k < objects.len() && (#[trigger] objects[k]).modifier == common,
{
    let mods = modifiers(objects);
    assert(mods[i] == objects[i].modifier);
    if common is Some {
        let k = choose|k: int| 0 <= k < mods.len() && #[trigger] mods[k] == common;
        assert(objects[k].modifier == common);
    }
}

/// Where modifiers clash, the two that are reported differ: the first that an object has, and the
/// first after it that is another one.
pub proof fn clashing_modifiers_differ(objects: Seq<PrimeObject>, first: u64, other: u64)
    requires
        is_modifier_clash(modifiers(objects), first, other),
    ensures
        first != other,
        exists|i: int, j: int|
            {
                &&& 0 <= i < j < objects.len()
                &&& (#[trigger] objects[i]).modifier == Some(first)
                &&& (#[trigger] objects[j]).modifier == Some(other)
                &&& forall|k: int| 0 <= k < i ==> (#[trigger] objects[k]).modifier is None
                &&& forall|k: int|
                    i < k < j ==> ((#[trigger] objects[k]).modifier is None || objects[k].modifier
                        == Some(first))
            },
{
    let mods = modifiers(objects);
    let (i, j) = choose|i: int, j: int| #[trigger]
        first_modified(mods, i) && #[trigger] first_different(mods, first, j) && mods[i] == Some(
            first,
        ) && mods[j] == Some(other);
    assert(mods[i] == objects[i].modifier && mods[j] == objects[j].modifier);
    assert forall|k: int| 0 <= k < i implies (#[trigger] objects[k]).modifier is None by {
        assert(mods[k] == objects[k].modifier);
    }
    assert forall|k: int| i < k < j implies ((#[trigger] objects[k]).modifier is None
        || objects[k].modifier == Some(first)) by {
        assert(mods[k] == objects[k].modifier);
    }
    assert(i < j) by {
        if j < i {
            assert(mods[j] is None);
        }
    }
}

/// A frame is described to the card plane by plane: pitch and offset are the plane's, the handle
/// is the one that the plane's object was imported as, and slots without a plane are empty.
pub proof fn described_planes_keep_their_numbers(
    buf: PrimePlanarBuf,
    image: PrimeImage,
    gems: Seq<u32>,
    i: int,
)
    requires
        buf.describes(image, gems),
        0 <= i < 4,
    ensures
        buf.w == image.width && buf.h == image.height && buf.fourcc == image.format,
        i < image.planes@.len() ==> buf.pitches@[i] == image.planes@[i].pitch && buf.offsets@[i]
            == image.planes@[i].offset,
        i < image.planes@.len() && image.planes@[i].obj_idx < gems.len() ==> buf.handles@[i]
            == Some(gems[image.planes@[i].obj_idx as int]),
        i < image.planes@.len() && image.planes@[i].obj_idx >= gems.len()
            ==> buf.handles@[i] is None,
        i >= image.planes@.len() ==> buf.pitches@[i] == 0 && buf.offsets@[i] == 0
            && buf.handles@[i] is None,
        is_common_modifier(modifiers(image.objects@), buf.modifier),
{
}

/// Handles are tried in the order of their slots: what the first slots give comes first.
pub proof fn handles_are_tried_in_slot_order(slots: Seq<Option<u32>>, k: int)
    requires
        0 <= k <= slots.len(),
    ensures
        unique_handles(slots.take(k)).is_prefix_of(unique_handles(slots)),
    decreases slots.len(),
{
    if k == slots.len() {
        assert(slots.take(k) =~= slots);
    } else {
        let front = slots.drop_last();
        handles_are_tried_in_slot_order(front, k);
        assert(front.take(k) =~= slots.take(k));
    }
}

/// A clash is reported with both modifiers, the first one first.
pub proof fn clash_text_names_both(first: u64, other: u64)
    ensures
        exists|a: Seq<char>, b: Seq<char>|
            {
                &&& #[trigger] text::number_of(a) == first
                &&& #[trigger] text::number_of(b) == other
                &&& clash_text(first, other) =~= "mixed plane modifiers not supported ("@ + a
                    + " vs "@ + b + ")"@
            },
{
    text::decimal_text_reads_back(first as nat);
    text::decimal_text_reads_back(other as nat);
    let a = decimal_text(first as nat);
    let b = decimal_text(other as nat);
    assert(text::number_of(a) == first && text::number_of(b) == other);
}

/// An interrupted attempt is followed by one on the next handle; any other one is the last.
pub proof fn interrupted_attempts_go_on(left: Seq<u32>, outcome: CloseOutcome, i: int)
    requires
        left.len() > 0,
    ensures
        outcome is Interrupted ==> left_after(left, outcome).len() == left.len() - 1,
        outcome is Interrupted && 0 <= i < left.len() - 1 ==> left_after(left, outcome)[i]
            == left[i + 1],
        outcome is Closed || outcome is Failed ==> left_after(left, outcome).len() == 0,
{
}

} // verus!
