//! Choosing among the modes that a display offers.
use crate::error::{Error, ErrorKind};
use crate::text::{self, decimal_text};
use vstd::math::abs;
use vstd::prelude::*;

verus! {

/// A display mode, as far as the choice depends on it.
#[derive(Clone, Copy, PartialEq, Eq, Structural, Debug)]
pub struct ModeInfo {
    pub width: u16,
    pub height: u16,
    pub vrefresh: u32,
}

impl ModeInfo {
    pub open spec fn has_size(self, w: u32, h: u32) -> bool {
        self.width == w && self.height == h
    }

    /// How far the refresh rate is from `refresh`.
    pub open spec fn off_by(self, refresh: u32) -> int {
        if self.vrefresh <= refresh {
            refresh - self.vrefresh
        } else {
            self.vrefresh - refresh
        }
    }
}

fn matches_size(mode: &ModeInfo, w: u32, h: u32) -> (r: bool)
    ensures
        r == mode.has_size(w, h),
{
    mode.width as u32 == w && mode.height as u32 == h
}

fn refresh_gap(mode: &ModeInfo, refresh: u32) -> (r: u32)
    ensures
        r == mode.off_by(refresh),
{
    if mode.vrefresh <= refresh {
        refresh - mode.vrefresh
    } else {
        mode.vrefresh - refresh
    }
}

/// `i` is the first mode of this size.
pub open spec fn is_first_of_size(modes: Seq<ModeInfo>, w: u32, h: u32, i: int) -> bool {
    &&& 0 <= i < modes.len()
    &&& modes[i].has_size(w, h)
    &&& forall|j: int| 0 <= j < i ==> !(#[trigger] modes[j]).has_size(w, h)
}

/// `i` is the first mode of this size and refresh rate.
pub open spec fn is_first_exact(
    modes: Seq<ModeInfo>,
    w: u32,
    h: u32,
    refresh: u32,
    i: int,
) -> bool {
    &&& 0 <= i < modes.len()
    &&& modes[i].has_size(w, h) && modes[i].vrefresh == refresh
    &&& forall|j: int|
        0 <= j < i ==> !((#[trigger] modes[j]).has_size(w, h) && modes[j].vrefresh == refresh)
}

/// `i` is the mode of this size whose refresh rate is closest to the wanted one, the first of
/// them if there are several.
pub open spec fn is_closest(modes: Seq<ModeInfo>, w: u32, h: u32, refresh: u32, i: int) -> bool {
    &&& 0 <= i < modes.len()
    &&& modes[i].has_size(w, h)
    &&& forall|j: int|
        0 <= j < modes.len() && (#[trigger] modes[j]).has_size(w, h) ==> modes[i].off_by(refresh)
            <= modes[j].off_by(refresh)
    &&& forall|j: int|
        0 <= j < i && (#[trigger] modes[j]).has_size(w, h) ==> modes[i].off_by(refresh)
            < modes[j].off_by(refresh)
}

pub open spec fn size_offered(modes: Seq<ModeInfo>, w: u32, h: u32) -> bool {
    exists|i: int| 0 <= i < modes.len() && (#[trigger] modes[i]).has_size(w, h)
}

pub open spec fn exact_offered(modes: Seq<ModeInfo>, w: u32, h: u32, refresh: u32) -> bool {
    exists|i: int|
        0 <= i < modes.len() && (#[trigger] modes[i]).has_size(w, h) && modes[i].vrefresh
            == refresh
}

fn find_size(modes: &Vec<ModeInfo>, w: u32, h: u32) -> (r: Option<usize>)
    ensures
        match r {
            Some(i) => is_first_of_size(modes@, w, h, i as int),
            None => !size_offered(modes@, w, h),
        },
{
    let mut i: usize = 0;
    while i < modes.len()
        invariant
            i <= modes.len(),
            forall|j: int| 0 <= j < i ==> !(#[trigger] modes@[j]).has_size(w, h),
        decreases modes.len() - i,
    {
        if matches_size(&modes[i], w, h) {
            return Some(i);
        }
        i += 1;
    }
    None
}

fn find_exact(modes: &Vec<ModeInfo>, w: u32, h: u32, refresh: u32) -> (r: Option<usize>)
    ensures
        match r {
            Some(i) => is_first_exact(modes@, w, h, refresh, i as int),
            None => !exact_offered(modes@, w, h, refresh),
        },
{
    let mut i: usize = 0;
    while i < modes.len()
        invariant
            i <= modes.len(),
            forall|j: int|
                0 <= j < i ==> !((#[trigger] modes@[j]).has_size(w, h) && modes@[j].vrefresh
                    == refresh),
        decreases modes.len() - i,
    {
        if matches_size(&modes[i], w, h) && modes[i].vrefresh == refresh {
            return Some(i);
        }
        i += 1;
    }
    None
}

fn find_closest(modes: &Vec<ModeInfo>, w: u32, h: u32, refresh: u32) -> (r: Option<usize>)
    ensures
        match r {
            Some(i) => is_closest(modes@, w, h, refresh, i as int),
            None => !size_offered(modes@, w, h),
        },
{
    let mut best: Option<usize> = None;
    let mut i: usize = 0;
    while i < modes.len()
        invariant
            i <= modes.len(),
            match best {
                Some(b) => b < i && is_closest(modes@.take(i as int), w, h, refresh, b as int),
                None => forall|j: int| 0 <= j < i ==> !(#[trigger] modes@[j]).has_size(w, h),
            },
        decreases modes.len() - i,
    {
        let ghost seen = modes@.take(i as int);
        let ghost next = modes@.take(i + 1);
        proof {
            assert forall|j: int| 0 <= j < i implies next[j] == #[trigger] seen[j] by {}
            assert(next[i as int] == modes@[i as int]);
        }
        if matches_size(&modes[i], w, h) {
            match best {
                Some(b) => {
                    if refresh_gap(&modes[i], refresh) < refresh_gap(&modes[b], refresh) {
                        best = Some(i);
                        proof {
                            assert forall|j: int|
                                0 <= j < next.len() && (#[trigger] next[j]).has_size(
                                    w,
                                    h,
                                ) implies next[i as int].off_by(refresh) <= next[j].off_by(
                                refresh,
                            ) && (j < i ==> next[i as int].off_by(refresh) < next[j].off_by(
                                refresh,
                            )) by {
                                if j < i {
                                    assert(seen[j] == next[j]);
                                    assert(seen[b as int] == modes@[b as int]);
                                }
                            }
                            assert(is_closest(next, w, h, refresh, i as int));
                        }
                    } else {
                        proof {
                            assert(seen[b as int] == modes@[b as int]);
                            assert forall|j: int|
                                0 <= j < next.len() && (#[trigger] next[j]).has_size(
                                    w,
                                    h,
                                ) implies next[b as int].off_by(refresh) <= next[j].off_by(
                                refresh,
                            ) && (j < b ==> next[b as int].off_by(refresh) < next[j].off_by(
                                refresh,
                            )) by {
                                if j < i {
                                    assert(seen[j] == next[j]);
                                }
                            }
                            assert(is_closest(next, w, h, refresh, b as int));
                        }
                    }
                },
                None => {
                    best = Some(i);
                    proof {
                        assert forall|j: int| 0 <= j < i implies !(#[trigger] next[j]).has_size(
                            w,
                            h,
                        ) by {
                            assert(next[j] == modes@[j]);
                        }
                        assert(is_closest(next, w, h, refresh, i as int));
                    }
                },
            }
        } else {
            proof {
                if best is Some {
                    let b = best->0;
                    assert(seen[b as int] == modes@[b as int]);
                    assert forall|j: int|
                        0 <= j < next.len() && (#[trigger] next[j]).has_size(w, h) implies next[b as int].off_by(refresh)
                        <= next[j].off_by(refresh) && (j < b ==> next[b as int].off_by(refresh)
                        < next[j].off_by(refresh)) by {
                        if j < i {
                            assert(seen[j] == next[j]);
                        }
                    }
                    assert(is_closest(next, w, h, refresh, b as int));
                }
            }
        }
        i += 1;
    }
    assert(modes@.take(modes@.len() as int) =~= modes@);
    best
}

/// The mode that a display comes up in when nothing else is asked for: the first it lists.
pub fn default_mode(modes: &Vec<ModeInfo>) -> (r: Result<usize, Error>)
    ensures
        match r {
            Ok(i) => modes@.len() > 0 && i == 0,
            Err(e) => modes@.len() == 0 && e.says(ErrorKind::NotFound, "connector has no modes"@),
        },
{
    if modes.len() > 0 {
        Ok(0)
    } else {
        Err(Error::new(ErrorKind::NotFound, "connector has no modes"))
    }
}

/// The choice for a preferred mode of width, height and refresh rate: the mode itself if it is
/// offered, else the closest refresh rate of that size, else the first mode.
pub open spec fn is_picked_mode(
    modes: Seq<ModeInfo>,
    preferred: Option<(u32, u32, u32)>,
    i: int,
) -> bool {
    match preferred {
        Some((w, h, refresh)) => if exact_offered(modes, w, h, refresh) {
            is_first_exact(modes, w, h, refresh, i)
        } else if size_offered(modes, w, h) {
            is_closest(modes, w, h, refresh, i)
        } else {
            i == 0
        },
        None => i == 0,
    }
}

/// Picks the mode to drive a display with.
pub fn pick_mode(modes: &Vec<ModeInfo>, preferred: Option<(u32, u32, u32)>) -> (r: Result<
    usize,
    Error,
>)
    ensures
        match r {
            Ok(i) => i < modes@.len() && is_picked_mode(modes@, preferred, i as int),
            Err(e) => modes@.len() == 0 && e.says(ErrorKind::NotFound, "connector has no modes"@),
        },
{
    if let Some((w, h, refresh)) = preferred {
        if let Some(i) = find_exact(modes, w, h, refresh) {
            return Ok(i);
        }
        if let Some(i) = find_closest(modes, w, h, refresh) {
            return Ok(i);
        }
    }
    default_mode(modes)
}

/// `w` times `h`, as messages write it.
pub open spec fn size_text(w: u32, h: u32) -> Seq<char> {
    decimal_text(w as nat) + "x"@ + decimal_text(h as nat)
}

fn write_size(w: u32, h: u32) -> (r: String)
    ensures
        r@ == size_text(w, h),
{
    let width = text::decimal(w as u64);
    let start = text::join(width.as_str(), "x");
    text::join(start.as_str(), text::decimal(h as u64).as_str())
}

/// The preferred mode, if there is one, has the size of the frames.
pub open spec fn preference_fits(preferred: Option<(u32, u32, u32)>, w: u32, h: u32) -> bool {
    preferred matches Some((pw, ph, _)) ==> pw == w && ph == h
}

/// The choice for frames that are shown unscaled: the closest refresh rate among the modes of
/// the frame's size, or the first of them if none is preferred.
pub open spec fn is_picked_raw_mode(
    modes: Seq<ModeInfo>,
    w: u32,
    h: u32,
    preferred: Option<(u32, u32, u32)>,
    i: int,
) -> bool {
    match preferred {
        Some((_, _, refresh)) => is_closest(modes, w, h, refresh, i),
        None => is_first_of_size(modes, w, h, i),
    }
}

/// Picks the mode for raw frames, which must have exactly the mode's size.
pub fn pick_raw_mode(
    modes: &Vec<ModeInfo>,
    frame_width: u32,
    frame_height: u32,
    preferred: Option<(u32, u32, u32)>,
) -> (r: Result<usize, Error>)
    ensures
        match r {
            Ok(i) => {
                &&& preference_fits(preferred, frame_width, frame_height)
                &&& is_picked_raw_mode(modes@, frame_width, frame_height, preferred, i as int)
            },
            Err(e) => if !preference_fits(preferred, frame_width, frame_height) {
                preferred matches Some((w, h, _)) && e.says(
                    ErrorKind::InvalidInput,
                    "preferred mode "@ + size_text(w, h) + " does not match raw frame size "@
                        + size_text(frame_width, frame_height),
                )
            } else {
                &&& !size_offered(modes@, frame_width, frame_height)
                &&& e.says(
                    ErrorKind::NotFound,
                    "no display mode matches raw frame size "@ + size_text(
                        frame_width,
                        frame_height,
                    ),
                )
            },
        },
{
    if let Some((w, h, _)) = preferred {
        if w != frame_width || h != frame_height {
            let start = text::join("preferred mode ", write_size(w, h).as_str());
            let middle = text::join(start.as_str(), " does not match raw frame size ");
            let message = text::join(
                middle.as_str(),
                write_size(frame_width, frame_height).as_str(),
            );
            return Err(Error::new(ErrorKind::InvalidInput, message.as_str()));
        }
    }
    let found = match preferred {
        Some((_, _, refresh)) => find_closest(modes, frame_width, frame_height, refresh),
        None => find_size(modes, frame_width, frame_height),
    };
    match found {
        Some(i) => Ok(i),
        None => {
            let message = text::join(
                "no display mode matches raw frame size ",
                write_size(frame_width, frame_height).as_str(),
            );
            Err(Error::new(ErrorKind::NotFound, message.as_str()))
        },
    }
}

/// Each choice is unique: two modes that qualify are the same one.
pub proof fn picked_mode_is_unique(
    modes: Seq<ModeInfo>,
    preferred: Option<(u32, u32, u32)>,
    i: int,
    j: int,
)
    requires
        is_picked_mode(modes, preferred, i),
        is_picked_mode(modes, preferred, j),
    ensures
        i == j,
{
    if preferred is Some {
        let (w, h, refresh) = preferred->0;
        if exact_offered(modes, w, h, refresh) {
            assert(modes[i].has_size(w, h) && modes[j].has_size(w, h));
        } else if size_offered(modes, w, h) {
            assert(modes[i].has_size(w, h) && modes[j].has_size(w, h));
        }
    }
}

/// The same for raw frames.
pub proof fn picked_raw_mode_is_unique(
    modes: Seq<ModeInfo>,
    w: u32,
    h: u32,
    preferred: Option<(u32, u32, u32)>,
    i: int,
    j: int,
)
    requires
        is_picked_raw_mode(modes, w, h, preferred, i),
        is_picked_raw_mode(modes, w, h, preferred, j),
    ensures
        i == j,
{
    assert(modes[i].has_size(w, h) && modes[j].has_size(w, h));
}

/// Where the preferred size is offered, raw frames of that size come up in the mode that is
/// picked for the preference alone.
pub proof fn raw_mode_agrees_with_preference(
    modes: Seq<ModeInfo>,
    w: u32,
    h: u32,
    refresh: u32,
    i: int,
)
    requires
        size_offered(modes, w, h),
    ensures
        is_picked_mode(modes, Some((w, h, refresh)), i) <==> is_picked_raw_mode(
            modes,
            w,
            h,
            Some((w, h, refresh)),
            i,
        ),
{
    if exact_offered(modes, w, h, refresh) {
        let e = choose|e: int|
            0 <= e < modes.len() && (#[trigger] modes[e]).has_size(w, h) && modes[e].vrefresh
                == refresh;
        assert(modes[e].off_by(refresh) == 0);
        if is_closest(modes, w, h, refresh, i) {
            assert(modes[i].off_by(refresh) <= modes[e].off_by(refresh));
            assert forall|j: int| 0 <= j < i implies !((#[trigger] modes[j]).has_size(w, h)
                && modes[j].vrefresh == refresh) by {}
        }
    }
}

/// The mode that is picked for a preference: where modes of the preferred size are offered, one
/// of them, none of which comes closer to the preferred refresh rate and no earlier one as close;
/// otherwise the first mode.
pub proof fn picked_mode_comes_closest(
    modes: Seq<ModeInfo>,
    preferred: Option<(u32, u32, u32)>,
    i: int,
    j: int,
)
    requires
        is_picked_mode(modes, preferred, i),
        0 <= j < modes.len(),
    ensures
        0 <= i < modes.len(),
        preferred is None ==> i == 0,
        preferred matches Some((w, h, refresh)) ==> {
            let wanted = |m: ModeInfo| m.width == w && m.height == h;
            let gap = |m: ModeInfo| abs(m.vrefresh - refresh);
            &&& wanted(modes[j]) ==> wanted(modes[i]) && gap(modes[i]) <= gap(modes[j])
            &&& wanted(modes[j]) && j < i ==> gap(modes[i]) < gap(modes[j])
            &&& wanted(modes[i]) || i == 0
        },
{
    if preferred is Some {
        let (w, h, refresh) = preferred->0;
        assert(modes[j].has_size(w, h) ==> size_offered(modes, w, h));
        if exact_offered(modes, w, h, refresh) {
            assert(modes[i].off_by(refresh) == 0);
            if modes[j].has_size(w, h) && j < i {
                assert(modes[j].vrefresh != refresh);
            }
        }
    }
}

/// The mode for raw frames has exactly their size. It is the first such mode, or, where a refresh
/// rate is preferred, the one that none comes closer to and no earlier one as close.
pub proof fn picked_raw_mode_has_the_frame_size(
    modes: Seq<ModeInfo>,
    w: u32,
    h: u32,
    preferred: Option<(u32, u32, u32)>,
    i: int,
    j: int,
)
    requires
        is_picked_raw_mode(modes, w, h, preferred, i),
        0 <= j < modes.len(),
    ensures
        0 <= i < modes.len(),
        modes[i].width == w && modes[i].height == h,
        preferred is None && modes[j].width == w && modes[j].height == h ==> i <= j,
        preferred matches Some((_, _, refresh)) ==> modes[j].width == w && modes[j].height == h
            ==> {
            &&& abs(modes[i].vrefresh - refresh) <= abs(modes[j].vrefresh - refresh)
            &&& j < i ==> abs(modes[i].vrefresh - refresh) < abs(modes[j].vrefresh - refresh)
        },
{
    assert(modes[j].width == w && modes[j].height == h ==> modes[j].has_size(w, h));
}

/// A preferred mode suits raw frames where it has their width and height; no preference suits
/// all frames.
pub proof fn preference_has_the_frame_size(preferred: Option<(u32, u32, u32)>, w: u32, h: u32)
    ensures
        preference_fits(preferred, w, h) <==> match preferred {
            None => true,
            Some((pw, ph, _)) => pw == w && ph == h,
        },
        preference_fits(None, w, h),
{
}

/// A size is offered where some mode has that width and height.
pub proof fn offered_sizes_are_those_of_modes(modes: Seq<ModeInfo>, w: u32, h: u32)
    ensures
        size_offered(modes, w, h) <==> exists|i: int|
            0 <= i < modes.len() && (#[trigger] modes[i]).width == w && modes[i].height == h,
{
    if size_offered(modes, w, h) {
        let i = choose|i: int| 0 <= i < modes.len() && (#[trigger] modes[i]).has_size(w, h);
        assert(modes[i].width == w && modes[i].height == h);
    }
    if exists|i: int|
        0 <= i < modes.len() && (#[trigger] modes[i]).width == w && modes[i].height == h {
        let i = choose|i: int|
            0 <= i < modes.len() && (#[trigger] modes[i]).width == w && modes[i].height == h;
        assert(modes[i].has_size(w, h));
    }
}

/// A size is written as its width, an `x` and its height.
pub proof fn size_text_reads_back(w: u32, h: u32)
    ensures
        exists|k: int|
            {
                &&& 0 < k < size_text(w, h).len() - 1
                &&& text::number_of(#[trigger] size_text(w, h).take(k)) == w
                &&& size_text(w, h)[k] == 'x'
                &&& text::number_of(size_text(w, h).skip(k + 1)) == h
            },
{
    reveal_strlit("x");
    let all = size_text(w, h);
    let front = decimal_text(w as nat);
    let back = decimal_text(h as nat);
    text::decimal_text_reads_back(w as nat);
    text::decimal_text_reads_back(h as nat);
    let k = front.len() as int;
    assert(all.take(k) =~= front);
    assert(all.skip(k + 1) =~= back);
    assert(all[k] == "x"@[0]);
}

} // verus!
