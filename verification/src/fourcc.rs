//! Four-character codes that are not pixel formats of their own.
use crate::pixel_format::FOURCC_NV12;
use drm_fourcc::DrmFourcc;
use vstd::prelude::*;

verus! {

/// One channel of 8 bits.
pub const FOURCC_R8: u32 = 538982482;

/// Two channels of 8 bits.
pub const FOURCC_GR88: u32 = 943215175;

/// One channel of 16 bits.
pub const FOURCC_R16: u32 = 540422482;

/// Two channels of 16 bits.
pub const FOURCC_GR1616: u32 = 842224199;

/// NV12 with 10 bits per sample.
pub const FOURCC_P010: u32 = 808530000;

/// The code is one that the `drm_fourcc` crate recognises.
pub uninterp spec fn known_fourcc(code: u32) -> bool;

/// The code itself if it is known.
pub open spec fn recognised(code: u32) -> Option<u32> {
    if known_fourcc(code) {
        Some(code)
    } else {
        None
    }
}

/// The codes that frames of decoders and displays are told apart by.
pub open spec fn is_own_code(code: u32) -> bool {
    code == FOURCC_R8 || code == FOURCC_GR88 || code == FOURCC_R16 || code == FOURCC_GR1616 || code
        == FOURCC_P010 || code == FOURCC_NV12
}

/// Calls `DrmFourcc::try_from` of the `drm_fourcc` crate. A code that it recognises comes back
/// unchanged. Which codes these are is left to the crate, except that the single-channel and
/// two-channel codes, P010 and NV12 are among them.
#[verifier::external_body]
fn recognise(code: u32) -> (r: Option<u32>)
    ensures
        r == (if known_fourcc(code) {
            Some(code)
        } else {
            None
        }),
        is_own_code(code) ==> r == Some(code),
{
    match DrmFourcc::try_from(code) {
        Ok(known) => Some(known as u32),
        Err(_) => None,
    }
}

/// Checks a code that a caller passed.
pub fn check_fourcc(code: u32) -> (r: Option<u32>)
    ensures
        r == recognised(code),
        is_own_code(code) ==> r == Some(code),
{
    recognise(code)
}

/// Why no code can be given to a frame.
#[derive(Clone, Copy, PartialEq, Eq, Structural, Debug)]
pub enum FourccError {
    /// The only layer has a code that is not known.
    UnsupportedFourcc(u32),
    /// The two layers do not make up a frame.
    UnsupportedLayers(u32, u32),
    /// There is no rule for so many layers.
    UnsupportedLayerCount(i32),
}

/// The two layers hold luma and chroma of an NV12 frame. The Raspberry Pi also reports two
/// layers of one channel.
pub open spec fn is_nv12_pair(first: u32, second: u32, rpi: bool) -> bool {
    ||| first == FOURCC_R8 && second == FOURCC_GR88
    ||| first == FOURCC_GR88 && second == FOURCC_R8
    ||| rpi && first == FOURCC_R8 && second == FOURCC_R8
}

/// The same with 16 bits, which only the Raspberry Pi reports.
pub open spec fn is_p010_pair(first: u32, second: u32, rpi: bool) -> bool {
    rpi && (first == FOURCC_R16 && second == FOURCC_GR1616 || first == FOURCC_GR1616 && second
        == FOURCC_R16)
}

/// The code of a frame of one or two layers. `known` is the first layer's code if that is
/// known.
pub open spec fn spec_frame_fourcc(
    nb_layers: i32,
    first: u32,
    second: u32,
    known: Option<u32>,
    rpi: bool,
) -> Result<u32, FourccError> {
    if nb_layers == 1 {
        match known {
            Some(code) => Ok(code),
            None => Err(FourccError::UnsupportedFourcc(first)),
        }
    } else if nb_layers == 2 {
        if is_nv12_pair(first, second, rpi) {
            Ok(FOURCC_NV12)
        } else if is_p010_pair(first, second, rpi) {
            Ok(FOURCC_P010)
        } else {
            Err(FourccError::UnsupportedLayers(first, second))
        }
    } else {
        Err(FourccError::UnsupportedLayerCount(nb_layers))
    }
}

/// The code of a frame, once it is known whether its first layer's code is known.
pub fn frame_fourcc(
    nb_layers: i32,
    first: u32,
    second: u32,
    known: Option<u32>,
    rpi: bool,
) -> (r: Result<u32, FourccError>)
    ensures
        r == spec_frame_fourcc(nb_layers, first, second, known, rpi),
{
    if nb_layers == 1 {
        match known {
            Some(code) => Ok(code),
            None => Err(FourccError::UnsupportedFourcc(first)),
        }
    } else if nb_layers == 2 {
        if (first == FOURCC_R8 && second == FOURCC_GR88) || (first == FOURCC_GR88 && second
            == FOURCC_R8) || (rpi && first == FOURCC_R8 && second == FOURCC_R8) {
            Ok(FOURCC_NV12)
        } else if rpi && ((first == FOURCC_R16 && second == FOURCC_GR1616) || (first
            == FOURCC_GR1616 && second == FOURCC_R16)) {
            Ok(FOURCC_P010)
        } else {
            Err(FourccError::UnsupportedLayers(first, second))
        }
    } else {
        Err(FourccError::UnsupportedLayerCount(nb_layers))
    }
}

/// Works out the code of a frame from the codes of its layers.
pub fn derive_fourcc(nb_layers: i32, first: u32, second: u32, rpi: bool) -> (r: Result<
    u32,
    FourccError,
>)
    ensures
        r == spec_frame_fourcc(nb_layers, first, second, recognised(first), rpi),
        nb_layers == 1 && first == FOURCC_NV12 ==> r == Ok::<u32, FourccError>(FOURCC_NV12),
{
    frame_fourcc(nb_layers, first, second, recognise(first), rpi)
}

/// Two layers make up a frame in either order, and the code does not depend on the order.
pub proof fn layer_order_does_not_matter(first: u32, second: u32, rpi: bool)
    ensures
        is_nv12_pair(first, second, rpi) == is_nv12_pair(second, first, rpi),
        is_p010_pair(first, second, rpi) == is_p010_pair(second, first, rpi),
{
}

/// The code that four letters make up, the first of them in the lowest byte.
pub open spec fn letters(a: char, b: char, c: char, d: char) -> int {
    a as int + 256 * (b as int) + 65536 * (c as int) + 16777216 * (d as int)
}

/// The codes are those of their four letters.
pub proof fn codes_spell_their_names()
    ensures
        FOURCC_R8 == letters('R', '8', ' ', ' '),
        FOURCC_GR88 == letters('G', 'R', '8', '8'),
        FOURCC_R16 == letters('R', '1', '6', ' '),
        FOURCC_GR1616 == letters('G', 'R', '3', '2'),
        FOURCC_P010 == letters('P', '0', '1', '0'),
        FOURCC_NV12 == letters('N', 'V', '1', '2'),
{
}

/// A frame of one layer has the code of that layer, provided that the code is known. Two layers
/// make up an NV12 frame where one of them is `R8` and the other `GR88`, or, on a Raspberry Pi,
/// both are `R8`; there they also make up a P010 frame where one is `R16` and the other `GR32`.
/// Nothing else has a code, and the refusal says what was found.
pub proof fn frame_codes_follow_the_layers(
    nb_layers: i32,
    first: u32,
    second: u32,
    known: Option<u32>,
    rpi: bool,
)
    ensures
        ({
            let r = spec_frame_fourcc(nb_layers, first, second, known, rpi);
            let r8 = letters('R', '8', ' ', ' ');
            let gr88 = letters('G', 'R', '8', '8');
            let r16 = letters('R', '1', '6', ' ');
            let gr32 = letters('G', 'R', '3', '2');
            let nv12 = (first == r8 && second == gr88) || (first == gr88 && second == r8) || (rpi
                && first == r8 && second == r8);
            let p010 = rpi && ((first == r16 && second == gr32) || (first == gr32 && second
                == r16));
            &&& nb_layers == 1 ==> (r is Ok <==> known is Some)
            &&& nb_layers == 1 && r is Ok ==> r->Ok_0 == known->0
            &&& nb_layers == 2 ==> (r is Ok <==> nv12 || p010)
            &&& nb_layers == 2 && nv12 ==> r->Ok_0 == letters('N', 'V', '1', '2')
            &&& nb_layers == 2 && p010 ==> r->Ok_0 == letters('P', '0', '1', '0')
            &&& nb_layers != 1 && nb_layers != 2 ==> r is Err
            &&& r matches Err(FourccError::UnsupportedFourcc(c)) ==> nb_layers == 1 && c == first
            &&& r matches Err(FourccError::UnsupportedLayers(a, b)) ==> nb_layers == 2 && a == first
                && b == second
            &&& r matches Err(FourccError::UnsupportedLayerCount(n)) ==> n == nb_layers && n != 1
                && n != 2
        }),
        recognised(first) is Some <==> known_fourcc(first),
        recognised(first) is Some ==> recognised(first)->0 == first,
{
    codes_spell_their_names();
}

} // verus!
