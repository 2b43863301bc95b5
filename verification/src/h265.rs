//! Turning decoded frames into raw ones: what is done with each, step by step.
use crate::decoder::Pixel;
use crate::text::same_text;
use vstd::prelude::*;

verus! {

/// A conversion between two layouts and sizes.
#[derive(Clone, Copy, PartialEq, Eq, Structural, Debug)]
pub struct ScalerSpec {
    pub src_format: Pixel,
    pub src_width: u32,
    pub src_height: u32,
    pub dst_format: Pixel,
    pub dst_width: u32,
    pub dst_height: u32,
}

/// A frame in memory, as far as conversions depend on it.
#[derive(Clone, Copy, PartialEq, Eq, Structural, Debug)]
pub struct FrameShape {
    pub format: Pixel,
    pub width: u32,
    pub height: u32,
}

impl ScalerSpec {
    /// Frames keep their size.
    pub open spec fn spec_of(source: FrameShape, target: Pixel) -> ScalerSpec {
        ScalerSpec {
            src_format: source.format,
            src_width: source.width,
            src_height: source.height,
            dst_format: target,
            dst_width: source.width,
            dst_height: source.height,
        }
    }

    pub fn of(source: FrameShape, target: Pixel) -> (r: ScalerSpec)
        ensures
            r == ScalerSpec::spec_of(source, target),
            r.src_format == source.format && r.dst_format == target,
            r.src_width == source.width && r.dst_width == source.width,
            r.src_height == source.height && r.dst_height == source.height,
    {
        ScalerSpec {
            src_format: source.format,
            src_width: source.width,
            src_height: source.height,
            dst_format: target,
            dst_width: source.width,
            dst_height: source.height,
        }
    }
}

/// When a converter is made.
#[derive(Clone, Copy, PartialEq, Eq, Structural, Debug)]
pub enum ScalerPolicy {
    /// For the first frame that needs one.
    Once,
    /// Whenever the one at hand is for another layout or size.
    PerShape,
}

/// Why a frame cannot be turned into a raw one.
#[derive(Clone, Copy, PartialEq, Eq, Structural, Debug)]
pub enum RawError {
    MapFrame,
    Scaler,
    Scale,
    BufferSize,
    AllocBinary,
    Copy,
}

impl RawError {
    pub open spec fn spec_text(self) -> Seq<char> {
        match self {
            RawError::MapFrame => "map_frame"@,
            RawError::Scaler => "scaler"@,
            RawError::Scale => "scale"@,
            RawError::BufferSize => "buffer_size"@,
            RawError::AllocBinary => "alloc_binary"@,
            RawError::Copy => "copy"@,
        }
    }

    /// The name that callers know the error by.
    pub fn text(self) -> (r: &'static str)
        ensures
            r@ == (match self {
                RawError::MapFrame => "map_frame"@,
                RawError::Scaler => "scaler"@,
                RawError::Scale => "scale"@,
                RawError::BufferSize => "buffer_size"@,
                RawError::AllocBinary => "alloc_binary"@,
                RawError::Copy => "copy"@,
            }),
            r@ == self.spec_text(),
    {
        match self {
            RawError::MapFrame => "map_frame",
            RawError::Scaler => "scaler",
            RawError::Scale => "scale",
            RawError::BufferSize => "buffer_size",
            RawError::AllocBinary => "alloc_binary",
            RawError::Copy => "copy",
        }
    }
}

/// What is to be done with a frame.
#[derive(Clone, Copy, PartialEq, Eq, Structural, Debug)]
pub enum RawStep {
    /// Copy it from the video card to memory.
    Transfer,
    /// Make a converter.
    CreateScaler(ScalerSpec),
    /// Convert it.
    Scale,
    /// Ask how many bytes it takes.
    Measure(FrameShape),
    /// Allocate that many bytes.
    Allocate(usize),
    /// Copy the frame there.
    CopyOut,
    /// The frame is out.
    Done,
    Failed(RawError),
}

/// How the step ended.
#[derive(Clone, Copy, PartialEq, Eq, Structural, Debug)]
pub enum RawOutcome {
    /// The frame as it is in memory now, if the transfer succeeded.
    Transferred(Option<FrameShape>),
    /// Whether there is a converter now.
    ScalerCreated(bool),
    /// The frame as it was converted, if that succeeded.
    Scaled(Option<FrameShape>),
    /// The number of bytes; negative if that is not known.
    Measured(i32),
    /// Whether there was enough memory.
    Allocated(bool),
    /// Negative if the copy failed.
    Copied(i32),
}

/// What a decoder of raw frames keeps between frames.
#[derive(Clone, Copy, PartialEq, Eq, Structural, Debug)]
pub struct Decoder {
    /// The layout that frames are to have.
    pub target: Pixel,
    pub policy: ScalerPolicy,
    /// What the converter at hand was made for.
    pub scaler_spec: Option<ScalerSpec>,
}

impl Decoder {
    pub fn new(target: Pixel, policy: ScalerPolicy) -> (r: Decoder)
        ensures
            r == (Decoder { target, policy, scaler_spec: None }),
    {
        Decoder { target, policy, scaler_spec: None }
    }

    /// The converter at hand will do for the frame.
    pub open spec fn has_scaler_for(self, source: FrameShape) -> bool {
        match self.policy {
            ScalerPolicy::Once => self.scaler_spec is Some,
            ScalerPolicy::PerShape => self.scaler_spec == Some(
                ScalerSpec::spec_of(source, self.target),
            ),
        }
    }

    /// What is done with a frame in memory: it is converted if it has the wrong layout.
    pub open spec fn spec_convert(self, source: FrameShape) -> RawStep {
        if source.format == self.target {
            RawStep::Measure(source)
        } else if self.has_scaler_for(source) {
            RawStep::Scale
        } else {
            RawStep::CreateScaler(ScalerSpec::spec_of(source, self.target))
        }
    }

    fn convert(&self, source: FrameShape) -> (r: RawStep)
        ensures
            r == self.spec_convert(source),
    {
        if source.format == self.target {
            return RawStep::Measure(source);
        }
        let wanted = ScalerSpec::of(source, self.target);
        match (self.policy, self.scaler_spec) {
            (ScalerPolicy::Once, Some(_)) => RawStep::Scale,
            (ScalerPolicy::PerShape, Some(spec)) => if spec == wanted {
                RawStep::Scale
            } else {
                RawStep::CreateScaler(wanted)
            },
            (_, None) => RawStep::CreateScaler(wanted),
        }
    }

    /// The first step for a frame that was decoded.
    pub fn begin(&self, decoded: FrameShape, needs_transfer: bool) -> (r: RawStep)
        ensures
            r == (if needs_transfer {
                RawStep::Transfer
            } else {
                self.spec_convert(decoded)
            }),
    {
        if needs_transfer {
            RawStep::Transfer
        } else {
            self.convert(decoded)
        }
    }

    /// The step can end this way.
    pub open spec fn accepts(step: RawStep, outcome: RawOutcome) -> bool {
        match step {
            RawStep::Transfer => outcome is Transferred,
            RawStep::CreateScaler(_) => outcome is ScalerCreated,
            RawStep::Scale => outcome is Scaled,
            RawStep::Measure(_) => outcome is Measured,
            RawStep::Allocate(_) => outcome is Allocated,
            RawStep::CopyOut => outcome is Copied,
            RawStep::Done | RawStep::Failed(_) => false,
        }
    }

    /// The step after the one that ended.
    pub open spec fn spec_next(self, step: RawStep, outcome: RawOutcome) -> RawStep {
        match outcome {
            RawOutcome::Transferred(None) => RawStep::Failed(RawError::MapFrame),
            RawOutcome::Transferred(Some(source)) => self.spec_convert(source),
            RawOutcome::ScalerCreated(created) => if created {
                RawStep::Scale
            } else {
                RawStep::Failed(RawError::Scaler)
            },
            RawOutcome::Scaled(None) => RawStep::Failed(RawError::Scale),
            RawOutcome::Scaled(Some(converted)) => RawStep::Measure(converted),
            RawOutcome::Measured(size) => if size < 0 {
                RawStep::Failed(RawError::BufferSize)
            } else {
                RawStep::Allocate(size as usize)
            },
            RawOutcome::Allocated(allocated) => if allocated {
                RawStep::CopyOut
            } else {
                RawStep::Failed(RawError::AllocBinary)
            },
            RawOutcome::Copied(result) => if result < 0 {
                RawStep::Failed(RawError::Copy)
            } else {
                RawStep::Done
            },
        }
    }

    /// What the converter at hand is for after the step.
    pub open spec fn spec_scaler_after(self, step: RawStep, outcome: RawOutcome) -> Option<
        ScalerSpec,
    > {
        match (step, outcome) {
            (RawStep::CreateScaler(spec), RawOutcome::ScalerCreated(true)) => Some(spec),
            _ => self.scaler_spec,
        }
    }

    /// Decides what is done after a step. A converter that was made is kept.
    pub fn next(&mut self, step: RawStep, outcome: RawOutcome) -> (r: RawStep)
        requires
            Decoder::accepts(step, outcome),
        ensures
            r == old(self).spec_next(step, outcome),
            *final(self) == (Decoder {
                scaler_spec: old(self).spec_scaler_after(step, outcome),
                ..*old(self)
            }),
    {
        match outcome {
            RawOutcome::Transferred(None) => RawStep::Failed(RawError::MapFrame),
            RawOutcome::Transferred(Some(source)) => self.convert(source),
            RawOutcome::ScalerCreated(created) => {
                if !created {
                    return RawStep::Failed(RawError::Scaler);
                }
                if let RawStep::CreateScaler(spec) = step {
                    self.scaler_spec = Some(spec);
                }
                RawStep::Scale
            },
            RawOutcome::Scaled(None) => RawStep::Failed(RawError::Scale),
            RawOutcome::Scaled(Some(converted)) => RawStep::Measure(converted),
            RawOutcome::Measured(size) => if size < 0 {
                RawStep::Failed(RawError::BufferSize)
            } else {
                RawStep::Allocate(size as usize)
            },
            RawOutcome::Allocated(allocated) => if allocated {
                RawStep::CopyOut
            } else {
                RawStep::Failed(RawError::AllocBinary)
            },
            RawOutcome::Copied(result) => if result < 0 {
                RawStep::Failed(RawError::Copy)
            } else {
                RawStep::Done
            },
        }
    }

    /// Whether the outcome is one that the step ends with.
    pub fn expects(step: &RawStep, outcome: &RawOutcome) -> (r: bool)
        ensures
            r == Decoder::accepts(*step, *outcome),
    {
        match (step, outcome) {
            (RawStep::Transfer, RawOutcome::Transferred(_)) => true,
            (RawStep::CreateScaler(_), RawOutcome::ScalerCreated(_)) => true,
            (RawStep::Scale, RawOutcome::Scaled(_)) => true,
            (RawStep::Measure(_), RawOutcome::Measured(_)) => true,
            (RawStep::Allocate(_), RawOutcome::Allocated(_)) => true,
            (RawStep::CopyOut, RawOutcome::Copied(_)) => true,
            _ => false,
        }
    }

    /// Drops the converter.
    pub fn drop_scaler(&mut self)
        ensures
            *final(self) == (Decoder { scaler_spec: None, ..*old(self) }),
    {
        self.scaler_spec = None;
    }
}

/// The layout of raw frames, which must have been asked for.
pub fn raw_target(target: Option<Pixel>) -> (r: Result<Pixel, &'static str>)
    ensures
        match r {
            Ok(pixel) => target == Some(pixel),
            Err(text) => target is None && text@ == "missing raw output format"@,
        },
{
    match target {
        Some(pixel) => Ok(pixel),
        None => Err("missing raw output format"),
    }
}

/// The layout of this name, for decoders that know three.
pub fn pixel_from_atom(name: &str) -> (r: Option<Pixel>)
    ensures
        match r {
            Some(pixel) => atom_text(pixel) == Some(name@),
            None => forall|pixel: Pixel| #[trigger] atom_text(pixel) != Some(name@),
        },
{
    if same_text(name, "nv12") {
        Some(Pixel::Nv12)
    } else if same_text(name, "yuv420p") {
        Some(Pixel::Yuv420P)
    } else if same_text(name, "rgb24") {
        Some(Pixel::Rgb24)
    } else {
        None
    }
}

/// The name of a layout, for decoders that know three.
pub open spec fn atom_text(pixel: Pixel) -> Option<Seq<char>> {
    match pixel {
        Pixel::Nv12 => Some("nv12"@),
        Pixel::Yuv420P => Some("yuv420p"@),
        Pixel::Rgb24 => Some("rgb24"@),
        _ => None,
    }
}

/// The name of the layout, if it has one.
pub fn atom_from_pixel(pixel: Pixel) -> (r: Option<&'static str>)
    ensures
        match r {
            Some(name) => atom_text(pixel) == Some(name@),
            None => atom_text(pixel) is None,
        },
{
    match pixel {
        Pixel::Nv12 => Some("nv12"),
        Pixel::Yuv420P => Some("yuv420p"),
        Pixel::Rgb24 => Some("rgb24"),
        _ => None,
    }
}

/// Names and layouts correspond one to one: a layout is found again by its name.
pub proof fn names_and_layouts_correspond(a: Pixel, b: Pixel)
    requires
        atom_text(a) is Some,
        atom_text(a) == atom_text(b),
    ensures
        a == b,
{
    reveal_strlit("nv12");
    reveal_strlit("yuv420p");
    reveal_strlit("rgb24");
    assert("nv12"@.len() == 4 && "yuv420p"@.len() == 7 && "rgb24"@.len() == 5);
}

/// After a converter was made for a frame, the next frame of the same shape finds it.
pub proof fn converter_is_found_again(d: Decoder, source: FrameShape, step: RawStep)
    requires
        source.format != d.target,
        d.spec_convert(source) == step,
        step is CreateScaler,
    ensures
        ({
            let after = Decoder {
                scaler_spec: d.spec_scaler_after(step, RawOutcome::ScalerCreated(true)),
                ..d
            };
            after.spec_convert(source) == RawStep::Scale
        }),
{
}

/// Where converters are made per shape, a frame is only ever converted by one that was made
/// for frames of its layout and size.
pub proof fn converter_fits_its_frames(d: Decoder, source: FrameShape)
    requires
        d.policy == ScalerPolicy::PerShape,
        d.spec_convert(source) == RawStep::Scale,
    ensures
        d.scaler_spec == Some(ScalerSpec::spec_of(source, d.target)),
{
}

/// A frame that takes its steps without a failure is measured in the target layout, as long as
/// converting delivers that layout.
pub proof fn raw_frames_have_the_target_layout(
    d: Decoder,
    step: RawStep,
    outcome: RawOutcome,
    shape: FrameShape,
)
    requires
        Decoder::accepts(step, outcome),
        outcome matches RawOutcome::Scaled(Some(converted)) ==> converted.format == d.target,
        d.spec_next(step, outcome) == RawStep::Measure(shape),
    ensures
        shape.format == d.target,
{
}

/// How many steps a frame may still take.
pub open spec fn steps_left(step: RawStep) -> nat {
    match step {
        RawStep::Transfer => 6,
        RawStep::CreateScaler(_) => 5,
        RawStep::Scale => 4,
        RawStep::Measure(_) => 3,
        RawStep::Allocate(_) => 2,
        RawStep::CopyOut => 1,
        RawStep::Done | RawStep::Failed(_) => 0,
    }
}

/// No step is taken twice: every frame is out, or has failed, after six steps at most.
pub proof fn raw_frames_come_to_an_end(d: Decoder, step: RawStep, outcome: RawOutcome)
    requires
        Decoder::accepts(step, outcome),
    ensures
        steps_left(d.spec_next(step, outcome)) < steps_left(step),
        steps_left(step) <= 6,
{
}

/// A conversion changes the layout and nothing else: the converter that is asked for a frame, at
/// once or after the frame came from the card, takes frames of its layout and size and delivers
/// frames of the target layout and the same size.
pub proof fn conversion_keeps_the_size(d: Decoder, step: RawStep, source: FrameShape, spec: ScalerSpec)
    requires
        d.spec_convert(source) == RawStep::CreateScaler(spec) || d.spec_next(
            step,
            RawOutcome::Transferred(Some(source)),
        ) == RawStep::CreateScaler(spec),
    ensures
        spec.src_format == source.format,
        spec.dst_format == d.target,
        spec.src_width == source.width,
        spec.src_height == source.height,
        spec.dst_width == spec.src_width,
        spec.dst_height == spec.src_height,
        source.format != d.target,
{
}

/// The conversion for a frame, field by field.
pub proof fn converter_spec_fields(source: FrameShape, target: Pixel)
    ensures
        ({
            let spec = ScalerSpec::spec_of(source, target);
            &&& spec.src_format == source.format && spec.dst_format == target
            &&& spec.src_width == source.width && spec.dst_width == source.width
            &&& spec.src_height == source.height && spec.dst_height == source.height
        }),
{
}

/// A frame that has the target layout is measured as it is; any other one is converted. The
/// converter at hand is used if it will do: any one where converters are made once, and where
/// they are made per shape, one whose both ends fit.
pub proof fn frames_are_converted_as_needed(d: Decoder, source: FrameShape)
    ensures
        d.spec_convert(source) == RawStep::Measure(source) <==> source.format == d.target,
        d.spec_convert(source) is Measure <==> source.format == d.target,
        d.spec_convert(source) is Scale <==> source.format != d.target && d.scaler_spec is Some && (
        d.policy == ScalerPolicy::Once || {
            let have = d.scaler_spec->0;
            &&& have.src_format == source.format && have.dst_format == d.target
            &&& have.src_width == source.width && have.src_height == source.height
            &&& have.dst_width == source.width && have.dst_height == source.height
        }),
        d.spec_convert(source) is Measure || d.spec_convert(source) is Scale || d.spec_convert(
            source,
        ) is CreateScaler,
{
}

/// Each step that fails ends the frame with its own error, and no other step does.
pub proof fn failures_are_told_apart(d: Decoder, step: RawStep, outcome: RawOutcome, e: RawError)
    requires
        Decoder::accepts(step, outcome),
    ensures
        d.spec_next(step, outcome) == RawStep::Failed(e) <==> match e {
            RawError::MapFrame => step is Transfer && outcome == RawOutcome::Transferred(None),
            RawError::Scaler => step is CreateScaler && outcome == RawOutcome::ScalerCreated(false),
            RawError::Scale => step is Scale && outcome == RawOutcome::Scaled(None),
            RawError::BufferSize => step is Measure && (outcome matches RawOutcome::Measured(
                n,
            ) && n < 0),
            RawError::AllocBinary => step is Allocate && outcome == RawOutcome::Allocated(false),
            RawError::Copy => step is CopyOut && (outcome matches RawOutcome::Copied(n) && n < 0),
        },
{
}

/// A frame that is out was copied into memory of exactly the size that was measured, and nothing
/// is copied before that memory is there.
pub proof fn frames_are_measured_allocated_and_copied(
    d: Decoder,
    step: RawStep,
    outcome: RawOutcome,
    n: usize,
)
    requires
        Decoder::accepts(step, outcome),
    ensures
        d.spec_next(step, outcome) == RawStep::Allocate(n) <==> step is Measure && (
        outcome matches RawOutcome::Measured(size) && size as int == n as int),
        d.spec_next(step, outcome) is CopyOut <==> step is Allocate && outcome
            == RawOutcome::Allocated(true),
        d.spec_next(step, outcome) is Done <==> step is CopyOut && (
        outcome matches RawOutcome::Copied(result) && result >= 0),
        step is Scale && outcome is Scaled ==> (d.spec_next(step, outcome) is Measure <==> outcome
            != RawOutcome::Scaled(None)),
        outcome matches RawOutcome::Scaled(Some(shape)) ==> d.spec_next(step, outcome)
            == RawStep::Measure(shape),
        outcome == RawOutcome::ScalerCreated(true) ==> d.spec_next(step, outcome) is Scale,
{
}

/// The converter at hand changes only when one was made, to the one that was asked for.
pub proof fn converter_changes_when_made(d: Decoder, step: RawStep, outcome: RawOutcome)
    ensures
        step matches RawStep::CreateScaler(spec) ==> outcome == RawOutcome::ScalerCreated(true)
            ==> d.spec_scaler_after(step, outcome) == Some(spec),
        !(step is CreateScaler && outcome == RawOutcome::ScalerCreated(true))
            ==> d.spec_scaler_after(step, outcome) == d.scaler_spec,
{
}

/// The three names that there are, each with its layout.
pub proof fn layouts_are_named(pixel: Pixel)
    ensures
        atom_text(pixel) == Some("nv12"@) <==> pixel == Pixel::Nv12,
        atom_text(pixel) == Some("yuv420p"@) <==> pixel == Pixel::Yuv420P,
        atom_text(pixel) == Some("rgb24"@) <==> pixel == Pixel::Rgb24,
        atom_text(pixel) is Some <==> pixel == Pixel::Nv12 || pixel == Pixel::Yuv420P || pixel
            == Pixel::Rgb24,
{
    reveal_strlit("nv12");
    reveal_strlit("yuv420p");
    reveal_strlit("rgb24");
    assert("nv12"@.len() == 4 && "yuv420p"@.len() == 7 && "rgb24"@.len() == 5);
}

/// Callers can tell the errors apart by their names.
pub proof fn error_names_are_distinct(a: RawError, b: RawError)
    ensures
        a.spec_text() == b.spec_text() <==> a == b,
        a.spec_text() == "map_frame"@ <==> a is MapFrame,
        a.spec_text() == "scaler"@ <==> a is Scaler,
        a.spec_text() == "scale"@ <==> a is Scale,
        a.spec_text() == "buffer_size"@ <==> a is BufferSize,
        a.spec_text() == "alloc_binary"@ <==> a is AllocBinary,
        a.spec_text() == "copy"@ <==> a is Copy,
{
    reveal_strlit("map_frame");
    reveal_strlit("scaler");
    reveal_strlit("scale");
    reveal_strlit("buffer_size");
    reveal_strlit("alloc_binary");
    reveal_strlit("copy");
    assert("map_frame"@.len() == 9 && "scaler"@.len() == 6 && "scale"@.len() == 5
        && "buffer_size"@.len() == 11 && "alloc_binary"@.len() == 12 && "copy"@.len() == 4);
}

/// Each step ends with an outcome of its own kind, and with no other; a frame that is out or has
/// failed takes no further step.
pub proof fn steps_end_in_their_own_way(step: RawStep, outcome: RawOutcome)
    ensures
        outcome is Transferred ==> (Decoder::accepts(step, outcome) <==> step is Transfer),
        outcome is ScalerCreated ==> (Decoder::accepts(step, outcome) <==> step is CreateScaler),
        outcome is Scaled ==> (Decoder::accepts(step, outcome) <==> step is Scale),
        outcome is Measured ==> (Decoder::accepts(step, outcome) <==> step is Measure),
        outcome is Allocated ==> (Decoder::accepts(step, outcome) <==> step is Allocate),
        outcome is Copied ==> (Decoder::accepts(step, outcome) <==> step is CopyOut),
{
}

} // verus!
