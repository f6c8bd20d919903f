//! Validation of parsed fields against a framerate's rules.
use vstd::prelude::*;

verus! {

use crate::framerates::{framerate_is_valid, valid_framerate, ConstFramerate, Framerate};
use crate::parser::{sep_char, Seperator, UnvalidatedTC};
use crate::{timecode_fields_ok, FrameCount, Timecode};

///The warnings container is used to store possible unintended errors when creating the desired
///timecode. Things like incorrect dropframe separator will be added to the provided `&self`
///structure.
///
///A container either keeps every warning added, in order, or (`()`) discards them all.
pub trait WarningContainer: Sized {
    /// The warnings the container holds.
    spec fn held(&self) -> Seq<TimecodeValidationWarning>;

    /// Whether added warnings are kept.
    spec fn keeps_warnings() -> bool;

    fn add_warning(&mut self, w: TimecodeValidationWarning)
        ensures
            final(self).held() == if Self::keeps_warnings() {
                old(self).held().push(w)
            } else {
                old(self).held()
            },
    ;
}

impl WarningContainer for Vec<TimecodeValidationWarning> {
    open spec fn held(&self) -> Seq<TimecodeValidationWarning> {
        self@
    }

    open spec fn keeps_warnings() -> bool {
        true
    }

    fn add_warning(&mut self, w: TimecodeValidationWarning)
        ensures
            final(self)@ == old(self)@.push(w),
    {
        self.push(w);
    }
}

impl WarningContainer for () {
    open spec fn held(&self) -> Seq<TimecodeValidationWarning> {
        Seq::empty()
    }

    open spec fn keeps_warnings() -> bool {
        false
    }

    fn add_warning(&mut self, w: TimecodeValidationWarning) {
    }
}

#[derive(Debug, PartialEq, Clone, Copy)]
pub enum TimecodeValidationError {
    ///The minutes field is invalid
    InvalidMin(u8),
    ///The seconds field is invalid
    InvalidSec(u8),
    ///The frames field is invalid (can happen because target is drop-frame)
    InvalidFrames(FrameCount),
    ///The text does not have the shape of a timecode.
    ///This will never occur when you call `.validate`, as by the time you have an unvalidated
    ///timecode to call `.validate` on, it has already passed the parsing step.
    Unparsed,
    ///The framerate cannot be read (`None`) or cannot carry timecodes (its frames count).
    InvalidFramerate(Option<u32>),
}

#[derive(Debug, Eq, PartialEq, Clone, Copy)]
pub enum TimecodeValidationWarning {
    ///Expected a ':' where a ';' was found or vice-versa.
    MismatchSep,
}

/// The rules of validation, first failure first: minutes, seconds, a label that
/// drop-frame counting skips, frames.
pub open spec fn validation_outcome<FR: Framerate>(tc: UnvalidatedTC, fr: FR) -> Result<
    (),
    TimecodeValidationError,
> {
    if tc.m >= 60 {
        Err(TimecodeValidationError::InvalidMin(tc.m))
    } else if tc.s >= 60 {
        Err(TimecodeValidationError::InvalidSec(tc.s))
    } else if (match fr.spec_drop_frames() {
        Some(k) => tc.m % 10 != 0 && tc.s == 0 && tc.f < k,
        None => false,
    }) {
        Err(TimecodeValidationError::InvalidFrames(tc.f))
    } else if tc.f >= fr.spec_max_frame() {
        Err(TimecodeValidationError::InvalidFrames(tc.f))
    } else {
        Ok(())
    }
}

/// The timecode that the fields `tc` give at `fr`, or why they give none.
pub open spec fn validated<FR: Framerate>(tc: UnvalidatedTC, fr: FR) -> Result<
    Timecode<FR>,
    TimecodeValidationError,
> {
    if !valid_framerate(fr) {
        Err(TimecodeValidationError::InvalidFramerate(Some(fr.spec_max_frame())))
    } else {
        match validation_outcome(tc, fr) {
            Ok(_) => Ok(Timecode::spec_parts(tc.h, tc.m, tc.s, tc.f, fr)),
            Err(e) => Err(e),
        }
    }
}

/// The separator read is not the one that the framerate writes.
pub open spec fn separator_mismatch<FR: Framerate>(tc: UnvalidatedTC, fr: FR) -> bool {
    fr.spec_sep() != sep_char(tc.seperator)
}

/// The warnings that validating `tc` at `fr` reports.
pub open spec fn warnings_of<FR: Framerate>(tc: UnvalidatedTC, fr: FR) -> Seq<
    TimecodeValidationWarning,
> {
    if separator_mismatch(tc, fr) {
        seq![TimecodeValidationWarning::MismatchSep]
    } else {
        Seq::empty()
    }
}

/// The warnings that the validation rules add: one `MismatchSep` when minutes and
/// seconds are in range and the separator read is not the framerate's.
pub open spec fn validation_warnings<FR: Framerate>(tc: UnvalidatedTC, fr: FR) -> Seq<
    TimecodeValidationWarning,
> {
    if tc.m < 60 && tc.s < 60 && separator_mismatch(tc, fr) {
        seq![TimecodeValidationWarning::MismatchSep]
    } else {
        Seq::empty()
    }
}

///Used internally when calling [`UnvalidatedTC::validate`]. If `Ok(())` is returned, the
///unvalidated timecode will be directly copied into a new [`Timecode`]
pub trait ValidateableFramerate: Framerate + Copy {
    fn validate<T: WarningContainer>(
        &self,
        input_tc: &UnvalidatedTC,
        warnings: &mut T,
    ) -> (r: Result<(), TimecodeValidationError>)
        ensures
            r == validation_outcome(*input_tc, *self),
            final(warnings).held() == if T::keeps_warnings() {
                old(warnings).held() + validation_warnings(*input_tc, *self)
            } else {
                old(warnings).held()
            },
    ;
}

impl UnvalidatedTC {
    ///Take an invalidated timecode and check that it is valid when interpreted as the framerate `FR`
    pub fn validate<FR: ValidateableFramerate + ConstFramerate>(&self) -> (r: Result<
        Timecode<FR>,
        TimecodeValidationError,
    >)
        ensures
            r == validated(*self, FR::spec_new()),
    {
        match FR::new_checked() {
            Ok(fr) => self.validate_with_fr(&fr),
            Err(n) => Err(TimecodeValidationError::InvalidFramerate(Some(n))),
        }
    }

    ///Same as validate, but with a dynamic framerate parameter
    pub fn validate_with_fr<FR: ValidateableFramerate>(&self, fr: &FR) -> (r: Result<
        Timecode<FR>,
        TimecodeValidationError,
    >)
        ensures
            r == validated(*self, *fr),
    {
        if !framerate_is_valid(fr) {
            return Err(TimecodeValidationError::InvalidFramerate(Some(fr.max_frame())));
        }
        match fr.validate(self, &mut ()) {
            Ok(_) => {
                let UnvalidatedTC { h, m, s, f, .. } = *self;
                Ok(Timecode::from_parts(h, m, s, f, fr))
            },
            Err(e) => Err(e),
        }
    }

    ///This validates the timecode while returning warnings about potentially incorrect timecodes.
    ///
    ///`01:02:00:25` is valid for both NDF30 and DF2997, but the seperator should be `;`
    ///when the framerate is drop frame.
    ///
    ///NOTE: this allocates only if there is a timecode warning, otherwise it is as cheap as
    ///validate
    pub fn validate_with_warnings<FR: ValidateableFramerate + ConstFramerate>(&self) -> (r: Result<
        (Timecode<FR>, Vec<TimecodeValidationWarning>),
        TimecodeValidationError,
    >)
        ensures
            r is Ok <==> validated(*self, FR::spec_new()) is Ok,
            r matches Ok((tc, w)) ==> Ok::<Timecode<FR>, TimecodeValidationError>(tc) == validated(
                *self,
                FR::spec_new(),
            ) && w@ == warnings_of(*self, FR::spec_new()),
            r matches Err(e) ==> Err::<Timecode<FR>, TimecodeValidationError>(e) == validated(
                *self,
                FR::spec_new(),
            ),
    {
        match FR::new_checked() {
            Ok(fr) => self.validate_with_warnings_fr(&fr),
            Err(n) => Err(TimecodeValidationError::InvalidFramerate(Some(n))),
        }
    }

    ///Same as validate_with_warnings, but with a dynamic framerate parameter
    pub fn validate_with_warnings_fr<FR: ValidateableFramerate>(&self, fr: &FR) -> (r: Result<
        (Timecode<FR>, Vec<TimecodeValidationWarning>),
        TimecodeValidationError,
    >)
        ensures
            r is Ok <==> validated(*self, *fr) is Ok,
            r matches Ok((tc, w)) ==> Ok::<Timecode<FR>, TimecodeValidationError>(tc) == validated(
                *self,
                *fr,
            ) && w@ == warnings_of(*self, *fr),
            r matches Err(e) ==> Err::<Timecode<FR>, TimecodeValidationError>(e) == validated(
                *self,
                *fr,
            ),
    {
        let tc = match self.validate_with_fr(fr) {
            Ok(tc) => tc,
            Err(e) => {
                return Err(e);
            },
        };
        let mut warnings: Vec<TimecodeValidationWarning> = Vec::new();
        if let Err(w) = helper_v_sep(self.seperator, fr) {
            warnings.push(w);
        }
        proof {
            if separator_mismatch(*self, *fr) {
                assert(warnings@ =~= seq![TimecodeValidationWarning::MismatchSep]);
            } else {
                assert(warnings@ =~= Seq::<TimecodeValidationWarning>::empty());
            }
        }
        Ok((tc, warnings))
    }

    ///Directly turn an unvalidated timecode into a validated timecode object. The fields
    ///must already obey the rules of validation; the timecode seperator does not have to
    ///match.
    pub fn validate_unchecked<FR: Framerate + ConstFramerate>(&self) -> (r: Timecode<FR>)
        requires
            timecode_fields_ok(self.m as int, self.s as int, self.f as int, FR::spec_new()),
        ensures
            r == Timecode::spec_parts(self.h, self.m, self.s, self.f, FR::spec_new()),
    {
        self.validate_unchecked_with_fr(&FR::new())
    }

    ///see validate_unchecked
    pub fn validate_unchecked_with_fr<FR: Framerate>(&self, fr: &FR) -> (r: Timecode<FR>)
        requires
            timecode_fields_ok(self.m as int, self.s as int, self.f as int, *fr),
        ensures
            r == Timecode::spec_parts(self.h, self.m, self.s, self.f, *fr),
    {
        let UnvalidatedTC { h, m, s, f, .. } = *self;
        Timecode::from_parts(h, m, s, f, fr)
    }
}

pub fn helper_v_ms(m: u8, s: u8) -> (r: Result<(), TimecodeValidationError>)
    ensures
        m >= 60 ==> r == Err::<(), TimecodeValidationError>(
            TimecodeValidationError::InvalidMin(m),
        ),
        m < 60 && s >= 60 ==> r == Err::<(), TimecodeValidationError>(
            TimecodeValidationError::InvalidSec(s),
        ),
        m < 60 && s < 60 ==> r is Ok,
{
    if m >= 60 {
        return Err(TimecodeValidationError::InvalidMin(m));
    }
    if s >= 60 {
        return Err(TimecodeValidationError::InvalidSec(s));
    }
    Ok(())
}

pub fn helper_v_sep<FR: Framerate>(seperator: Seperator, fr: &FR) -> (r: Result<
    (),
    TimecodeValidationWarning,
>)
    ensures
        r is Err <==> fr.spec_sep() != sep_char(seperator),
        r matches Err(w) ==> w == TimecodeValidationWarning::MismatchSep,
{
    let c: char = seperator.into();
    if fr.to_sep() != c {
        return Err(TimecodeValidationWarning::MismatchSep);
    }
    Ok(())
}

pub fn helper_v_max_frame<FR: Framerate>(f: FrameCount, fr: &FR) -> (r: Result<
    (),
    TimecodeValidationError,
>)
    ensures
        f >= fr.spec_max_frame() ==> r == Err::<(), TimecodeValidationError>(
            TimecodeValidationError::InvalidFrames(f),
        ),
        f < fr.spec_max_frame() ==> r is Ok,
{
    if fr.max_frame() <= f {
        Err(TimecodeValidationError::InvalidFrames(f))
    } else {
        Ok(())
    }
}

///drop frame rules are the same regardless of framerate: the first `drop_frames`
///labels of each minute that is not a multiple of ten are skipped.
pub fn helper_v_drop_frame(drop_frames: FrameCount, m: u8, s: u8, f: FrameCount) -> (r: Result<
    (),
    TimecodeValidationError,
>)
    ensures
        (m % 10 != 0 && s == 0 && f < drop_frames) ==> r == Err::<(), TimecodeValidationError>(
            TimecodeValidationError::InvalidFrames(f),
        ),
        !(m % 10 != 0 && s == 0 && f < drop_frames) ==> r is Ok,
{
    if m % 10 != 0 && s == 0 && f < drop_frames {
        return Err(TimecodeValidationError::InvalidFrames(f));
    }
    Ok(())
}

impl<F: Framerate + Copy> ValidateableFramerate for F {
    fn validate<T: WarningContainer>(
        &self,
        input_tc: &UnvalidatedTC,
        warnings: &mut T,
    ) -> (r: Result<(), TimecodeValidationError>) {
        let UnvalidatedTC { m, s, f, seperator, .. } = *input_tc;
        proof {
            assert(old(warnings).held() + Seq::<TimecodeValidationWarning>::empty() =~= old(
                warnings,
            ).held());
        }
        helper_v_ms(m, s)?;
        if let Err(e) = helper_v_sep(seperator, self) {
            warnings.add_warning(e);
            proof {
                assert(old(warnings).held().push(e) =~= old(warnings).held() + seq![e]);
            }
        }
        if let Some(drop_frames) = self.drop_frames() {
            helper_v_drop_frame(drop_frames, m, s, f)?;
        }
        helper_v_max_frame(f, self)?;
        Ok(())
    }
}

} // verus!
