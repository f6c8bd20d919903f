//! SMPTE timecodes: hours, minutes, seconds and frames at a framerate, with validation,
//! conversion to and from absolute frame counts (including drop-frame counting) and
//! conversion between framerates. See [`Timecode`].
use vstd::prelude::*;

pub mod frame_math;
pub mod framerates;
pub mod parser;
pub mod text;
pub mod validate;

pub use parser::unvalidated;
pub use validate::ValidateableFramerate;
pub use framerates::{
    ConstFramerate, DFDyn, DynFramerate, Framerate, NDFDyn, DF, DF2997, DF5994, NDF, NDF2398,
    NDF25, NDF30, NDF50,
};

verus! {

use vstd::arithmetic::div_mod::lemma_fundamental_div_mod_converse;
use crate::frame_math::{
    adjusted_count,
    count_limit,
    dropped_labels,
    exact_rate,
    frame_count_of,
    in_dropped_window,
    label_count,
    lemma_adjusted_backward,
    lemma_adjusted_forward,
    lemma_count_limit,
    lemma_split,
    nominal_count,
};
use crate::framerates::{
    find_char,
    framerate_from_text,
    framerate_is_valid,
    framerates_match,
    parse_framerate,
    same_framerate,
    valid_framerate,
};
use crate::parser::parse_timecode;
use crate::text::{format_timecode, timecode_text};
use crate::validate::{validated, TimecodeValidationError};
use vstd::string::StrSliceExecFns;

//24 hours * 60 * 60 * 120 still has lots of room in a u32
pub type FrameCount = u32;

/// An absolute number of frames.
#[derive(Copy, Debug, Eq, PartialEq, Clone)]
pub struct Frames(pub FrameCount);

/// A timecode: hours, minutes, seconds and frames at a framerate. Minutes and seconds
/// are below 60 and frames below the framerate's `max_frame`; at the drop-frame rates
/// where the counting is exact (up to 120 frames per second) no timecode holds a
/// skipped label.
#[derive(Copy, Debug, Eq, PartialEq)]
pub struct Timecode<FR: Framerate> {
    h: u8,
    m: u8,
    s: u8,
    f: FrameCount,
    framerate: FR,
}

impl<FR: Framerate> Clone for Timecode<FR> {
    fn clone(&self) -> (r: Self)
        ensures
            r == *self,
    {
        *self
    }
}

/// The fields h:m:s:f form a timecode at `fr` (the rules of validation).
pub open spec fn timecode_fields_ok<FR: Framerate>(m: int, s: int, f: int, fr: FR) -> bool {
    &&& valid_framerate(fr)
    &&& 0 <= m < 60
    &&& 0 <= s < 60
    &&& 0 <= f < fr.spec_max_frame()
    &&& !in_dropped_window(m, s, f, fr.spec_drop_frames())
}

/// The drop-frame counting of `fr` is exact (always for non-drop rates).
pub open spec fn exact_framerate<FR: Framerate>(fr: FR) -> bool {
    exact_rate(fr.spec_max_frame() as int, fr.spec_drop_frames())
}

impl<FR: Framerate> Timecode<FR> {
    #[verifier::type_invariant]
    spec fn inv(self) -> bool {
        &&& valid_framerate(self.framerate)
        &&& self.m < 60
        &&& self.s < 60
        &&& self.f < self.framerate.spec_max_frame()
        &&& exact_framerate(self.framerate) ==> !in_dropped_window(
            self.m as int,
            self.s as int,
            self.f as int,
            self.framerate.spec_drop_frames(),
        )
    }

    pub closed spec fn spec_h(self) -> u8 {
        self.h
    }

    pub closed spec fn spec_m(self) -> u8 {
        self.m
    }

    pub closed spec fn spec_s(self) -> u8 {
        self.s
    }

    pub closed spec fn spec_f(self) -> FrameCount {
        self.f
    }

    pub closed spec fn spec_framerate(self) -> FR {
        self.framerate
    }

    /// The timecode with the given fields.
    pub closed spec fn spec_parts(h: u8, m: u8, s: u8, f: FrameCount, fr: FR) -> Self {
        Timecode { h, m, s, f, framerate: fr }
    }

    /// The absolute frame count of this timecode.
    pub open spec fn spec_frame_count(self) -> int {
        frame_count_of(
            self.spec_h() as int,
            self.spec_m() as int,
            self.spec_s() as int,
            self.spec_f() as int,
            self.spec_framerate().spec_max_frame() as int,
            self.spec_framerate().spec_drop_frames(),
        )
    }

    /// The timecode of frame `n` at `fr`; the hours field counts modulo 256.
    pub closed spec fn spec_from_count(n: int, fr: FR) -> Self {
        let a = label_count(n, fr.spec_drop_frames());
        let mf = fr.spec_max_frame() as int;
        Timecode {
            h: ((a / mf / 60 / 60) % 256) as u8,
            m: ((a / mf / 60) % 60) as u8,
            s: ((a / mf) % 60) as u8,
            f: (a % mf) as u32,
            framerate: fr,
        }
    }

    /// The fields of the timecode of frame `n`: its label position split into hours
    /// (modulo 256), minutes, seconds and frames.
    pub proof fn lemma_from_count_fields(n: int, fr: FR)
        ensures
            ({
                let a = label_count(n, fr.spec_drop_frames());
                let mf = fr.spec_max_frame() as int;
                let tc = Self::spec_from_count(n, fr);
                &&& tc.spec_h() == ((a / mf / 60 / 60) % 256) as u8
                &&& tc.spec_m() == ((a / mf / 60) % 60) as u8
                &&& tc.spec_s() == ((a / mf) % 60) as u8
                &&& tc.spec_f() == (a % mf) as u32
                &&& tc.spec_framerate() == fr
            }),
    {
    }

    /// The fields of the timecode built from given fields.
    pub proof fn lemma_parts_fields(h: u8, m: u8, s: u8, f: FrameCount, fr: FR)
        ensures
            ({
                let tc = Self::spec_parts(h, m, s, f, fr);
                &&& tc.spec_h() == h
                &&& tc.spec_m() == m
                &&& tc.spec_s() == s
                &&& tc.spec_f() == f
                &&& tc.spec_framerate() == fr
            }),
    {
    }

    pub fn h(&self) -> (r: u8)
        ensures
            r == self.spec_h(),
    {
        self.h
    }

    pub fn m(&self) -> (r: u8)
        ensures
            r == self.spec_m(),
    {
        self.m
    }

    pub fn s(&self) -> (r: u8)
        ensures
            r == self.spec_s(),
    {
        self.s
    }

    pub fn f(&self) -> (r: FrameCount)
        ensures
            r == self.spec_f(),
    {
        self.f
    }

    pub fn framerate(&self) -> (r: &FR)
        ensures
            *r == self.spec_framerate(),
    {
        &self.framerate
    }

    /// Builds the timecode h:m:s:f at `fr` from fields that already obey the rules.
    pub(crate) fn from_parts(h: u8, m: u8, s: u8, f: FrameCount, fr: &FR) -> (r: Self)
        requires
            timecode_fields_ok(m as int, s as int, f as int, *fr),
        ensures
            r == Self::spec_parts(h, m, s, f, *fr),
    {
        Timecode { h, m, s, f, framerate: *fr }
    }

    /// The timecode of frame `count` at `fr`.
    fn from_count(count: u64, fr: &FR) -> (r: Self)
        requires
            valid_framerate(*fr),
            count < count_limit(fr.spec_max_frame() as int, fr.spec_drop_frames()),
        ensures
            r == Self::spec_from_count(count as int, *fr),
    {
        proof {
            lemma_count_limit(fr.spec_max_frame() as int, fr.spec_drop_frames());
        }
        let max_frame = fr.max_frame() as u64;
        let mut frame_count: u64 = count;
        if let Some(drop_frames) = fr.drop_frames() {
            frame_count = adjust_frame_count(drop_frames, count);
        }
        proof {
            if exact_framerate(*fr) {
                lemma_from_count_is_label(count as int, *fr);
            }
        }
        let f = frame_count % max_frame;
        frame_count = frame_count / max_frame;
        let s = (frame_count % 60) as u8;
        frame_count = frame_count / 60;
        let m = (frame_count % 60) as u8;
        frame_count = frame_count / 60;
        let h = (frame_count % 256) as u8;
        Timecode { h, m, s, f: f as u32, framerate: *fr }
    }

    /// Adds two timecodes of the same framerate, or reports that the framerates differ.
    /// The sum must lie before 256:00:00:00; `checked_add` reports it where it does not.
    pub fn try_add(self, rhs: Timecode<FR>) -> (r: Result<Self, FramerateMismatch>)
        requires
            same_framerate(self.spec_framerate(), rhs.spec_framerate()) ==> self.spec_frame_count()
                + rhs.spec_frame_count() < count_limit(
                self.spec_framerate().spec_max_frame() as int,
                self.spec_framerate().spec_drop_frames(),
            ),
        ensures
            same_framerate(self.spec_framerate(), rhs.spec_framerate()) ==> r == Ok::<
                Self,
                FramerateMismatch,
            >(Self::spec_from_count(
                self.spec_frame_count() + rhs.spec_frame_count(),
                self.spec_framerate(),
            )),
            !same_framerate(self.spec_framerate(), rhs.spec_framerate()) ==> r == Err::<
                Self,
                FramerateMismatch,
            >(FramerateMismatch),
    {
        proof {
            use_type_invariant(&self);
        }
        if !framerates_match(&self.framerate, &rhs.framerate) {
            return Err(FramerateMismatch);
        }
        let count = self.to_frame_count() as u64 + rhs.to_frame_count() as u64;
        Ok(Timecode::from_count(count, &self.framerate))
    }
}

/// Why an addition or subtraction of frames has no timecode.
#[derive(Debug, Clone, Copy, PartialEq, Eq)]
pub enum TimecodeArithmeticError {
    /// The two timecodes have different framerates.
    FramerateMismatch,
    /// The result lies at or after 256:00:00:00 (or past `FrameCount` for `Frames`).
    Overflow,
    /// The result would lie before 00:00:00:00.
    Underflow,
}

/// The frame count of 256:00:00:00 at `fr`: no timecode has this many frames or more.
pub fn frame_count_limit<FR: Framerate>(fr: &FR) -> (r: u64)
    requires
        valid_framerate(*fr),
    ensures
        r == count_limit(fr.spec_max_frame() as int, fr.spec_drop_frames()),
{
    proof {
        lemma_count_limit(fr.spec_max_frame() as int, fr.spec_drop_frames());
    }
    let mf = fr.max_frame() as u64;
    match fr.drop_frames() {
        Some(k) => 921600 * mf - 13824 * (k as u64),
        None => 921600 * mf,
    }
}

impl<FR: Framerate> Timecode<FR> {
    /// Adds two timecodes of the same framerate; reports differing framerates, and a
    /// sum at or after 256:00:00:00.
    pub fn checked_add(self, rhs: Timecode<FR>) -> (r: Result<Self, TimecodeArithmeticError>)
        ensures
            ({
                let sum = self.spec_frame_count() + rhs.spec_frame_count();
                let fr = self.spec_framerate();
                r == if !same_framerate(fr, rhs.spec_framerate()) {
                    Err(TimecodeArithmeticError::FramerateMismatch)
                } else if sum >= count_limit(fr.spec_max_frame() as int, fr.spec_drop_frames()) {
                    Err(TimecodeArithmeticError::Overflow)
                } else {
                    Ok(Self::spec_from_count(sum, fr))
                }
            }),
    {
        proof {
            use_type_invariant(&self);
        }
        if !framerates_match(&self.framerate, &rhs.framerate) {
            return Err(TimecodeArithmeticError::FramerateMismatch);
        }
        let count = self.to_frame_count() as u64 + rhs.to_frame_count() as u64;
        if count >= frame_count_limit(&self.framerate) {
            return Err(TimecodeArithmeticError::Overflow);
        }
        Ok(Timecode::from_count(count, &self.framerate))
    }

    /// Moves forward by `rhs` frames; reports a result at or after 256:00:00:00.
    pub fn checked_add_frames(self, rhs: Frames) -> (r: Result<Self, TimecodeArithmeticError>)
        ensures
            ({
                let sum = self.spec_frame_count() + rhs.0;
                let fr = self.spec_framerate();
                r == if sum >= count_limit(fr.spec_max_frame() as int, fr.spec_drop_frames()) {
                    Err(TimecodeArithmeticError::Overflow)
                } else {
                    Ok(Self::spec_from_count(sum, fr))
                }
            }),
    {
        proof {
            use_type_invariant(&self);
        }
        let count = self.to_frame_count() as u64 + rhs.0 as u64;
        if count >= frame_count_limit(&self.framerate) {
            return Err(TimecodeArithmeticError::Overflow);
        }
        Ok(Timecode::from_count(count, &self.framerate))
    }

    /// Moves back by `rhs` frames; reports a result before 00:00:00:00.
    pub fn checked_sub_frames(self, rhs: Frames) -> (r: Result<Self, TimecodeArithmeticError>)
        ensures
            r == if rhs.0 > self.spec_frame_count() {
                Err(TimecodeArithmeticError::Underflow)
            } else {
                Ok(Self::spec_from_count(self.spec_frame_count() - rhs.0, self.spec_framerate()))
            },
    {
        proof {
            use_type_invariant(&self);
            lemma_count_range(
                self.h as int,
                self.m as int,
                self.s as int,
                self.f as int,
                self.framerate.spec_max_frame() as int,
                self.framerate.spec_drop_frames(),
            );
        }
        let count = self.to_frame_count();
        if rhs.0 > count {
            return Err(TimecodeArithmeticError::Underflow);
        }
        Ok(Timecode::from_count((count - rhs.0) as u64, &self.framerate))
    }
}

impl Frames {
    /// The sum of two frame counts; reports one past `FrameCount`.
    pub fn checked_add(self, rhs: Frames) -> (r: Result<Frames, TimecodeArithmeticError>)
        ensures
            r == if self.0 + rhs.0 > u32::MAX {
                Err(TimecodeArithmeticError::Overflow)
            } else {
                Ok(Frames((self.0 + rhs.0) as u32))
            },
    {
        match self.0.checked_add(rhs.0) {
            Some(n) => Ok(Frames(n)),
            None => Err(TimecodeArithmeticError::Overflow),
        }
    }

    /// The difference of two frame counts; reports one below zero.
    pub fn checked_sub(self, rhs: Frames) -> (r: Result<Frames, TimecodeArithmeticError>)
        ensures
            r == if rhs.0 > self.0 {
                Err(TimecodeArithmeticError::Underflow)
            } else {
                Ok(Frames((self.0 - rhs.0) as u32))
            },
    {
        if rhs.0 > self.0 {
            Err(TimecodeArithmeticError::Underflow)
        } else {
            Ok(Frames(self.0 - rhs.0))
        }
    }
}

///Things that can be converted to a frame count
///
///Both [`Timecode`] and [`Frames`] implement this.
pub trait ToFrames<FR>: Sized {
    /// The absolute frame count of `self`.
    spec fn spec_count(&self) -> int;

    /// The frame counts and framerates that `from_frames` accepts.
    spec fn accepts(f: Frames, fr: FR) -> bool;

    /// What `from_frames` returns.
    spec fn spec_from_frames(f: Frames, fr: FR) -> Self;

    fn to_frame_count(&self) -> (r: FrameCount)
        ensures
            r == self.spec_count(),
    ;

    fn from_frames(f: &Frames, fr: &FR) -> (r: Self)
        requires
            Self::accepts(*f, *fr),
        ensures
            r == Self::spec_from_frames(*f, *fr),
    ;
}

impl<FR: Framerate> ToFrames<FR> for Timecode<FR> {
    open spec fn spec_count(&self) -> int {
        self.spec_frame_count()
    }

    /// A valid framerate, and a frame count before 256:00:00:00.
    open spec fn accepts(f: Frames, fr: FR) -> bool {
        valid_framerate(fr) && f.0 < count_limit(fr.spec_max_frame() as int, fr.spec_drop_frames())
    }

    open spec fn spec_from_frames(f: Frames, fr: FR) -> Self {
        Self::spec_from_count(f.0 as int, fr)
    }

    fn to_frame_count(&self) -> (r: FrameCount) {
        proof {
            use_type_invariant(self);
            lemma_count_range(
                self.h as int,
                self.m as int,
                self.s as int,
                self.f as int,
                self.framerate.spec_max_frame() as int,
                self.framerate.spec_drop_frames(),
            );
        }
        let max_frame = self.framerate.max_frame() as u64;
        let seconds = (self.h as u64 * 60 + self.m as u64) * 60 + self.s as u64;
        assert(seconds * max_frame <= 921599 * 4660) by (nonlinear_arith)
            requires
                seconds <= 921599,
                max_frame <= 4660,
        ;
        let mut frame_count: u64 = seconds * max_frame + self.f as u64;
        if let Some(drop_frames) = self.framerate.drop_frames() {
            let minute_count = self.h as u64 * 60 + self.m as u64;
            //every 10 minutes, we /dont/ skip a frame. so count the number of times
            //that happens.
            let dropskip_count = minute_count / 10;
            assert((minute_count - dropskip_count) * drop_frames <= 15359 * 4660) by (nonlinear_arith)
                requires
                    minute_count - dropskip_count <= 15359,
                    drop_frames <= 4660,
            ;
            frame_count = frame_count - (minute_count - dropskip_count) * drop_frames as u64;
        }
        frame_count as u32
    }

    fn from_frames(f: &Frames, fr: &FR) -> (r: Self) {
        Timecode::from_count(f.0 as u64, fr)
    }
}

impl ToFrames<()> for Frames {
    open spec fn spec_count(&self) -> int {
        self.0 as int
    }

    open spec fn accepts(f: Frames, fr: ()) -> bool {
        true
    }

    open spec fn spec_from_frames(f: Frames, fr: ()) -> Self {
        f
    }

    fn to_frame_count(&self) -> (r: FrameCount) {
        self.0
    }

    fn from_frames(f: &Frames, fr: &()) -> (r: Self) {
        *f
    }
}

/// The frame count of every timecode fits in a `FrameCount` and is not negative.
proof fn lemma_count_range(h: int, m: int, s: int, f: int, mf: int, drop: Option<u32>)
    requires
        0 <= h < 256,
        0 <= m < 60,
        0 <= s < 60,
        0 <= f < mf,
        0 < mf <= 4660,
        drop matches Some(k) ==> k <= mf,
    ensures
        0 <= dropped_labels(h * 60 + m, drop) <= (h * 60 + m) * 60 * mf,
        (h * 60 + m) * 60 * mf <= nominal_count(h, m, s, f, mf) < 921600 * mf,
        0 <= frame_count_of(h, m, s, f, mf, drop) <= nominal_count(h, m, s, f, mf),
        nominal_count(h, m, s, f, mf) <= u32::MAX,
        frame_count_of(h, m, s, f, mf, drop) < count_limit(mf, drop),
{
    lemma_count_limit(mf, drop);
    let mm = h * 60 + m;
    assert(0 <= mm <= 15359);
    assert((mm * 60 + s) * mf + f < (mm * 60 + 60) * mf) by (nonlinear_arith)
        requires
            0 <= s < 60,
            0 <= f < mf,
    ;
    assert((mm * 60 + 60) * mf <= 921600 * mf) by (nonlinear_arith)
        requires
            mm <= 15359,
            mf > 0,
    ;
    assert(mm * 60 * mf <= (mm * 60 + s) * mf + f) by (nonlinear_arith)
        requires
            0 <= s,
            0 <= f,
            mf > 0,
    ;
    assert(921600 * mf <= 921600 * 4660) by (nonlinear_arith)
        requires
            mf <= 4660,
    ;
    match drop {
        Some(k) => {
            assert(0 <= (mm - mm / 10) * k <= mm * 60 * mf) by (nonlinear_arith)
                requires
                    0 <= mm,
                    0 <= k <= mf,
                    0 <= mm / 10 <= mm,
            ;
            let j = 15359 - mm;
            assert(mm / 10 <= 1535);
            assert((13824 - mm + mm / 10) * k <= j * (60 * mf)) by (nonlinear_arith)
                requires
                    13824 - mm + mm / 10 <= j,
                    j >= 0,
                    0 <= k <= mf,
            ;
            assert((mm * 60 + 60) * mf == 921600 * mf - j * (60 * mf)) by (nonlinear_arith)
                requires
                    j == 15359 - mm,
            ;
            let nom = nominal_count(h, m, s, f, mf);
            assert(nom == (mm * 60 + s) * mf + f);
            assert(frame_count_of(h, m, s, f, mf, drop) == nom - (mm - mm / 10) * k);
            assert(count_limit(mf, drop) == 921600 * mf - 13824 * k);
            assert(nom - (mm - mm / 10) * k < 921600 * mf - 13824 * k) by (nonlinear_arith)
                requires
                    nom < (mm * 60 + 60) * mf,
                    (mm * 60 + 60) * mf == 921600 * mf - j * (60 * mf),
                    (13824 - mm + mm / 10) * k <= j * (60 * mf),
            ;
        },
        None => {},
    }
}

impl<FR: Framerate> std::ops::Add<Timecode<FR>> for Timecode<FR> {
    type Output = Self;

    fn add(self, rhs: Timecode<FR>) -> (r: Self::Output) {
        proof {
            use_type_invariant(&self);
        }
        let count = self.to_frame_count() as u64 + rhs.to_frame_count() as u64;
        Timecode::from_count(count, &self.framerate)
    }
}

/// Adding timecodes asks for one framerate on both sides and a sum before
/// 256:00:00:00 (`checked_add` reports both); the sum is the timecode of the sum of the
/// frame counts.
impl<FR: Framerate> vstd::std_specs::ops::AddSpecImpl<Timecode<FR>> for Timecode<FR> {
    open spec fn obeys_add_spec() -> bool {
        true
    }

    open spec fn add_req(self, rhs: Timecode<FR>) -> bool {
        &&& same_framerate(self.spec_framerate(), rhs.spec_framerate())
        &&& self.spec_frame_count() + rhs.spec_frame_count() < count_limit(
            self.spec_framerate().spec_max_frame() as int,
            self.spec_framerate().spec_drop_frames(),
        )
    }

    open spec fn add_spec(self, rhs: Timecode<FR>) -> Self {
        Self::spec_from_count(self.spec_frame_count() + rhs.spec_frame_count(), self.spec_framerate())
    }
}

impl<FR: Framerate> std::ops::Add<Frames> for Timecode<FR> {
    type Output = Self;

    fn add(self, rhs: Frames) -> (r: Self::Output) {
        proof {
            use_type_invariant(&self);
        }
        let count = self.to_frame_count() as u64 + rhs.0 as u64;
        Timecode::from_count(count, &self.framerate)
    }
}

/// Moving forward asks for a result before 256:00:00:00 (`checked_add_frames` reports
/// it).
impl<FR: Framerate> vstd::std_specs::ops::AddSpecImpl<Frames> for Timecode<FR> {
    open spec fn obeys_add_spec() -> bool {
        true
    }

    open spec fn add_req(self, rhs: Frames) -> bool {
        self.spec_frame_count() + rhs.0 < count_limit(
            self.spec_framerate().spec_max_frame() as int,
            self.spec_framerate().spec_drop_frames(),
        )
    }

    open spec fn add_spec(self, rhs: Frames) -> Self {
        Self::spec_from_count(self.spec_frame_count() + rhs.0, self.spec_framerate())
    }
}

impl std::ops::Add<Frames> for Frames {
    type Output = Frames;

    fn add(self, rhs: Frames) -> (r: Self::Output) {
        Frames(self.0 + rhs.0)
    }
}

impl vstd::std_specs::ops::AddSpecImpl<Frames> for Frames {
    open spec fn obeys_add_spec() -> bool {
        true
    }

    open spec fn add_req(self, rhs: Frames) -> bool {
        self.0 + rhs.0 <= u32::MAX
    }

    open spec fn add_spec(self, rhs: Frames) -> Self {
        Frames((self.0 + rhs.0) as u32)
    }
}

impl<FR: Framerate> std::ops::Sub<Frames> for Timecode<FR> {
    type Output = Self;

    fn sub(self, rhs: Frames) -> (r: Self::Output) {
        proof {
            use_type_invariant(&self);
            lemma_count_range(
                self.h as int,
                self.m as int,
                self.s as int,
                self.f as int,
                self.framerate.spec_max_frame() as int,
                self.framerate.spec_drop_frames(),
            );
        }
        let frame_count = self.to_frame_count();
        Timecode::from_count((frame_count - rhs.0) as u64, &self.framerate)
    }
}

/// Going back by more frames than the timecode counts is not allowed
/// (`checked_sub_frames` reports it as `Underflow`).
impl<FR: Framerate> vstd::std_specs::ops::SubSpecImpl<Frames> for Timecode<FR> {
    open spec fn obeys_sub_spec() -> bool {
        true
    }

    open spec fn sub_req(self, rhs: Frames) -> bool {
        rhs.0 <= self.spec_frame_count()
    }

    open spec fn sub_spec(self, rhs: Frames) -> Self {
        Self::spec_from_count(self.spec_frame_count() - rhs.0, self.spec_framerate())
    }
}

impl std::ops::Sub<Frames> for Frames {
    type Output = Frames;

    fn sub(self, rhs: Frames) -> (r: Self::Output) {
        Frames(self.0 - rhs.0)
    }
}

impl vstd::std_specs::ops::SubSpecImpl<Frames> for Frames {
    open spec fn obeys_sub_spec() -> bool {
        true
    }

    open spec fn sub_req(self, rhs: Frames) -> bool {
        rhs.0 <= self.0
    }

    open spec fn sub_spec(self, rhs: Frames) -> Self {
        Frames((self.0 - rhs.0) as u32)
    }
}

/// Why a conversion to another framerate failed.
#[derive(Debug, Clone, Copy, PartialEq, Eq)]
pub enum ConvertError {
    /// The target framerate cannot carry timecodes.
    InvalidFramerate,
    /// The timecode and the start timecode have different framerates.
    FramerateMismatch,
    /// The timecode precedes the start timecode.
    PrecedesStart,
    /// The scaled frame count lies at or after 256:00:00:00 at the target framerate,
    /// does not fit in a `FrameCount`, or its product does not fit in 128 bits.
    Overflow,
}

/// `count` frames at `src_num / src_den` frames per second expressed at
/// `dst_num / dst_den`, rounded down; `None` where the product or the result is out of
/// range.
pub open spec fn scaled_count(count: int, src_num: int, src_den: int, dst_num: int, dst_den: int) -> Option<int> {
    let product = count * dst_num * src_den;
    if product > u128::MAX {
        None
    } else {
        let scaled = product / (dst_den * src_num);
        if scaled > u32::MAX {
            None
        } else {
            Some(scaled)
        }
    }
}

/// What converting a timecode with frame count `count` at `src_num / src_den` to `fr`
/// gives.
pub open spec fn conversion<DFR: Framerate>(count: int, src_num: int, src_den: int, fr: DFR) -> Result<Timecode<DFR>, ConvertError> {
    if !valid_framerate(fr) {
        Err(ConvertError::InvalidFramerate)
    } else {
        match scaled_count(count, src_num, src_den, fr.spec_fr_num() as int, fr.spec_fr_denom() as int) {
            Some(n) => if n < count_limit(fr.spec_max_frame() as int, fr.spec_drop_frames()) {
                Ok(Timecode::spec_from_count(n, fr))
            } else {
                Err(ConvertError::Overflow)
            },
            None => Err(ConvertError::Overflow),
        }
    }
}

/// What converting a timecode with frame count `count` to `fr`, relative to a start
/// timecode with frame count `start`, gives: the frames elapsed since the start and
/// the start itself are converted apart and added.
pub open spec fn conversion_with_start<DFR: Framerate>(
    count: int,
    start: int,
    rates_match: bool,
    src_num: int,
    src_den: int,
    fr: DFR,
) -> Result<Timecode<DFR>, ConvertError> {
    let dst_num = fr.spec_fr_num() as int;
    let dst_den = fr.spec_fr_denom() as int;
    if !valid_framerate(fr) {
        Err(ConvertError::InvalidFramerate)
    } else if !rates_match {
        Err(ConvertError::FramerateMismatch)
    } else if count < start {
        Err(ConvertError::PrecedesStart)
    } else {
        match (
            scaled_count(count - start, src_num, src_den, dst_num, dst_den),
            scaled_count(start, src_num, src_den, dst_num, dst_den),
        ) {
            (Some(delta), Some(new_start)) => if delta + new_start < count_limit(
                fr.spec_max_frame() as int,
                fr.spec_drop_frames(),
            ) {
                Ok(Timecode::spec_from_count(delta + new_start, fr))
            } else {
                Err(ConvertError::Overflow)
            },
            _ => Err(ConvertError::Overflow),
        }
    }
}

/// Scales `count` frames from the rate `src_num / src_den` to `dst_num / dst_den`.
fn scale_count(count: u32, src_num: u64, src_den: u64, dst_num: u64, dst_den: u64) -> (r: Option<u32>)
    requires
        src_num > 0,
        dst_den > 0,
    ensures
        r matches Some(n) ==> scaled_count(
            count as int,
            src_num as int,
            src_den as int,
            dst_num as int,
            dst_den as int,
        ) == Some(n as int),
        r is None ==> scaled_count(
            count as int,
            src_num as int,
            src_den as int,
            dst_num as int,
            dst_den as int,
        ) is None,
{
    assert(count * dst_num <= u32::MAX * u64::MAX) by (nonlinear_arith);
    let partial = (count as u128) * (dst_num as u128);
    let product = match partial.checked_mul(src_den as u128) {
        Some(p) => p,
        None => {
            return None;
        },
    };
    assert(dst_den * src_num <= u64::MAX * u64::MAX) by (nonlinear_arith);
    assert(dst_den * src_num > 0) by (nonlinear_arith)
        requires
            dst_den > 0,
            src_num > 0,
    ;
    let scaled = product / ((dst_den as u128) * (src_num as u128));
    if scaled > u32::MAX as u128 {
        None
    } else {
        Some(scaled as u32)
    }
}

///This trait is for converting things between different framerates. `convert` and
///`convert_with_start` take the target framerate from the result's type; the `_fr`
///forms take it as an argument. The `_with_start` forms anchor the conversion at a
///shared start timecode instead of at 00:00:00:00.
pub trait Convert: Sized {
    /// The frame count being converted.
    spec fn spec_convert_count(&self) -> int;

    /// Whether `self` and `other` have the same framerate.
    spec fn spec_same_rate(&self, other: &Self) -> bool;

    /// The source rate as a fraction.
    spec fn spec_rate_num(&self) -> int;

    spec fn spec_rate_denom(&self) -> int;

    fn convert<DFR: Framerate + ConstFramerate>(&self) -> (r: Result<Timecode<DFR>, ConvertError>)
        ensures
            r == conversion(
                self.spec_convert_count(),
                self.spec_rate_num(),
                self.spec_rate_denom(),
                DFR::spec_new(),
            ),
    ;

    fn convert_with_fr<DFR: Framerate>(&self, framerate: &DFR) -> (r: Result<Timecode<DFR>, ConvertError>)
        ensures
            r == conversion(
                self.spec_convert_count(),
                self.spec_rate_num(),
                self.spec_rate_denom(),
                *framerate,
            ),
    ;

    fn convert_with_start<DFR: Framerate + ConstFramerate>(&self, start: &Self) -> (r: Result<Timecode<DFR>, ConvertError>)
        ensures
            r == conversion_with_start(
                self.spec_convert_count(),
                start.spec_convert_count(),
                self.spec_same_rate(start),
                self.spec_rate_num(),
                self.spec_rate_denom(),
                DFR::spec_new(),
            ),
    ;

    fn convert_with_start_fr<DFR: Framerate>(&self, start: &Self, framerate: &DFR) -> (r: Result<Timecode<DFR>, ConvertError>)
        ensures
            r == conversion_with_start(
                self.spec_convert_count(),
                start.spec_convert_count(),
                self.spec_same_rate(start),
                self.spec_rate_num(),
                self.spec_rate_denom(),
                *framerate,
            ),
    ;
}

impl<FR: Framerate> Convert for Timecode<FR> {
    open spec fn spec_convert_count(&self) -> int {
        self.spec_frame_count()
    }

    open spec fn spec_same_rate(&self, other: &Self) -> bool {
        same_framerate(self.spec_framerate(), other.spec_framerate())
    }

    open spec fn spec_rate_num(&self) -> int {
        self.spec_framerate().spec_fr_num() as int
    }

    open spec fn spec_rate_denom(&self) -> int {
        self.spec_framerate().spec_fr_denom() as int
    }

    fn convert<DFR: Framerate + ConstFramerate>(&self) -> (r: Result<Timecode<DFR>, ConvertError>) {
        match DFR::new_checked() {
            Ok(fr) => self.convert_with_fr(&fr),
            Err(_) => Err(ConvertError::InvalidFramerate),
        }
    }

    fn convert_with_fr<DFR: Framerate>(&self, fr: &DFR) -> (r: Result<Timecode<DFR>, ConvertError>) {
        proof {
            use_type_invariant(self);
        }
        if !framerate_is_valid(fr) {
            return Err(ConvertError::InvalidFramerate);
        }
        let count = self.to_frame_count();
        //new frame count = old frame count * new_framerate / old_framerate
        match scale_count(count, self.framerate.fr_num(), self.framerate.fr_denom(), fr.fr_num(), fr.fr_denom()) {
            Some(new_count) => {
                if new_count as u64 >= frame_count_limit(fr) {
                    return Err(ConvertError::Overflow);
                }
                Ok(Timecode::from_count(new_count as u64, fr))
            },
            None => Err(ConvertError::Overflow),
        }
    }

    fn convert_with_start<DFR: Framerate + ConstFramerate>(&self, start: &Self) -> (r: Result<Timecode<DFR>, ConvertError>) {
        match DFR::new_checked() {
            Ok(fr) => self.convert_with_start_fr(start, &fr),
            Err(_) => Err(ConvertError::InvalidFramerate),
        }
    }

    fn convert_with_start_fr<DFR: Framerate>(&self, start: &Self, fr: &DFR) -> (r: Result<Timecode<DFR>, ConvertError>) {
        proof {
            use_type_invariant(self);
        }
        if !framerate_is_valid(fr) {
            return Err(ConvertError::InvalidFramerate);
        }
        if !framerates_match(&self.framerate, &start.framerate) {
            return Err(ConvertError::FramerateMismatch);
        }
        let self_count = self.to_frame_count();
        let start_count = start.to_frame_count();
        if self_count < start_count {
            return Err(ConvertError::PrecedesStart);
        }
        let num = self.framerate.fr_num();
        let den = self.framerate.fr_denom();
        let delta = scale_count(self_count - start_count, num, den, fr.fr_num(), fr.fr_denom());
        let new_start = scale_count(start_count, num, den, fr.fr_num(), fr.fr_denom());
        match (delta, new_start) {
            (Some(d), Some(s)) => {
                if d as u64 + s as u64 >= frame_count_limit(fr) {
                    return Err(ConvertError::Overflow);
                }
                Ok(Timecode::from_count(d as u64 + s as u64, fr))
            },
            _ => Err(ConvertError::Overflow),
        }
    }
}

/// The label position of a frame count below that of 256:00:00:00 has an hour below
/// 256, and its fields add up to the frame count again.
proof fn lemma_label_fields<FR: Framerate>(n: int, fr: FR)
    requires
        valid_framerate(fr),
        exact_framerate(fr),
        0 <= n < count_limit(fr.spec_max_frame() as int, fr.spec_drop_frames()),
    ensures
        ({
            let a = label_count(n, fr.spec_drop_frames());
            let mf = fr.spec_max_frame() as int;
            &&& a >= 0
            &&& a / mf / 60 / 60 < 256
            &&& a - dropped_labels(a / mf / 60, fr.spec_drop_frames()) == n
        }),
{
    let mf = fr.spec_max_frame() as int;
    let a = label_count(n, fr.spec_drop_frames());
    match fr.spec_drop_frames() {
        Some(k) => {
            let p = k * 8991;
            lemma_adjusted_forward(n, mf, k as int);
            lemma_count_limit(mf, Some(k));
            assert(count_limit(mf, Some(k)) == 1536 * p);
            assert(n / p < 1536) by (nonlinear_arith)
                requires
                    0 <= n < 1536 * p,
                    p > 0,
            {
                vstd::arithmetic::div_mod::lemma_fundamental_div_mod(n, p as int);
            }
        },
        None => {
            lemma_count_limit(mf, None);
            assert(a / mf < 921600) by (nonlinear_arith)
                requires
                    0 <= a < 921600 * mf,
                    mf > 0,
            {
                vstd::arithmetic::div_mod::lemma_fundamental_div_mod(a, mf);
            }
        },
    }
    assert(a / mf / 60 < 15360);
}

/// Every frame count below that of 256:00:00:00 is given back by the timecode made
/// from it, at each framerate whose drop-frame counting is exact (every non-drop rate,
/// and drop-frame rates up to 120 frames per second).
pub proof fn lemma_frames_round_trip<FR: Framerate>(n: int, fr: FR)
    requires
        valid_framerate(fr),
        exact_framerate(fr),
        0 <= n < count_limit(fr.spec_max_frame() as int, fr.spec_drop_frames()),
    ensures
        Timecode::<FR>::spec_from_count(n, fr).spec_frame_count() == n,
{
    let mf = fr.spec_max_frame() as int;
    let a = label_count(n, fr.spec_drop_frames());
    lemma_label_fields(n, fr);
    lemma_split(a, mf);
    let tc = Timecode::<FR>::spec_from_count(n, fr);
    assert(tc.spec_h() as int == a / mf / 60 / 60);
    assert(tc.spec_m() as int == (a / mf / 60) % 60);
    assert(tc.spec_s() as int == (a / mf) % 60);
    assert(tc.spec_f() as int == a % mf);
}

/// For every frame count of a 24-hour day, `to_frame_count(from_frames(n))` is `n`, at
/// each framerate whose drop-frame counting is exact.
pub proof fn lemma_day_round_trip<FR: Framerate>(n: int, fr: FR)
    requires
        valid_framerate(fr),
        exact_framerate(fr),
        0 <= n < 24 * 3600 * fr.spec_max_frame(),
    ensures
        Timecode::<FR>::spec_from_count(n, fr).spec_frame_count() == n,
{
    let mf = fr.spec_max_frame() as int;
    assert(n < 86400 * mf);
    match fr.spec_drop_frames() {
        Some(k) => {
            lemma_count_limit(mf, Some(k));
            let lim = count_limit(mf, Some(k));
            assert(lim == 921600 * mf - 13824 * k);
            assert(mf == 15 * k);
            assert(24 * 3600 * mf <= lim) by (nonlinear_arith)
                requires
                    lim == 921600 * mf - 13824 * k,
                    mf == 15 * k,
                    k >= 0,
            ;
            assert(n < count_limit(mf, fr.spec_drop_frames()));
        },
        None => {
            lemma_count_limit(mf, None);
            assert(86400 * mf <= 921600 * mf);
            assert(n < count_limit(mf, fr.spec_drop_frames()));
        },
    }
    lemma_frames_round_trip(n, fr);
}

/// The frame count of every timecode lies below that of 256:00:00:00.
proof fn lemma_count_below_limit<FR: Framerate>(h: u8, m: u8, s: u8, f: u32, fr: FR)
    requires
        timecode_fields_ok(m as int, s as int, f as int, fr),
        exact_framerate(fr),
    ensures
        0 <= Timecode::spec_parts(h, m, s, f, fr).spec_frame_count() < count_limit(
            fr.spec_max_frame() as int,
            fr.spec_drop_frames(),
        ),
{
    let mf = fr.spec_max_frame() as int;
    lemma_count_range(h as int, m as int, s as int, f as int, mf, fr.spec_drop_frames());
    match fr.spec_drop_frames() {
        Some(k) => {
            lemma_adjusted_backward(h as int, m as int, s as int, f as int, mf, k as int);
            let p = k * 8991;
            assert((h * 60 + m) / 10 + 1 <= 1536);
            assert(p * ((h * 60 + m) / 10 + 1) <= p * 1536) by (nonlinear_arith)
                requires
                    (h * 60 + m) / 10 + 1 <= 1536,
                    p > 0,
            ;
            lemma_count_limit(mf, Some(k));
            assert(count_limit(mf, Some(k)) == 1536 * p);
        },
        None => {},
    }
}

/// Every timecode is given back by the timecode made from its frame count, at each
/// framerate whose drop-frame counting is exact.
pub proof fn lemma_timecode_round_trip<FR: Framerate>(h: u8, m: u8, s: u8, f: u32, fr: FR)
    requires
        timecode_fields_ok(m as int, s as int, f as int, fr),
        exact_framerate(fr),
    ensures
        ({
            let tc = Timecode::spec_parts(h, m, s, f, fr);
            Timecode::<FR>::spec_from_count(tc.spec_frame_count(), fr) == tc
        }),
{
    let mf = fr.spec_max_frame() as int;
    let tc = Timecode::spec_parts(h, m, s, f, fr);
    let n = tc.spec_frame_count();
    let nom = nominal_count(h as int, m as int, s as int, f as int, mf);
    lemma_count_below_limit(h, m, s, f, fr);
    match fr.spec_drop_frames() {
        Some(k) => {
            lemma_adjusted_backward(h as int, m as int, s as int, f as int, mf, k as int);
        },
        None => {},
    }
    assert(label_count(n, fr.spec_drop_frames()) == nom);
    let secs = (h * 60 + m) * 60 + s;
    lemma_fundamental_div_mod_converse(nom, mf, secs, f as int);
    lemma_fundamental_div_mod_converse(secs, 60, h * 60 + m, s as int);
    lemma_fundamental_div_mod_converse(h * 60 + m, 60, h as int, m as int);
    assert((h as int) % 256 == h);
    let back = Timecode::<FR>::spec_from_count(n, fr);
    assert(back.spec_h() == h);
    assert(back.spec_m() == m);
    assert(back.spec_s() == s);
    assert(back.spec_f() == f);
}

/// Doubling the rate from 30000/1001 to 60000/1001 doubles a frame count exactly, and
/// halving it gives the count back.
proof fn lemma_scaled_double(c: int)
    requires
        0 <= c < 27620352,
    ensures
        scaled_count(c, 30000, 1001, 60000, 1001) == Some(2 * c),
        scaled_count(2 * c, 60000, 1001, 30000, 1001) == Some(c),
{
    assert(c * 60000 * 1001 == 30030000 * (2 * c)) by (nonlinear_arith);
    vstd::arithmetic::div_mod::lemma_div_multiples_vanish(2 * c, 30030000);
    assert(1001 * 30000 == 30030000int);
    assert((2 * c) * 30000 * 1001 == 60060000 * c) by (nonlinear_arith);
    vstd::arithmetic::div_mod::lemma_div_multiples_vanish(c, 60060000);
    assert(1001 * 60000 == 60060000int);
}

/// Converting a 29.97 drop-frame timecode to 59.94 drop-frame and back gives the same
/// timecode.
pub proof fn lemma_df_double_rate_round_trip<FR1: Framerate, FR2: Framerate>(
    h: u8,
    m: u8,
    s: u8,
    f: u32,
    fr30: FR1,
    fr60: FR2,
)
    requires
        fr30.spec_max_frame() == 30,
        fr30.spec_drop_frames() == Some(2u32),
        fr30.spec_fr_num() == 30000,
        fr30.spec_fr_denom() == 1001,
        fr60.spec_max_frame() == 60,
        fr60.spec_drop_frames() == Some(4u32),
        fr60.spec_fr_num() == 60000,
        fr60.spec_fr_denom() == 1001,
        fr60.spec_sep() == ';',
        timecode_fields_ok(m as int, s as int, f as int, fr30),
    ensures
        ({
            let tc = Timecode::spec_parts(h, m, s, f, fr30);
            let there = conversion(tc.spec_frame_count(), 30000, 1001, fr60);
            &&& there is Ok
            &&& conversion(there->Ok_0.spec_frame_count(), 60000, 1001, fr30) == Ok::<
                Timecode<FR1>,
                ConvertError,
            >(tc)
        }),
{
    let tc = Timecode::spec_parts(h, m, s, f, fr30);
    let c = tc.spec_frame_count();
    assert(exact_framerate(fr30));
    assert(exact_framerate(fr60));
    lemma_count_below_limit(h, m, s, f, fr30);
    lemma_count_limit(30, Some(2u32));
    lemma_count_limit(60, Some(4u32));
    lemma_scaled_double(c);
    lemma_frames_round_trip(2 * c, fr60);
    lemma_timecode_round_trip(h, m, s, f, fr30);
}

/// What reading the timecode text `timecode` at the framerate text `framerate` gives.
pub open spec fn timecode_from_texts(timecode: Seq<char>, framerate: Seq<char>) -> Result<
    Timecode<DynFramerate>,
    TimecodeValidationError,
> {
    match parse_timecode(timecode) {
        None => Err(TimecodeValidationError::Unparsed),
        Some(raw) => match framerate_from_text(framerate) {
            None => Err(TimecodeValidationError::InvalidFramerate(None)),
            Some(fr) => validated(raw, fr),
        },
    }
}

/// What reading `<timecode>@<framerate>` gives: the text is split at its first `@`.
pub open spec fn timecode_from_composite(s: Seq<char>) -> Result<
    Timecode<DynFramerate>,
    TimecodeValidationError,
> {
    let at = find_char(s, '@', 0);
    if at >= s.len() {
        Err(TimecodeValidationError::Unparsed)
    } else {
        timecode_from_texts(s.subrange(0, at), s.subrange(at + 1, s.len() as int))
    }
}

impl<FR: Framerate> Timecode<FR> {
    /// The canonical text `HH:MM:SS<sep>FF`, zero-padded, with the framerate's separator.
    pub fn to_string(&self) -> (r: String)
        ensures
            r@ == timecode_text(
                self.spec_h() as nat,
                self.spec_m() as nat,
                self.spec_s() as nat,
                self.spec_framerate().spec_sep(),
                self.spec_f() as nat,
            ),
    {
        proof {
            use_type_invariant(self);
        }
        format_timecode(self.h, self.m, self.s, self.framerate.to_sep(), self.f)
    }
}

impl<FR: ValidateableFramerate + ConstFramerate> Timecode<FR> {
    /// Reads a timecode from its text at the framerate of the type.
    pub fn from_text(s: &str) -> (r: Result<Self, TimecodeValidationError>)
        ensures
            r == match parse_timecode(s@) {
                None => Err(TimecodeValidationError::Unparsed),
                Some(raw) => validated(raw, FR::spec_new()),
            },
    {
        match unvalidated(s) {
            None => Err(TimecodeValidationError::Unparsed),
            Some(tc) => tc.validate(),
        }
    }
}

impl<FR: ValidateableFramerate + ConstFramerate> std::str::FromStr for Timecode<FR> {
    type Err = TimecodeValidationError;

    fn from_str(s: &str) -> (r: Result<Self, Self::Err>)
        ensures
            r == match parse_timecode(s@) {
                None => Err(TimecodeValidationError::Unparsed),
                Some(raw) => validated(raw, FR::spec_new()),
            },
    {
        Timecode::from_text(s)
    }
}

impl Timecode<DynFramerate> {
    ///Construct a `Timecode<DynFramerate>` with timecode and famerate as string inputs
    pub fn new_with_fr(timecode: &str, framerate: &str) -> (r: Result<Self, TimecodeValidationError>)
        ensures
            r == timecode_from_texts(timecode@, framerate@),
    {
        let tc = match unvalidated(timecode) {
            Some(tc) => tc,
            None => {
                return Err(TimecodeValidationError::Unparsed);
            },
        };
        let d = match parse_framerate(framerate) {
            Ok(d) => d,
            Err(_) => {
                return Err(TimecodeValidationError::InvalidFramerate(None));
            },
        };
        tc.validate_with_fr(&d)
    }

    /// Reads `<timecode>@<framerate>`, such as `"01:02:15;23@29.97"`.
    pub fn from_composite_text(s: &str) -> (r: Result<Self, TimecodeValidationError>)
        ensures
            r == timecode_from_composite(s@),
    {
        let len = s.unicode_len();
        let mut at: usize = 0;
        while at < len && s.get_char(at) != '@'
            invariant
                at <= len,
                len == s@.len(),
                find_char(s@, '@', 0) == find_char(s@, '@', at as int),
            decreases len - at,
        {
            at = at + 1;
        }
        if at == len {
            return Err(TimecodeValidationError::Unparsed);
        }
        proof {
            assert(find_char(s@, '@', at as int) == at);
        }
        Timecode::new_with_fr(s.substring_char(0, at), s.substring_char(at + 1, len))
    }
}

impl std::str::FromStr for Timecode<DynFramerate> {
    type Err = TimecodeValidationError;

    fn from_str(s: &str) -> (r: Result<Self, Self::Err>)
        ensures
            r == timecode_from_composite(s@),
    {
        Timecode::from_composite_text(s)
    }
}

/// The fields h:m:s:f and the rate of `a` and `b` are the same.
pub open spec fn same_timecode<FR1: Framerate, FR2: Framerate>(a: Timecode<FR1>, b: Timecode<FR2>) -> bool {
    &&& a.spec_h() == b.spec_h()
    &&& a.spec_m() == b.spec_m()
    &&& a.spec_s() == b.spec_s()
    &&& a.spec_f() == b.spec_f()
    &&& a.spec_framerate().spec_sep() == b.spec_framerate().spec_sep()
    &&& a.spec_framerate().spec_max_frame() == b.spec_framerate().spec_max_frame()
    &&& a.spec_framerate().spec_drop_frames() == b.spec_framerate().spec_drop_frames()
    &&& a.spec_framerate().spec_fr_num() == b.spec_framerate().spec_fr_num()
    &&& a.spec_framerate().spec_fr_denom() == b.spec_framerate().spec_fr_denom()
}

impl<FR1: Framerate + ConstFramerate> PartialEq<Timecode<FR1>> for Timecode<DynFramerate> {
    fn eq(&self, other: &Timecode<FR1>) -> (r: bool) {
        let a = self.framerate;
        let b = other.framerate;
        self.h == other.h && self.m == other.m && self.s == other.s && self.f == other.f
            && a.to_sep() == b.to_sep() && a.max_frame() == b.max_frame() && a.drop_frames()
            == b.drop_frames() && a.fr_num() == b.fr_num() && a.fr_denom() == b.fr_denom()
    }
}

impl<FR1: Framerate + ConstFramerate> vstd::std_specs::cmp::PartialEqSpecImpl<Timecode<FR1>> for Timecode<DynFramerate> {
    open spec fn obeys_eq_spec() -> bool {
        true
    }

    open spec fn eq_spec(&self, other: &Timecode<FR1>) -> bool {
        same_timecode(*self, *other)
    }
}

/// Frames at the start of each ten-minute block plus the drop-frame correction:
/// `frame_count` plus the labels skipped before it.
pub fn adjust_frame_count(drop_frames: u32, frame_count: u64) -> (r: u64)
    requires
        0 < drop_frames <= 310,
        frame_count < 0x2_0000_0000,
    ensures
        r == adjusted_count(drop_frames as int, frame_count as int),
{
    let k = drop_frames as u64;
    let frames_per_10_mins = k * (17982 / 2);
    let (d, m0) = div_rem(frame_count, frames_per_10_mins);
    let mut m = m0;
    if m < k {
        m = m + k;
    }
    assert(9 * k * d <= frame_count) by (nonlinear_arith)
        requires
            d * frames_per_10_mins <= frame_count,
            frames_per_10_mins == k * 8991,
            d >= 0,
    {
        assert(frames_per_10_mins * d == d * frames_per_10_mins);
    }
    let q = (m - k) / (frames_per_10_mins / 10);
    assert(q <= m && m < frames_per_10_mins + k);
    assert(k * q <= 310 * (2787210 + 310)) by (nonlinear_arith)
        requires
            0 < k <= 310,
            0 <= q <= m,
            m < frames_per_10_mins + k,
            frames_per_10_mins == k * 8991,
    ;
    frame_count + 9 * k * d + k * q
}

//simple function to give division with remainder.
pub fn div_rem(a: u64, b: u64) -> (r: (u64, u64))
    requires
        b != 0,
    ensures
        r.0 == a / b,
        r.1 == a % b,
        r.0 * b <= a,
{
    assert((a / b) * b <= a) by (nonlinear_arith)
        requires
            b > 0,
    {
        vstd::arithmetic::div_mod::lemma_fundamental_div_mod(a as int, b as int);
    }
    (a / b, a % b)
}

///Error returned when adding two incompatable [`DynFramerate`] timecodes
#[derive(Debug, Clone, Copy, PartialEq, Eq)]
pub struct FramerateMismatch;

/// At an exact rate the label of every frame is one that drop-frame counting uses.
proof fn lemma_from_count_is_label<FR: Framerate>(n: int, fr: FR)
    requires
        valid_framerate(fr),
        exact_framerate(fr),
        n >= 0,
    ensures
        ({
            let tc = Timecode::<FR>::spec_from_count(n, fr);
            !in_dropped_window(
                tc.spec_m() as int,
                tc.spec_s() as int,
                tc.spec_f() as int,
                fr.spec_drop_frames(),
            )
        }),
{
    let mf = fr.spec_max_frame() as int;
    match fr.spec_drop_frames() {
        Some(k) => {
            lemma_adjusted_forward(n, mf, k as int);
            let a = adjusted_count(k as int, n);
            lemma_split(a, mf);
            let minutes = a / mf / 60;
            let m = minutes % 60;
            assert(m % 10 == minutes % 10) by {
                vstd::arithmetic::div_mod::lemma_mod_mod(minutes, 10, 6);
            }
            if m % 10 != 0 && (a / mf) % 60 == 0 {
                assert(((a / mf) % 60) * mf == 0) by (nonlinear_arith)
                    requires
                        (a / mf) % 60 == 0,
                ;
                assert(a - minutes * (60 * mf) == a % mf);
            }
        },
        None => {},
    }
}

} // verus!
