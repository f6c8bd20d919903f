//! Framerate descriptors: fixed at compile time (`DF<N>`, `NDF<N>`) or carried at
//! run time (`DFDyn`, `NDFDyn`, `DynFramerate`), all behind the `Framerate` trait.
use vstd::prelude::*;

verus! {

use crate::FrameCount;

pub type DF2997 = DF<30>;

pub type DF5994 = DF<60>;

pub type NDF30 = NDF<30>;

pub type NDF25 = NDF<25>;

pub type NDF50 = NDF<50>;

pub type NDF2398 = NDF<24>;

/// The largest frames-per-second count that a framerate may carry. At this rate the
/// frame count of every timecode up to hour 255 still fits in a `FrameCount`.
pub const MAX_FRAME_RATE: u32 = 4660;

/// What a framerate describes: the frame separator used when a timecode is written,
/// the exclusive bound of the frames field, the frame labels skipped at the start of
/// each non-exempt minute (drop-frame only) and the exact rate as a fraction.
pub trait Framerate: Sized + Copy {
    spec fn spec_sep(&self) -> char;

    spec fn spec_max_frame(&self) -> u32;

    spec fn spec_drop_frames(&self) -> Option<u32>;

    spec fn spec_fr_num(&self) -> u64;

    spec fn spec_fr_denom(&self) -> u64;

    fn to_sep(&self) -> (r: char)
        ensures
            r == self.spec_sep(),
    ;

    fn max_frame(&self) -> (r: FrameCount)
        ensures
            r == self.spec_max_frame(),
    ;

    fn drop_frames(&self) -> (r: Option<FrameCount>)
        ensures
            r == self.spec_drop_frames(),
    ;

    fn fr_num(&self) -> (r: u64)
        ensures
            r == self.spec_fr_num(),
    ;

    fn fr_denom(&self) -> (r: u64)
        ensures
            r == self.spec_fr_denom(),
    ;

    fn is_dropframe(&self) -> (r: bool)
        ensures
            r == self.spec_drop_frames().is_some(),
    {
        self.drop_frames().is_some()
    }
}

/// A framerate whose value is fixed by its type.
pub trait ConstFramerate: Framerate {
    spec fn spec_new() -> Self;

    /// The framerate of the type, which must be one that timecodes can be built on
    /// (for `DF<N>`, `N` a multiple of 30): a caller naming any other fails to verify.
    fn new() -> (r: Self)
        requires
            valid_framerate(Self::spec_new()),
        ensures
            r == Self::spec_new(),
    ;

    /// The framerate of the type where timecodes can be built on it; otherwise its
    /// frames count, as an error.
    fn new_checked() -> (r: Result<Self, FrameCount>)
        ensures
            r is Ok <==> valid_framerate(Self::spec_new()),
            r matches Ok(fr) ==> fr == Self::spec_new(),
            r matches Err(n) ==> n == Self::spec_new().spec_max_frame(),
    ;
}

/// A framerate that timecodes can be built on: a frames bound in `1..=MAX_FRAME_RATE`,
/// a positive fraction, the separator that matches its kind, and for drop-frame a
/// bound that is a multiple of 30 with `max_frame / 15` labels skipped per minute.
pub open spec fn valid_framerate<FR: Framerate>(fr: FR) -> bool {
    let mf = fr.spec_max_frame();
    &&& 0 < mf <= MAX_FRAME_RATE
    &&& fr.spec_fr_num() > 0
    &&& fr.spec_fr_denom() > 0
    &&& match fr.spec_drop_frames() {
        Some(k) => mf % 30 == 0 && k == mf / 15 && fr.spec_sep() == ';',
        None => fr.spec_sep() == ':',
    }
}

/// Two framerates describe the same rate.
pub open spec fn same_framerate<FR: Framerate>(a: FR, b: FR) -> bool {
    &&& a.spec_sep() == b.spec_sep()
    &&& a.spec_max_frame() == b.spec_max_frame()
    &&& a.spec_drop_frames() == b.spec_drop_frames()
    &&& a.spec_fr_num() == b.spec_fr_num()
    &&& a.spec_fr_denom() == b.spec_fr_denom()
}

/// Whether timecodes can be built on `fr`.
pub fn framerate_is_valid<FR: Framerate>(fr: &FR) -> (r: bool)
    ensures
        r == valid_framerate(*fr),
{
    let mf = fr.max_frame();
    if mf == 0 || mf > MAX_FRAME_RATE || fr.fr_num() == 0 || fr.fr_denom() == 0 {
        return false;
    }
    match fr.drop_frames() {
        Some(k) => mf % 30 == 0 && k == mf / 15 && fr.to_sep() == ';',
        None => fr.to_sep() == ':',
    }
}

/// Whether `a` and `b` describe the same rate.
pub fn framerates_match<FR: Framerate>(a: &FR, b: &FR) -> (r: bool)
    ensures
        r == same_framerate(*a, *b),
{
    a.to_sep() == b.to_sep() && a.max_frame() == b.max_frame() && a.drop_frames()
        == b.drop_frames() && a.fr_num() == b.fr_num() && a.fr_denom() == b.fr_denom()
}

/// Drop-frame rates exist only for multiples of 30 frames per second.
pub fn is_valid_df_count(frames: FrameCount) -> (r: bool)
    ensures
        r == (frames % 30 == 0),
{
    frames % 30 == 0
}

///Dropframe timecode, with framerate stored at runtime. Must be multiple of 30.
#[derive(Clone, Copy, Debug, Eq, PartialEq)]
pub struct DFDyn(FrameCount);

///Non-drop timecode, with framerate stored at runtime.
#[derive(Clone, Copy, Debug, Eq, PartialEq)]
pub struct NDFDyn(FrameCount);

impl DFDyn {
    pub closed spec fn frames(self) -> FrameCount {
        self.0
    }

    pub fn new(fc: FrameCount) -> (r: Option<Self>)
        ensures
            r is Some <==> fc % 30 == 0,
            r matches Some(d) ==> d.frames() == fc,
    {
        if is_valid_df_count(fc) {
            Some(DFDyn(fc))
        } else {
            None
        }
    }
}

impl NDFDyn {
    pub closed spec fn frames(self) -> FrameCount {
        self.0
    }

    pub fn new(fc: FrameCount) -> (r: Self)
        ensures
            r.frames() == fc,
    {
        NDFDyn(fc)
    }
}

impl Framerate for DFDyn {
    open spec fn spec_sep(&self) -> char {
        ';'
    }

    open spec fn spec_max_frame(&self) -> u32 {
        self.frames()
    }

    open spec fn spec_drop_frames(&self) -> Option<u32> {
        Some((self.frames() / 15) as u32)
    }

    open spec fn spec_fr_num(&self) -> u64 {
        (self.frames() * 1000) as u64
    }

    open spec fn spec_fr_denom(&self) -> u64 {
        1001
    }

    fn to_sep(&self) -> (r: char) {
        ';'
    }

    fn max_frame(&self) -> (r: FrameCount) {
        self.0
    }

    fn drop_frames(&self) -> (r: Option<FrameCount>) {
        Some(self.0 / 15)  //30 = 2, 60 = 4, etc

    }

    fn fr_num(&self) -> (r: u64) {
        (self.0 as u64) * 1000
    }

    fn fr_denom(&self) -> (r: u64) {
        1001
    }
}

impl Framerate for NDFDyn {
    open spec fn spec_sep(&self) -> char {
        ':'
    }

    open spec fn spec_max_frame(&self) -> u32 {
        self.frames()
    }

    open spec fn spec_drop_frames(&self) -> Option<u32> {
        None
    }

    open spec fn spec_fr_num(&self) -> u64 {
        self.frames() as u64
    }

    open spec fn spec_fr_denom(&self) -> u64 {
        1
    }

    fn to_sep(&self) -> (r: char) {
        ':'
    }

    fn max_frame(&self) -> (r: FrameCount) {
        self.0
    }

    fn drop_frames(&self) -> (r: Option<FrameCount>) {
        None
    }

    fn fr_num(&self) -> (r: u64) {
        self.0 as u64
    }

    fn fr_denom(&self) -> (r: u64) {
        1
    }
}

///Dropframe timecode, with framerate stored at compile-time. Must be multiple of 30.
#[derive(Clone, Copy, Debug, Eq, PartialEq)]
pub struct DF<const FRAMES: u32>;

///Non-drop timecode, with framerate stored at compile-time.
#[derive(Clone, Copy, Debug, Eq, PartialEq)]
pub struct NDF<const FRAMES: u32>;

impl<const FRAMES: u32> ConstFramerate for NDF<FRAMES> {
    open spec fn spec_new() -> Self {
        NDF
    }

    fn new() -> (r: Self) {
        NDF
    }

    fn new_checked() -> (r: Result<Self, FrameCount>) {
        let fr: Self = NDF;
        if framerate_is_valid(&fr) {
            Ok(fr)
        } else {
            Err(FRAMES)
        }
    }
}

impl<const FRAMES: u32> ConstFramerate for DF<FRAMES> {
    open spec fn spec_new() -> Self {
        DF
    }

    fn new() -> (r: Self) {
        DF
    }

    /// A `DF` whose count is not a multiple of 30 can be named, but no timecode can be
    /// built on it: here it is reported as an error.
    fn new_checked() -> (r: Result<Self, FrameCount>) {
        let fr: Self = DF;
        if framerate_is_valid(&fr) {
            Ok(fr)
        } else {
            Err(FRAMES)
        }
    }
}

impl<const FRAMES: u32> TryFrom<DFDyn> for DF<FRAMES> {
    type Error = ();

    fn try_from(value: DFDyn) -> (r: Result<Self, Self::Error>) {
        if value.0 == FRAMES {
            Ok(DF)
        } else {
            Err(())
        }
    }
}

impl<const FRAMES: u32> TryFrom<NDFDyn> for NDF<FRAMES> {
    type Error = ();

    fn try_from(value: NDFDyn) -> (r: Result<Self, Self::Error>) {
        if value.0 == FRAMES {
            Ok(NDF)
        } else {
            Err(())
        }
    }
}

impl<const FRAMES: u32> NDF<FRAMES> {
    pub fn as_dyn(&self) -> (r: NDFDyn)
        ensures
            r.frames() == FRAMES,
    {
        NDFDyn(FRAMES)
    }
}

impl<const FRAMES: u32> DF<FRAMES> {
    pub fn as_dyn(&self) -> (r: DFDyn)
        ensures
            r.frames() == FRAMES,
    {
        DFDyn(FRAMES)
    }
}

impl<const FRAMES: u32> Framerate for NDF<FRAMES> {
    open spec fn spec_sep(&self) -> char {
        ':'
    }

    open spec fn spec_max_frame(&self) -> u32 {
        FRAMES
    }

    open spec fn spec_drop_frames(&self) -> Option<u32> {
        None
    }

    open spec fn spec_fr_num(&self) -> u64 {
        FRAMES as u64
    }

    open spec fn spec_fr_denom(&self) -> u64 {
        1
    }

    fn to_sep(&self) -> (r: char) {
        self.as_dyn().to_sep()
    }

    fn max_frame(&self) -> (r: FrameCount) {
        self.as_dyn().max_frame()
    }

    fn drop_frames(&self) -> (r: Option<FrameCount>) {
        self.as_dyn().drop_frames()
    }

    fn fr_num(&self) -> (r: u64) {
        self.as_dyn().fr_num()
    }

    fn fr_denom(&self) -> (r: u64) {
        self.as_dyn().fr_denom()
    }
}

impl<const FRAMES: u32> Framerate for DF<FRAMES> {
    open spec fn spec_sep(&self) -> char {
        ';'
    }

    open spec fn spec_max_frame(&self) -> u32 {
        FRAMES
    }

    open spec fn spec_drop_frames(&self) -> Option<u32> {
        Some((FRAMES / 15) as u32)
    }

    open spec fn spec_fr_num(&self) -> u64 {
        (FRAMES * 1000) as u64
    }

    open spec fn spec_fr_denom(&self) -> u64 {
        1001
    }

    fn to_sep(&self) -> (r: char) {
        self.as_dyn().to_sep()
    }

    fn max_frame(&self) -> (r: FrameCount) {
        self.as_dyn().max_frame()
    }

    fn drop_frames(&self) -> (r: Option<FrameCount>) {
        self.as_dyn().drop_frames()
    }

    fn fr_num(&self) -> (r: u64) {
        self.as_dyn().fr_num()
    }

    fn fr_denom(&self) -> (r: u64) {
        self.as_dyn().fr_denom()
    }
}

impl<'a> TryFrom<&'a DynFramerate> for NDFDyn {
    type Error = ();

    fn try_from(value: &'a DynFramerate) -> (r: Result<Self, Self::Error>)
        ensures
            r is Ok <==> *value is NDF,
            r matches Ok(d) ==> DynFramerate::NDF(d.frames()) == *value,
    {
        if let DynFramerate::NDF(n) = *value {
            return Ok(NDFDyn(n));
        }
        Err(())
    }
}

impl<'a> TryFrom<&'a DynFramerate> for DFDyn {
    type Error = ();

    fn try_from(value: &'a DynFramerate) -> (r: Result<Self, Self::Error>)
        ensures
            r is Ok <==> *value is DF,
            r matches Ok(d) ==> DynFramerate::DF(d.frames()) == *value,
    {
        if let DynFramerate::DF(n) = *value {
            return Ok(DFDyn(n));
        }
        Err(())
    }
}

impl<'a, const FRAMES: u32> TryFrom<&'a DynFramerate> for NDF<FRAMES> {
    type Error = ();

    fn try_from(value: &'a DynFramerate) -> (r: Result<Self, Self::Error>) {
        if let DynFramerate::NDF(n) = *value {
            if n == FRAMES {
                return Ok(NDF);
            }
        }
        Err(())
    }
}

impl<'a, const FRAMES: u32> TryFrom<&'a DynFramerate> for DF<FRAMES> {
    type Error = ();

    fn try_from(value: &'a DynFramerate) -> (r: Result<Self, Self::Error>) {
        if let DynFramerate::DF(n) = *value {
            if n == FRAMES {
                return Ok(DF);
            }
        }
        Err(())
    }
}

impl<const FRAMES: u32> vstd::std_specs::convert::TryFromSpecImpl<DFDyn> for DF<FRAMES> {
    open spec fn obeys_try_from_spec() -> bool {
        true
    }

    open spec fn try_from_spec(v: DFDyn) -> Result<Self, ()> {
        if v.frames() == FRAMES {
            Ok(DF)
        } else {
            Err(())
        }
    }
}

impl<const FRAMES: u32> vstd::std_specs::convert::TryFromSpecImpl<NDFDyn> for NDF<FRAMES> {
    open spec fn obeys_try_from_spec() -> bool {
        true
    }

    open spec fn try_from_spec(v: NDFDyn) -> Result<Self, ()> {
        if v.frames() == FRAMES {
            Ok(NDF)
        } else {
            Err(())
        }
    }
}

impl<'a> vstd::std_specs::convert::TryFromSpecImpl<&'a DynFramerate> for NDFDyn {
    open spec fn obeys_try_from_spec() -> bool {
        true
    }

    closed spec fn try_from_spec(v: &'a DynFramerate) -> Result<Self, ()> {
        match *v {
            DynFramerate::NDF(n) => Ok(NDFDyn(n)),
            DynFramerate::DF(_) => Err(()),
        }
    }
}

impl<'a> vstd::std_specs::convert::TryFromSpecImpl<&'a DynFramerate> for DFDyn {
    open spec fn obeys_try_from_spec() -> bool {
        true
    }

    closed spec fn try_from_spec(v: &'a DynFramerate) -> Result<Self, ()> {
        match *v {
            DynFramerate::DF(n) => Ok(DFDyn(n)),
            DynFramerate::NDF(_) => Err(()),
        }
    }
}

impl<'a, const FRAMES: u32> vstd::std_specs::convert::TryFromSpecImpl<&'a DynFramerate> for NDF<FRAMES> {
    open spec fn obeys_try_from_spec() -> bool {
        true
    }

    open spec fn try_from_spec(v: &'a DynFramerate) -> Result<Self, ()> {
        if *v == DynFramerate::NDF(FRAMES) {
            Ok(NDF)
        } else {
            Err(())
        }
    }
}

impl<'a, const FRAMES: u32> vstd::std_specs::convert::TryFromSpecImpl<&'a DynFramerate> for DF<FRAMES> {
    open spec fn obeys_try_from_spec() -> bool {
        true
    }

    open spec fn try_from_spec(v: &'a DynFramerate) -> Result<Self, ()> {
        if *v == DynFramerate::DF(FRAMES) {
            Ok(DF)
        } else {
            Err(())
        }
    }
}

/// A framerate chosen at run time: drop-frame or non-drop at a frames-per-second count.
#[derive(Clone, Copy, Debug, Eq, PartialEq)]
pub enum DynFramerate {
    DF(FrameCount),
    NDF(FrameCount),
}

impl DynFramerate {
    pub fn new_ndf(frames: FrameCount) -> (r: Self)
        ensures
            r == DynFramerate::NDF(frames),
    {
        DynFramerate::NDF(frames)
    }

    pub fn new_df(frames: FrameCount) -> (r: Self)
        ensures
            r == DynFramerate::DF(frames),
    {
        DynFramerate::DF(frames)
    }
}

impl Framerate for DynFramerate {
    open spec fn spec_sep(&self) -> char {
        match self {
            DynFramerate::DF(_) => ';',
            DynFramerate::NDF(_) => ':',
        }
    }

    open spec fn spec_max_frame(&self) -> u32 {
        match self {
            DynFramerate::DF(n) => *n,
            DynFramerate::NDF(n) => *n,
        }
    }

    open spec fn spec_drop_frames(&self) -> Option<u32> {
        match self {
            DynFramerate::DF(n) => Some((*n / 15) as u32),
            DynFramerate::NDF(_) => None,
        }
    }

    open spec fn spec_fr_num(&self) -> u64 {
        match self {
            DynFramerate::DF(n) => (*n * 1000) as u64,
            DynFramerate::NDF(n) => *n as u64,
        }
    }

    open spec fn spec_fr_denom(&self) -> u64 {
        match self {
            DynFramerate::DF(_) => 1001,
            DynFramerate::NDF(_) => 1,
        }
    }

    fn to_sep(&self) -> (r: char) {
        match self {
            DynFramerate::DF(n) => DFDyn(*n).to_sep(),
            DynFramerate::NDF(n) => NDFDyn(*n).to_sep(),
        }
    }

    fn max_frame(&self) -> (r: FrameCount) {
        match self {
            DynFramerate::DF(n) => DFDyn(*n).max_frame(),
            DynFramerate::NDF(n) => NDFDyn(*n).max_frame(),
        }
    }

    fn drop_frames(&self) -> (r: Option<FrameCount>) {
        match self {
            DynFramerate::DF(n) => DFDyn(*n).drop_frames(),
            DynFramerate::NDF(n) => NDFDyn(*n).drop_frames(),
        }
    }

    fn fr_num(&self) -> (r: u64) {
        match self {
            DynFramerate::DF(n) => DFDyn(*n).fr_num(),
            DynFramerate::NDF(n) => NDFDyn(*n).fr_num(),
        }
    }

    fn fr_denom(&self) -> (r: u64) {
        match self {
            DynFramerate::DF(n) => DFDyn(*n).fr_denom(),
            DynFramerate::NDF(n) => NDFDyn(*n).fr_denom(),
        }
    }
}

} // verus!

verus! {

use vstd::string::StrSliceExecFns;
use crate::parser::{all_digits, digits_value, from_dec, lemma_pow10_mono, pow10};

/// The first position at or after `i` where `s` holds `c`, or `s.len()`.
pub open spec fn find_char(s: Seq<char>, c: char, i: int) -> int
    decreases s.len() - i,
{
    if i < 0 || i >= s.len() {
        s.len() as int
    } else if s[i] == c {
        i
    } else {
        find_char(s, c, i + 1)
    }
}

/// The decimal `s` as a fraction `(numerator, denominator)`: one or more digits
/// writing at most 1_000_000, then optionally a point and one to eighteen digits.
pub open spec fn decimal_of(s: Seq<char>) -> Option<(int, int)> {
    let dot = find_char(s, '.', 0);
    let a = s.subrange(0, dot);
    let b = if dot < s.len() {
        s.subrange(dot + 1, s.len() as int)
    } else {
        Seq::<char>::empty()
    };
    if a.len() >= 1 && all_digits(a) && digits_value(a) <= 1_000_000 && (dot == s.len() || (1
        <= b.len() <= 18 && all_digits(b))) {
        Some(((digits_value(a) * pow10(b.len()) + digits_value(b)) as int, pow10(b.len()) as int))
    } else {
        None
    }
}

pub open spec fn abs_diff(a: int, b: int) -> int {
    if a >= b {
        a - b
    } else {
        b - a
    }
}

/// How the rate `n / d` is read, as (drop-frame, frames per second), each comparison
/// within 0.01: a whole number is that non-drop rate; 29.97, 23.98 and 59.97 are
/// drop-frame 30, non-drop 24 and drop-frame 60; a whole multiple `r` of 29.97 is
/// drop-frame `30 * r`.
pub open spec fn rate_of_decimal(n: int, d: int) -> Option<(bool, int)> {
    let w = (2 * n + d) / (2 * d);
    let r = (200 * n + 2997 * d) / (5994 * d);
    if abs_diff(n, w * d) * 100 <= d {
        Some((false, w))
    } else if abs_diff(100 * n, 2997 * d) <= d {
        Some((true, 30))
    } else if abs_diff(100 * n, 2398 * d) <= d {
        Some((false, 24))
    } else if abs_diff(100 * n, 5997 * d) <= d {
        Some((true, 60))
    } else if abs_diff(100 * n, r * 2997 * d) * 100 <= 2997 * d {
        Some((true, 30 * r))
    } else {
        None
    }
}

/// The framerate that the text `s` names, where it names one that timecodes can be
/// built on.
pub open spec fn framerate_from_text(s: Seq<char>) -> Option<DynFramerate> {
    match decimal_of(s) {
        Some((n, d)) => match rate_of_decimal(n, d) {
            Some((df, frames)) => if 0 < frames <= MAX_FRAME_RATE {
                if df {
                    Some(DynFramerate::DF(frames as u32))
                } else {
                    Some(DynFramerate::NDF(frames as u32))
                }
            } else {
                None
            },
            None => None,
        },
        None => None,
    }
}

fn abs_diff_u128(a: u128, b: u128) -> (r: u128)
    ensures
        r == abs_diff(a as int, b as int),
{
    if a >= b {
        a - b
    } else {
        b - a
    }
}

fn pow10_u128(n: usize) -> (r: u128)
    requires
        n <= 18,
    ensures
        r == pow10(n as nat),
{
    let mut r: u128 = 1;
    let mut i: usize = 0;
    while i < n
        invariant
            i <= n <= 18,
            r == pow10(i as nat),
        decreases n - i,
    {
        proof {
            reveal_with_fuel(pow10, 19);
            lemma_pow10_mono(i as nat, 18);
        }
        r = r * 10;
        i = i + 1;
    }
    r
}

/// Reads a framerate from text such as `"25"`, `"29.97"` or `"23.976"`.
pub fn parse_framerate(s: &str) -> (r: Result<DynFramerate, &'static str>)
    ensures
        framerate_from_text(s@) matches Some(fr) ==> r == Ok::<DynFramerate, &'static str>(fr),
        framerate_from_text(s@) is None ==> r is Err,
        r matches Ok(fr) ==> valid_framerate(fr),
{
    let len = s.unicode_len();
    let mut dot: usize = 0;
    while dot < len && s.get_char(dot) != '.'
        invariant
            dot <= len,
            len == s@.len(),
            find_char(s@, '.', 0) == find_char(s@, '.', dot as int),
        decreases len - dot,
    {
        dot = dot + 1;
    }
    proof {
        if dot < len {
            assert(find_char(s@, '.', dot as int) == dot);
        }
    }
    let whole = match from_dec(s.substring_char(0, dot)) {
        Some(v) => v,
        None => {
            return Err("No known framerate");
        },
    };
    if whole > 1_000_000 {
        return Err("No known framerate");
    }
    let mut frac: u64 = 0;
    let mut frac_len: usize = 0;
    if dot < len {
        frac_len = len - dot - 1;
        if frac_len == 0 || frac_len > 18 {
            return Err("No known framerate");
        }
        frac = match from_dec(s.substring_char(dot + 1, len)) {
            Some(v) => v,
            None => {
                proof {
                    let b = s@.subrange(dot + 1, len as int);
                    if all_digits(b) {
                        lemma_digits_below_pow10(b);
                        lemma_pow10_mono(frac_len as nat, 18);
                        reveal_with_fuel(pow10, 19);
                    }
                }
                return Err("No known framerate");
            },
        };
    }
    proof {
        if dot == len {
            assert(digits_value(Seq::<char>::empty()) == 0);
        }
        lemma_pow10_mono(frac_len as nat, 18);
        reveal_with_fuel(pow10, 19);
    }
    let d = pow10_u128(frac_len);
    assert(whole * d <= 1_000_000 * 1_000_000_000_000_000_000) by (nonlinear_arith)
        requires
            whole <= 1_000_000,
            d <= 1_000_000_000_000_000_000,
    ;
    proof {
        if dot < len {
            assert(frac < pow10(frac_len as nat)) by {
                lemma_digits_below_pow10(s@.subrange(dot + 1, len as int));
            }
        } else {
            reveal_with_fuel(pow10, 1);
        }
    }
    assert(whole * d + frac < 1_000_001 * d) by (nonlinear_arith)
        requires
            whole <= 1_000_000,
            frac < d,
    ;
    let n: u128 = whole as u128 * d + frac as u128;
    let candidate = match rate_of_decimal_exec(n, d) {
        Some(c) => c,
        None => {
            return Err("No known framerate");
        },
    };
    let (df, frames) = candidate;
    if frames == 0 || frames > MAX_FRAME_RATE as u128 {
        return Err("No known framerate");
    }
    if df {
        Ok(DynFramerate::DF(frames as u32))
    } else {
        Ok(DynFramerate::NDF(frames as u32))
    }
}

/// The number written by `len` digits is below `10^len`.
proof fn lemma_digits_below_pow10(s: Seq<char>)
    requires
        all_digits(s),
    ensures
        digits_value(s) < pow10(s.len()),
    decreases s.len(),
{
    if s.len() > 0 {
        let t = s.drop_last();
        assert(all_digits(t)) by {
            assert forall|i: int| 0 <= i < t.len() implies crate::parser::is_digit(#[trigger] t[i]) by {
                assert(t[i] == s[i]);
            }
        }
        lemma_digits_below_pow10(t);
        assert(crate::parser::is_digit(s[s.len() - 1]));
    }
}

fn rate_of_decimal_exec(n: u128, d: u128) -> (r: Option<(bool, u128)>)
    requires
        1 <= d <= 1_000_000_000_000_000_000,
        n < 1_000_001 * d,
    ensures
        r matches Some((df, frames)) ==> rate_of_decimal(n as int, d as int) == Some(
            (df, frames as int),
        ),
        r is None ==> rate_of_decimal(n as int, d as int) is None,
{
    assert(2 * n + d <= 2_000_003 * d) by (nonlinear_arith)
        requires
            n < 1_000_001 * d,
    ;
    let w = (2 * n + d) / (2 * d);
    assert(w * d <= 2 * n + d) by (nonlinear_arith)
        requires
            w == (2 * n + d) / (2 * d),
            d >= 1,
    {
        vstd::arithmetic::div_mod::lemma_fundamental_div_mod((2 * n + d) as int, (2 * d) as int);
    }
    assert(200 * n + 2997 * d <= 200_003_197 * d) by (nonlinear_arith)
        requires
            n < 1_000_001 * d,
    ;
    let r = (200 * n + 2997 * d) / (5994 * d);
    assert(r * 5994 * d <= 200 * n + 2997 * d) by (nonlinear_arith)
        requires
            r == (200 * n + 2997 * d) / (5994 * d),
            d >= 1,
    {
        vstd::arithmetic::div_mod::lemma_fundamental_div_mod(
            (200 * n + 2997 * d) as int,
            (5994 * d) as int,
        );
    }
    assert(r <= 40000) by (nonlinear_arith)
        requires
            r * 5994 * d <= 200_003_197 * d,
            d >= 1,
    ;
    assert(r * 2997 * d <= 40000 * 2997 * 1_000_000_000_000_000_000) by (nonlinear_arith)
        requires
            r <= 40000,
            d <= 1_000_000_000_000_000_000,
    ;
    if abs_diff_u128(n, w * d) * 100 <= d {
        Some((false, w))
    } else if abs_diff_u128(100 * n, 2997 * d) <= d {
        Some((true, 30))
    } else if abs_diff_u128(100 * n, 2398 * d) <= d {
        Some((false, 24))
    } else if abs_diff_u128(100 * n, 5997 * d) <= d {
        Some((true, 60))
    } else if abs_diff_u128(100 * n, r * 2997 * d) * 100 <= 2997 * d {
        Some((true, 30 * r))
    } else {
        None
    }
}

impl std::str::FromStr for DynFramerate {
    type Err = &'static str;

    fn from_str(s: &str) -> (r: Result<Self, Self::Err>)
        ensures
            framerate_from_text(s@) matches Some(fr) ==> r == Ok::<DynFramerate, &'static str>(
                fr,
            ),
            framerate_from_text(s@) is None ==> r is Err,
            r matches Ok(fr) ==> valid_framerate(fr),
    {
        parse_framerate(s)
    }
}

} // verus!
