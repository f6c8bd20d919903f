use std::convert::TryInto;

use timecode::framerates::{ConstFramerate, DynFramerate, DF, NDF};
use timecode::validate::{TimecodeValidationError, TimecodeValidationWarning};
use timecode::{
    frame_count_limit, unvalidated, Convert, ConvertError, Frames, Timecode,
    TimecodeArithmeticError, ToFrames, ValidateableFramerate,
};

#[test]
fn add_compiles() {
    let t1: Timecode<NDF<30>> = "01:10:00:12".parse().unwrap();
    let t2: Timecode<NDF<30>> = "00:00:00:01".parse().unwrap();

    let _ = t1 + t2;
}

#[test]
fn add_frames_compiles() {
    let t1: Timecode<NDF<30>> = "01:10:00:12".parse().unwrap();

    let t1 = t1 + Frames(10);
    let _ = t1 + Frames(10);
}

#[test]
fn add_frames_frames_compiles() {
    let _ = Frames(20) + Frames(10);
}

#[test]
fn to_frames() {
    let t1: Timecode<NDF<30>> = "00:00:01:12".parse().unwrap();

    let f = t1.to_frame_count();

    assert_eq!(f, 12 + 30);
}

#[test]
fn add_tcs() {
    let t1: Timecode<NDF<30>> = "01:10:00:12".parse().unwrap();
    let t2: Timecode<NDF<30>> = "01:01:01:01".parse().unwrap();
    let t3: Timecode<NDF<30>> = "02:11:01:13".parse().unwrap();

    assert_eq!(t1 + t2, t3);
}

#[test]
fn dyns() {
    let t1: Timecode<DynFramerate> = "01:10:00:12@30".parse().unwrap();
    let t2: Timecode<DynFramerate> = "00:00:00:01@30".parse().unwrap();

    let _ = t1 + t2;
}

#[test]
fn dyns_mismatch() {
    let t1: Timecode<DynFramerate> = "01:10:00:12@30".parse().unwrap();
    let t2: Timecode<DynFramerate> = "00:00:00:01@25".parse().unwrap();

    assert!(t1.try_add(t2).is_err());
}

#[test]
fn size_of_dyn_larger() {
    let t1: Timecode<DynFramerate> = "01:10:00:12@30".parse().unwrap();
    let t2: Timecode<NDF<30>> = "01:10:00:12".parse().unwrap();

    let a = std::mem::size_of_val(&t1);
    let b = std::mem::size_of_val(&t2);

    assert!(a > b);
}

#[test]
fn dyn_downcast() {
    let t1: Timecode<DynFramerate> = "01:10:00:12@30".parse().unwrap();
    let tf = *t1.framerate();
    let _: NDF<30> = (&tf).try_into().unwrap();
    let _ = TryInto::<NDF<25>>::try_into(&tf).unwrap_err();
}

#[test]
fn mismatch_rejected_with_error() {
    let t1 = Timecode::new_with_fr("01:10:00:12", "30").unwrap();
    let t2 = Timecode::new_with_fr("00:00:00:01", "25").unwrap();
    assert_eq!(t1.try_add(t2), Err(timecode::FramerateMismatch));
    let t3 = Timecode::new_with_fr("00:00:00:01", "30").unwrap();
    assert_eq!(t1.try_add(t3).unwrap().to_string(), "01:10:00:13");
}

#[test]
fn drop_frame_skipped_labels() {
    let skipped: Result<Timecode<DF<30>>, _> = "00:01:00;00".parse();
    assert_eq!(skipped, Err(TimecodeValidationError::InvalidFrames(0)));
    let one: Result<Timecode<DF<30>>, _> = "00:01:00;01".parse();
    assert_eq!(one, Err(TimecodeValidationError::InvalidFrames(1)));
    let kept: Timecode<DF<30>> = "00:01:00;02".parse().unwrap();
    assert_eq!(kept.f(), 2);
    let exempt: Timecode<DF<30>> = "00:10:00;00".parse().unwrap();
    assert_eq!(exempt.m(), 10);
    let later: Timecode<DF<30>> = "00:01:01;00".parse().unwrap();
    assert_eq!(later.s(), 1);
    let four: Result<Timecode<DF<60>>, _> = "00:01:00;03".parse();
    assert_eq!(four, Err(TimecodeValidationError::InvalidFrames(3)));
    let after: Timecode<DF<60>> = "00:01:00;04".parse().unwrap();
    assert_eq!(after.to_frame_count(), 3600);
}

#[test]
fn validation_errors() {
    let m: Result<Timecode<NDF<30>>, _> = "00:60:00:00".parse();
    assert_eq!(m, Err(TimecodeValidationError::InvalidMin(60)));
    let s: Result<Timecode<NDF<30>>, _> = "00:61:60:00".parse();
    assert_eq!(s, Err(TimecodeValidationError::InvalidMin(61)));
    let s: Result<Timecode<NDF<30>>, _> = "00:00:60:00".parse();
    assert_eq!(s, Err(TimecodeValidationError::InvalidSec(60)));
    let f: Result<Timecode<NDF<30>>, _> = "00:00:00:30".parse();
    assert_eq!(f, Err(TimecodeValidationError::InvalidFrames(30)));
    let u: Result<Timecode<NDF<30>>, _> = "00:00:00".parse();
    assert_eq!(u, Err(TimecodeValidationError::Unparsed));
    let bad_rate = Timecode::new_with_fr("00:00:00:00", "abc");
    assert_eq!(bad_rate, Err(TimecodeValidationError::InvalidFramerate(None)));
    let no_at: Result<Timecode<DynFramerate>, _> = "00:00:00:00".parse();
    assert_eq!(no_at, Err(TimecodeValidationError::Unparsed));
    let raw = unvalidated("00:00:00:00").unwrap();
    assert_eq!(
        raw.validate_with_fr(&DynFramerate::DF(45)),
        Err(TimecodeValidationError::InvalidFramerate(Some(45)))
    );
    let bad_df: Result<Timecode<DF<25>>, _> = "00:00:00:00".parse();
    assert_eq!(bad_df, Err(TimecodeValidationError::InvalidFramerate(Some(25))));
}

#[test]
fn separator_warning() {
    let raw = unvalidated("01:02:00:25").unwrap();
    let (tc, warnings) = raw.validate_with_warnings::<NDF<30>>().unwrap();
    assert!(warnings.is_empty());
    assert_eq!(tc.to_string(), "01:02:00:25");

    let (tc, warnings) = raw.validate_with_warnings::<DF<30>>().unwrap();
    assert_eq!(tc.to_string(), "01:02:00;25");
    assert_eq!(warnings, vec![TimecodeValidationWarning::MismatchSep]);

    let framerate: DynFramerate = "29.97".parse().unwrap();
    let (tc, warnings) = raw.validate_with_warnings_fr(&framerate).unwrap();
    assert_eq!(tc.to_string(), "01:02:00;25");
    assert!(warnings.contains(&TimecodeValidationWarning::MismatchSep));

    let invalid = unvalidated("01:02:00;01").unwrap().validate_with_warnings::<DF<30>>();
    assert_eq!(invalid, Err(TimecodeValidationError::InvalidFrames(1)));
}

#[test]
fn unchecked_construction() {
    let raw = unvalidated("01:02:00;25").unwrap();
    let tc = raw.validate_unchecked::<NDF<30>>();
    assert_eq!(tc.to_string(), "01:02:00:25");
    let tc = raw.validate_unchecked_with_fr(&DynFramerate::DF(30));
    assert_eq!(tc.to_string(), "01:02:00;25");
}

#[test]
fn accessors_and_text() {
    let tc: Timecode<NDF<50>> = "01:02:00:25".parse().unwrap();
    assert_eq!(tc.h(), 1);
    assert_eq!(tc.m(), 2);
    assert_eq!(tc.s(), 0);
    assert_eq!(tc.f(), 25);
    assert_eq!(tc.to_string(), "01:02:00:25");
    let big: Timecode<NDF<30>> = "123:04:05:06".parse().unwrap();
    assert_eq!(big.to_string(), "123:04:05:06");
    let tc = Timecode::new_with_fr("01:02:15;23", "29.97").unwrap();
    assert_eq!(tc.framerate(), &DynFramerate::DF(30));
    let wide = Timecode::from_frames(&Frames(4_294_655_999), &NDF::<4660>);
    assert_eq!(wide.to_string(), "255:59:59:4659");
    assert_eq!(wide.to_frame_count(), 4_294_655_999);
}

#[test]
fn frames_arithmetic() {
    assert_eq!(Frames(20) + Frames(10), Frames(30));
    assert_eq!(Frames(20) - Frames(10), Frames(10));
    let tc: Timecode<NDF<30>> = "00:00:01:00".parse().unwrap();
    assert_eq!((tc - Frames(1)).to_string(), "00:00:00:29");
    assert_eq!((tc - Frames(30)).to_string(), "00:00:00:00");
    let df: Timecode<DF<30>> = "00:01:00;02".parse().unwrap();
    assert_eq!((df - Frames(1)).to_string(), "00:00:59;29");
    assert_eq!(Frames::from_frames(&Frames(7), &()).to_frame_count(), 7);
}

#[test]
fn checked_arithmetic() {
    let last: Timecode<NDF<1>> = "255:59:59:00".parse().unwrap();
    assert_eq!(last.checked_add_frames(Frames(1)), Err(TimecodeArithmeticError::Overflow));
    let before: Timecode<NDF<1>> = "255:59:58:00".parse().unwrap();
    assert_eq!(before.checked_add_frames(Frames(1)).unwrap(), last);
    assert_eq!(last.checked_add(last), Err(TimecodeArithmeticError::Overflow));
    let one: Timecode<NDF<1>> = "00:00:01:00".parse().unwrap();
    assert_eq!(before.checked_add(one).unwrap(), last);

    let tc: Timecode<DF<30>> = "00:00:00;05".parse().unwrap();
    assert_eq!(tc.checked_sub_frames(Frames(6)), Err(TimecodeArithmeticError::Underflow));
    assert_eq!(tc.checked_sub_frames(Frames(5)).unwrap().to_string(), "00:00:00;00");

    let a = Timecode::new_with_fr("00:00:00:01", "30").unwrap();
    let b = Timecode::new_with_fr("00:00:00:01", "25").unwrap();
    assert_eq!(a.checked_add(b), Err(TimecodeArithmeticError::FramerateMismatch));

    assert_eq!(Frames(3).checked_sub(Frames(4)), Err(TimecodeArithmeticError::Underflow));
    assert_eq!(Frames(4).checked_sub(Frames(3)), Ok(Frames(1)));
    assert_eq!(Frames(u32::MAX).checked_add(Frames(1)), Err(TimecodeArithmeticError::Overflow));
    assert_eq!(Frames(1).checked_add(Frames(2)), Ok(Frames(3)));
    assert_eq!(frame_count_limit(&DF::<30>), 27_620_352);
    assert_eq!(frame_count_limit(&NDF::<25>), 23_040_000);
}

#[test]
fn convert_overflow() {
    let late: Timecode<NDF<30>> = "255:59:59:29".parse().unwrap();
    assert_eq!(late.convert::<DF<30>>(), Err(ConvertError::Overflow));
    let bad: Result<Timecode<DF<25>>, ConvertError> = late.convert();
    assert_eq!(bad, Err(ConvertError::InvalidFramerate));
}

#[test]
fn warnings_through_container() {
    let raw = unvalidated("01:02:00:25").unwrap();
    let mut held: Vec<TimecodeValidationWarning> = Vec::new();
    assert_eq!(DF::<30>.validate(&raw, &mut held), Ok(()));
    assert_eq!(held, vec![TimecodeValidationWarning::MismatchSep]);
    let mut none: Vec<TimecodeValidationWarning> = Vec::new();
    assert_eq!(NDF::<30>.validate(&raw, &mut none), Ok(()));
    assert!(none.is_empty());
    let bad_minutes = unvalidated("01:72:00:25").unwrap();
    let mut kept: Vec<TimecodeValidationWarning> = Vec::new();
    assert_eq!(
        DF::<30>.validate(&bad_minutes, &mut kept),
        Err(TimecodeValidationError::InvalidMin(72))
    );
    assert!(kept.is_empty());
    let skipped = unvalidated("00:01:00:00").unwrap();
    let mut also: Vec<TimecodeValidationWarning> = Vec::new();
    assert_eq!(
        DF::<30>.validate(&skipped, &mut also),
        Err(TimecodeValidationError::InvalidFrames(0))
    );
    assert_eq!(also, vec![TimecodeValidationWarning::MismatchSep]);
}

#[test]
fn const_framerate_checked() {
    assert_eq!(DF::<25>::new_checked(), Err(25));
    assert_eq!(DF::<60>::new_checked(), Ok(DF::<60>));
    assert_eq!(NDF::<0>::new_checked(), Err(0));
}

#[test]
fn convert_rates() {
    let x: Timecode<NDF<30>> = "00:01:02:03".parse().unwrap();
    let y: Timecode<NDF<25>> = x.convert().unwrap();
    assert_eq!(y.to_string(), "00:01:02:02");

    let start: Timecode<DF<30>> = "01:00:00;00".parse().unwrap();
    let x: Timecode<DF<30>> = "01:01:02;27".parse().unwrap();
    let y: Timecode<NDF<24>> = x.convert_with_start(&start).unwrap();
    assert_eq!(y.to_string(), "01:01:02:20");
    let y_wrong: Timecode<NDF<24>> = x.convert().unwrap();
    assert_eq!(y_wrong.to_string(), "01:01:02:21");

    let x: Timecode<DynFramerate> = "00:01:02:03@30".parse().unwrap();
    let y = x.convert_with_fr(&DynFramerate::new_ndf(25)).unwrap();
    assert_eq!(y.to_string(), "00:01:02:02");
    assert_eq!(y.framerate(), &DynFramerate::new_ndf(25));

    let tc: Timecode<NDF<50>> = "01:02:00:25".parse().unwrap();
    let converted: Timecode<DF<30>> = tc.convert().unwrap();
    assert_eq!(converted.to_string(), "01:02:00;15");
}

#[test]
fn convert_errors() {
    let start = Timecode::new_with_fr("01:00:00;00", "29.97").unwrap();
    let x = Timecode::new_with_fr("00:59:59;29", "29.97").unwrap();
    assert_eq!(
        x.convert_with_start_fr(&start, &DynFramerate::new_ndf(24)),
        Err(ConvertError::PrecedesStart)
    );
    let other = Timecode::new_with_fr("00:00:00:00", "25").unwrap();
    assert_eq!(
        x.convert_with_start_fr(&other, &DynFramerate::new_ndf(24)),
        Err(ConvertError::FramerateMismatch)
    );
    assert_eq!(x.convert_with_fr(&DynFramerate::NDF(0)), Err(ConvertError::InvalidFramerate));
    let x = Timecode::new_with_fr("01:01:02;27", "29.97").unwrap();
    let y = x.convert_with_start_fr(&start, &DynFramerate::new_ndf(24)).unwrap();
    assert_eq!(y.to_string(), "01:01:02:20");
}

#[test]
fn compare_dyn_and_const() {
    let t1: Timecode<DynFramerate> = "01:10:00:12@30".parse().unwrap();
    let t2: Timecode<NDF<30>> = "01:10:00:12".parse().unwrap();
    assert!(t1 == t2);
    let t3: Timecode<DF<30>> = "01:10:00;12".parse().unwrap();
    assert!(t1 != t3);
}
