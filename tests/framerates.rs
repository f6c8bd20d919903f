use std::convert::TryInto;

use timecode::framerates::{parse_framerate, DFDyn, DynFramerate, Framerate, NDFDyn, NDF};

#[test]
fn read_int() {
    let s: DynFramerate = "25".parse().unwrap();
    assert_eq!(s, DynFramerate::NDF(25));
}

#[test]
fn read_float() {
    let s: DynFramerate = "25.00".parse().unwrap();
    assert_eq!(s, DynFramerate::NDF(25));
}

#[test]
fn read_float_df() {
    let s: DynFramerate = "29.97".parse().unwrap();
    assert_eq!(s, DynFramerate::DF(30));
}

#[test]
fn read_float_ndf_special() {
    let s: DynFramerate = "23.98".parse().unwrap();
    assert_eq!(s, DynFramerate::NDF(24));
}

#[test]
fn read_fr_high() {
    let s: DynFramerate = "239.99".parse().unwrap();
    assert_eq!(s, DynFramerate::NDF(240));
}

#[test]
fn framerates_read_fr_high_df() {
    let s: DynFramerate = "239.76".parse().unwrap();
    assert_eq!(s, DynFramerate::DF(240));
}

#[test]
fn read_fr_high_df() {
    let s: DynFramerate = "239.76".parse().unwrap();
    assert_eq!(s, DynFramerate::DF(240));
}

#[test]
fn make_simple() {
    let _ = DFDyn::new(30).unwrap();
    let _ = DFDyn::new(60).unwrap();
    let _ = NDFDyn::new(30);
    let _ = NDFDyn::new(60);
    let _ = NDFDyn::new(25);
    let _ = NDFDyn::new(50);
}

#[test]
#[should_panic]
fn make_bad_df() {
    let _ = DFDyn::new(23).unwrap();
}

#[test]
fn upcast() {
    let n = NDFDyn::new(30);
    if let Ok(NDF::<30>) = n.try_into() {
    } else {
        panic!("30");
    }
    if let Ok(NDF::<33>) = n.try_into() {
        panic!("33");
    }
}

#[test]
fn dyn_impl_fr() {
    let t1: DynFramerate = "30".parse().unwrap();

    assert_eq!(t1.max_frame(), 30);
}

#[test]
fn read_more_rates() {
    assert_eq!(parse_framerate("23.976"), Ok(DynFramerate::NDF(24)));
    assert_eq!(parse_framerate("59.94"), Ok(DynFramerate::DF(60)));
    assert_eq!(parse_framerate("59.97"), Ok(DynFramerate::DF(60)));
    assert_eq!(parse_framerate("50"), Ok(DynFramerate::NDF(50)));
    assert_eq!(parse_framerate("30."), Err("No known framerate"));
    assert!(parse_framerate("0").is_err());
    assert!(parse_framerate("5000").is_err());
    assert!(parse_framerate("abc").is_err());
    assert!(parse_framerate("").is_err());
    assert!(parse_framerate("27.5").is_err());
}

#[test]
fn framerate_fields() {
    let df = DynFramerate::new_df(30);
    assert_eq!(df.to_sep(), ';');
    assert_eq!(df.drop_frames(), Some(2));
    assert_eq!(df.fr_num(), 30000);
    assert_eq!(df.fr_denom(), 1001);
    assert!(df.is_dropframe());
    let ndf = DynFramerate::new_ndf(25);
    assert_eq!(ndf.to_sep(), ':');
    assert_eq!(ndf.drop_frames(), None);
    assert_eq!(ndf.fr_num(), 25);
    assert_eq!(ndf.fr_denom(), 1);
    assert!(!ndf.is_dropframe());
    assert_eq!(DynFramerate::DF(60).drop_frames(), Some(4));
}

#[test]
fn dyn_conversions() {
    let d = DynFramerate::DF(30);
    let as_df: Result<DFDyn, ()> = (&d).try_into();
    assert!(as_df.is_ok());
    let as_ndf: Result<NDFDyn, ()> = (&d).try_into();
    assert!(as_ndf.is_err());
}
