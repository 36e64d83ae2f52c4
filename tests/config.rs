use statix::config::{parse_line_col, parse_warning_code, ConfFile, ConfigErr, Fix, FixOut, OutFormat, Single};
use statix::explain::{explain, listing, ExplainErr};
use statix::lints::lints;
use statix::syntax::{ParseResult, TextRange};
use statix::fix::select_edits;
use statix::single::{pos_to_byte, SingleFixErr};
use statix::position;

#[test]
fn explain_codes() {
    assert_eq!(explain(0).ok(), Some("syntax error"));
    assert!(explain(18).ok().unwrap().contains("!(x == y)"));
    for l in lints() {
        assert_eq!(explain(l.code()).ok(), Some(l.explanation()));
        assert!(!l.explanation().is_empty());
    }
    assert!(matches!(explain(99), Err(ExplainErr::LintNotFound(99))));
}

#[test]
fn listing_is_ordered_by_code() {
    let codes: Vec<u32> = listing().iter().map(|l| l.code()).collect();
    let mut sorted = codes.clone();
    sorted.sort();
    assert_eq!(codes, sorted);
    assert_eq!(codes.len(), lints().len());
}

#[test]
fn codes_and_names_are_unique() {
    let all = lints();
    for (i, a) in all.iter().enumerate() {
        for b in all.iter().skip(i + 1) {
            assert_ne!(a.code(), b.code());
            assert_ne!(a.name(), b.name());
        }
    }
}

#[test]
fn line_and_column() {
    assert!(matches!(parse_line_col("3,4"), Ok((3, 4))));
    assert!(matches!(parse_line_col("+3,4"), Ok((3, 4))));
    assert!(matches!(parse_line_col("3"), Err(ConfigErr::InvalidPosition(s)) if s == "3"));
    assert!(parse_line_col("a,b").is_err());
    assert!(parse_line_col("1,2,3").is_err());
    assert!(parse_line_col(",2").is_err());
    assert!(parse_line_col("1,").is_err());
    assert!(matches!(parse_line_col("0,0"), Ok((0, 0))));
    assert!(parse_line_col("99999999999999999999999,1").is_err());
}

#[test]
fn warning_codes() {
    assert!(matches!(parse_warning_code("W07"), Ok(7)));
    assert!(matches!(parse_warning_code("w23"), Ok(23)));
    assert!(matches!(parse_warning_code("x12"), Ok(0)));
    assert!(matches!(parse_warning_code(""), Err(ConfigErr::InvalidWarningCode(_))));
    assert!(parse_warning_code("Wx").is_err());
    assert!(parse_warning_code("W99999999999").is_err());
}

#[test]
fn output_formats() {
    assert_eq!("JSON".parse::<OutFormat>(), Ok(OutFormat::Json));
    assert_eq!("errfmt".parse::<OutFormat>(), Ok(OutFormat::Errfmt));
    assert_eq!("StdErr".parse::<OutFormat>(), Ok(OutFormat::StdErr));
    assert!("yaml".parse::<OutFormat>().is_err());
    assert_eq!(OutFormat::default(), OutFormat::StdErr);
    for f in [OutFormat::Json, OutFormat::Errfmt, OutFormat::StdErr] {
        assert_eq!(f.as_str().parse::<OutFormat>(), Ok(f));
    }
    assert_eq!(OutFormat::Errfmt.as_str(), "errfmt");
}

#[test]
fn fix_outputs() {
    assert_eq!(Fix { diff_only: true, streaming: true }.out(), FixOut::Diff);
    assert_eq!(Fix { diff_only: false, streaming: true }.out(), FixOut::Stream);
    assert_eq!(Fix { diff_only: false, streaming: false }.out(), FixOut::Write);
    assert_eq!(Single { position: (1, 1), diff_only: false, streaming: true }.out(), FixOut::Stream);
}

#[test]
fn conf_file_disables() {
    let conf = ConfFile { disabled: vec!["empty_let_in".to_string()], ignore: vec![] };
    let map = conf.lints();
    assert!(map.rules.iter().all(|l| l.name() != "empty_let_in"));
}

#[test]
fn parse_result_split() {
    assert!(ParseResult::parse("{ a = 1; }").to_result().is_ok());
    let errs = ParseResult::parse("{ a = 1; } }").to_result().err().unwrap();
    assert_eq!(errs.len(), 1);
}

#[test]
fn selection_prefers_earlier_then_shorter() {
    let rs = vec![
        TextRange::new(0, 10),
        TextRange::new(2, 5),
        TextRange::new(10, 12),
        TextRange::new(10, 10),
    ];
    assert_eq!(select_edits(&rs), vec![0, 3, 2]);
    let rs = vec![TextRange::new(5, 8), TextRange::new(5, 5)];
    assert_eq!(select_edits(&rs), vec![1, 0]);
    let rs = vec![TextRange::new(5, 5), TextRange::new(5, 5), TextRange::new(4, 6)];
    assert_eq!(select_edits(&rs), vec![2]);
    let rs = vec![TextRange::new(5, 9), TextRange::new(0, 3), TextRange::new(4, 2)];
    assert_eq!(select_edits(&rs), vec![1, 0]);
    assert!(select_edits(&vec![]).is_empty());
}

#[test]
fn column_too_large_is_a_conversion_error() {
    let big = (u32::MAX as usize) + 1;
    assert!(matches!(pos_to_byte(1, big, "abc".as_bytes()), Err(SingleFixErr::Conversion(c)) if c == big));
}

#[test]
fn lines_and_columns() {
    let src = "ab\ncd\n".as_bytes();
    assert_eq!((position::line(0, src), position::column(0, src)), (1, 1));
    assert_eq!((position::line(4, src), position::column(4, src)), (2, 2));
    assert_eq!((position::line(6, src), position::column(6, src)), (3, 1));
}
