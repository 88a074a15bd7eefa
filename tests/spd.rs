use rota2ics::{expand, parse_spd, parse_syntax, resolve, ClockTime, Date, Occurrence, ParsedShiftDay, Shift, ShiftDay, SpdError};

const DAY: &str = "D 08:00:00 8h \"Day Shift\"\n";
const NIGHT: &str = "N 20:00:00 12h \"Night Shift\"\n";

fn day_number(y: i32, m: u32, d: u32) -> i64 {
    Date::from_ymd(y, m, d).unwrap().days_from_ce as i64
}

fn at(y: i32, m: u32, d: u32, h: i64, min: i64) -> i64 {
    day_number(y, m, d) * 86400 + h * 3600 + min * 60
}

fn names(occ: &[Occurrence]) -> Vec<String> {
    occ.iter().map(|o| o.name.clone()).collect()
}

#[test]
fn date_from_ymd_counts_days_from_ce() {
    assert_eq!(Date::from_ymd(1, 1, 1).unwrap().days_from_ce, 1);
    assert_eq!(Date::from_ymd(2024, 1, 1).unwrap().days_from_ce, 738886);
    assert_eq!(Date::from_ymd(1970, 1, 1).unwrap().days_from_ce, 719163);
    assert!(Date::from_ymd(2023, 2, 29).is_none());
    assert!(Date::from_ymd(2024, 13, 1).is_none());
}

#[test]
fn weekday_and_monday() {
    let wed = Date::from_ymd(2024, 1, 3).unwrap();
    assert_eq!(wed.weekday_from_monday(), 2);
    assert_eq!(wed.monday(), day_number(2024, 1, 1));
    let sun = Date::from_ymd(2024, 1, 7).unwrap();
    assert_eq!(sun.weekday_from_monday(), 6);
    assert_eq!(sun.monday(), day_number(2024, 1, 1));
    let bce = Date { days_from_ce: -3 };
    assert_eq!(bce.weekday_from_monday(), 3);
    assert_eq!(bce.monday(), -6);
}

#[test]
fn scenario_one_week_of_day_shifts() {
    let text = format!("{DAY}pattern\nD D D D D _ _\n");
    let p = parse_spd(&text).unwrap();
    assert_eq!(p.len(), 1);
    assert_eq!(p[0].len(), 7);
    let start = Date::from_ymd(2024, 1, 1).unwrap();
    let occ = expand(&p, start, 0, 1);
    assert_eq!(occ.len(), 5);
    for (i, o) in occ.iter().enumerate() {
        assert_eq!(o.name, "Day Shift");
        assert_eq!(o.start, at(2024, 1, 1 + i as u32, 8, 0));
        assert_eq!(o.end, at(2024, 1, 1 + i as u32, 16, 0));
    }
}

#[test]
fn scenario_two_weeks_repeat_after_seven_days() {
    let text = format!("{DAY}pattern\nD D D D D _ _\n");
    let p = parse_spd(&text).unwrap();
    let occ = expand(&p, Date::from_ymd(2024, 1, 1).unwrap(), 0, 2);
    assert_eq!(occ.len(), 10);
    for i in 0..5 {
        assert_eq!(occ[i + 5].start - occ[i].start, 7 * 86400);
        assert_eq!(occ[i + 5].end - occ[i].end, 7 * 86400);
        assert_eq!(occ[i + 5].name, occ[i].name);
    }
}

#[test]
fn scenario_phase_one_starts_on_night_row() {
    let text = format!("{DAY}{NIGHT}pattern\nD D D D D _ _\nN N N N N _ _\n");
    let p = parse_spd(&text).unwrap();
    assert_eq!(p.len(), 2);
    let occ = expand(&p, Date::from_ymd(2024, 1, 1).unwrap(), 1, 1);
    assert_eq!(occ.len(), 5);
    assert_eq!(names(&occ), vec!["Night Shift"; 5]);
    assert_eq!(occ[0].start, at(2024, 1, 1, 20, 0));
    assert_eq!(occ[0].end, at(2024, 1, 2, 8, 0));
}

#[test]
fn scenario_undefined_reference_names_identifier() {
    let text = format!("{DAY}pattern\nD D X D D _ _\n");
    match parse_spd(&text) {
        Err(SpdError::UndefinedShift { name }) => assert_eq!(name, "X"),
        other => panic!("unexpected result: {:?}", other.map(|p| p.len())),
    }
}

#[test]
fn undefined_reference_reports_first_in_row_order() {
    let text = format!("{DAY}pattern\nD D D D D _ Y\nX D D D D _ _\n");
    match parse_spd(&text) {
        Err(SpdError::UndefinedShift { name }) => assert_eq!(name, "Y"),
        other => panic!("unexpected result: {:?}", other.map(|p| p.len())),
    }
}

#[test]
fn scenario_invalid_clock_differs_from_missing_keyword() {
    let bad_clock = "D 25:00:00 8h \"Day Shift\"\npattern\nD D D D D _ _\n";
    match parse_spd(bad_clock) {
        Err(SpdError::InvalidClock { hour, minute, second }) => {
            assert_eq!((hour, minute, second), (25, 0, 0));
        }
        other => panic!("unexpected result: {:?}", other.map(|p| p.len())),
    }
    let no_keyword = format!("{DAY}D D D D D _ _\n");
    match parse_spd(&no_keyword) {
        Err(SpdError::Syntax { offset }) => assert_eq!(offset, DAY.len()),
        other => panic!("unexpected result: {:?}", other.map(|p| p.len())),
    }
}

#[test]
fn minute_and_second_out_of_range_are_clock_errors() {
    assert!(matches!(
        parse_spd("D 08:60:00 8h \"A\"\npattern\nD D D D D _ _\n"),
        Err(SpdError::InvalidClock { hour: 8, minute: 60, second: 0 })
    ));
    assert!(matches!(
        parse_spd("D 23:59:60 8h \"A\"\npattern\nD D D D D _ _\n"),
        Err(SpdError::InvalidClock { hour: 23, minute: 59, second: 60 })
    ));
}

#[test]
fn rows_of_six_or_eight_tokens_fail() {
    let six = format!("{DAY}pattern\nD D D D D _\n");
    assert!(matches!(parse_spd(&six), Err(SpdError::Syntax { .. })));
    let eight = format!("{DAY}pattern\nD D D D D _ _ _\n");
    assert!(matches!(parse_spd(&eight), Err(SpdError::Syntax { .. })));
    let later_eight = format!("{DAY}pattern\nD D D D D _ _\nD D D D D _ _ D\n");
    assert!(matches!(parse_spd(&later_eight), Err(SpdError::Syntax { .. })));
}

#[test]
fn every_parsed_week_has_seven_days() {
    let text = format!("{DAY}{NIGHT}pattern\nD D D D D _ _\n_ _ N N N N N\nD N D N D N _\n");
    let p = parse_spd(&text).unwrap();
    assert_eq!(p.len(), 3);
    assert!(p.iter().all(|w| w.len() == 7));
}

#[test]
fn last_definition_wins() {
    let text = "D 08:00:00 8h \"Early\"\nD 09:30:00 7h30m \"Late\"\npattern\nD _ _ _ _ _ _\n";
    let p = parse_spd(text).unwrap();
    match &p[0][0] {
        ShiftDay::OnShift(s) => {
            assert_eq!(s.name, "Late");
            assert_eq!(s.start_time, ClockTime { hour: 9, minute: 30, second: 0 });
            assert_eq!(s.length, 27000);
        }
        ShiftDay::NotWorking => panic!("expected a shift"),
    }
}

#[test]
fn duration_with_minutes_gives_exact_length() {
    let text = "L 07:15:00 8h30m \"Long Day\"\npattern\n_ _ L _ _ _ _\n";
    let p = parse_spd(text).unwrap();
    let occ = expand(&p, Date::from_ymd(2024, 1, 1).unwrap(), 0, 3);
    assert_eq!(occ.len(), 3);
    for o in &occ {
        assert_eq!(o.end - o.start, 30600);
    }
    assert_eq!(occ[0].start, at(2024, 1, 3, 7, 15));
}

#[test]
fn zero_hour_duration_is_allowed() {
    let text = "Z 00:00:00 0h \"Zero\"\npattern\nZ _ _ _ _ _ _\n";
    let p = parse_spd(text).unwrap();
    let occ = expand(&p, Date::from_ymd(2024, 1, 1).unwrap(), 0, 1);
    assert_eq!(occ.len(), 1);
    assert_eq!(occ[0].start, occ[0].end);
}

#[test]
fn start_mid_week_uses_that_weeks_monday() {
    let text = format!("{DAY}pattern\nD D D D D _ _\n");
    let p = parse_spd(&text).unwrap();
    let from_monday = expand(&p, Date::from_ymd(2024, 1, 1).unwrap(), 0, 2);
    for day in 2..=7 {
        let other = expand(&p, Date::from_ymd(2024, 1, day).unwrap(), 0, 2);
        assert_eq!(other.len(), from_monday.len());
        for (a, b) in other.iter().zip(from_monday.iter()) {
            assert_eq!((a.start, a.end), (b.start, b.end));
            assert_eq!(a.name, b.name);
        }
    }
}

#[test]
fn phase_beyond_pattern_length_wraps() {
    let text = format!("{DAY}{NIGHT}pattern\nD D D D D _ _\nN N N N N _ _\n");
    let p = parse_spd(&text).unwrap();
    let start = Date::from_ymd(2024, 1, 1).unwrap();
    for k in 0..6u32 {
        let a = expand(&p, start, k, 3);
        let b = expand(&p, start, k % 2, 3);
        assert_eq!(names(&a), names(&b));
        let expect_first = if k % 2 == 0 { "Day Shift" } else { "Night Shift" };
        assert_eq!(a[0].name, expect_first);
        assert_eq!(a[5].name, if k % 2 == 0 { "Night Shift" } else { "Day Shift" });
    }
    let huge = expand(&p, start, u32::MAX, 1);
    assert_eq!(huge[0].name, "Night Shift");
}

#[test]
fn zero_weeks_give_nothing() {
    let text = format!("{DAY}pattern\nD D D D D _ _\n");
    let p = parse_spd(&text).unwrap();
    assert!(expand(&p, Date::from_ymd(2024, 1, 1).unwrap(), 3, 0).is_empty());
}

#[test]
fn keyword_is_case_insensitive_and_crlf_is_accepted() {
    let text = "D 08:00:00 8h \"Day Shift\"\r\n  PaTtErN\r\nD D D D D _ _\r\n\r\n";
    let p = parse_spd(text).unwrap();
    assert_eq!(p.len(), 1);
}

#[test]
fn keyword_must_stand_on_its_own() {
    let glued = format!("{DAY}patternD D D D D _ _\n");
    match parse_spd(&glued) {
        Err(SpdError::Syntax { offset }) => assert_eq!(offset, DAY.len()),
        other => panic!("unexpected result: {:?}", other.map(|p| p.len())),
    }
}

#[test]
fn no_definitions_and_an_all_off_table() {
    let p = parse_spd("pattern\n_ _ _ _ _ _ _\n").unwrap();
    assert_eq!(p.len(), 1);
    assert!(matches!(p[0][3], ShiftDay::NotWorking));
}

#[test]
fn missing_rows_and_trailing_text_are_syntax_errors() {
    let no_rows = format!("{DAY}pattern\n");
    match parse_spd(&no_rows) {
        Err(SpdError::Syntax { offset }) => assert_eq!(offset, no_rows.len()),
        other => panic!("unexpected result: {:?}", other.map(|p| p.len())),
    }
    let unterminated = format!("{DAY}pattern\nD D D D D _ _");
    assert!(matches!(parse_spd(&unterminated), Err(SpdError::Syntax { .. })));
    let trailing = format!("{DAY}pattern\nD D D D D _ _\nnonsense\n");
    match parse_spd(&trailing) {
        Err(SpdError::Syntax { offset }) => assert_eq!(offset, trailing.find("nonsense").unwrap()),
        other => panic!("unexpected result: {:?}", other.map(|p| p.len())),
    }
    let unclosed_name = "D 08:00:00 8h \"Day Shift\npattern\nD D D D D _ _\n";
    assert!(matches!(parse_spd(unclosed_name), Err(SpdError::Syntax { offset: 0 })));
}

#[test]
fn parse_syntax_keeps_tokens_unresolved() {
    let text = format!("{DAY}pattern\nD _ X _ _ _ _\n");
    let (defs, rows) = parse_syntax(&text).unwrap();
    assert_eq!(defs.len(), 1);
    assert_eq!(defs[0].0, "D");
    assert_eq!(defs[0].1.name, "Day Shift");
    assert_eq!(defs[0].1.start_time, ClockTime { hour: 8, minute: 0, second: 0 });
    assert_eq!(defs[0].1.length, 28800);
    assert_eq!(rows.len(), 1);
    assert!(matches!(&rows[0][1], ParsedShiftDay::NotWorking));
    assert!(matches!(&rows[0][2], ParsedShiftDay::OnShift(x) if x == "X"));
}

#[test]
fn resolve_directly() {
    let shift = |name: &str| Shift {
        name: name.to_string(),
        start_time: ClockTime { hour: 6, minute: 0, second: 0 },
        length: 3600,
    };
    let defs = vec![("A".to_string(), shift("first")), ("A".to_string(), shift("second"))];
    let row = |t: &str| -> Vec<ParsedShiftDay> {
        (0..7)
            .map(|_| if t == "_" { ParsedShiftDay::NotWorking } else { ParsedShiftDay::OnShift(t.to_string()) })
            .collect()
    };
    let ok = resolve(&defs, &vec![row("A"), row("_")]).unwrap();
    assert!(matches!(&ok[0][6], ShiftDay::OnShift(s) if s.name == "second"));
    assert!(matches!(&ok[1][0], ShiftDay::NotWorking));
    assert!(matches!(resolve(&defs, &vec![row("B")]), Err(SpdError::UndefinedShift { .. })));
}

#[test]
fn clock_time_from_hms() {
    assert_eq!(ClockTime::from_hms(23, 59, 59), Some(ClockTime { hour: 23, minute: 59, second: 59 }));
    assert_eq!(ClockTime::from_hms(24, 0, 0), None);
    assert_eq!(ClockTime { hour: 1, minute: 2, second: 3 }.seconds_from_midnight(), 3723);
}

#[test]
fn error_messages() {
    let e = SpdError::UndefinedShift { name: "X".to_string() };
    assert_eq!(e.message(), "X is not a defined shift pattern.");
}

#[test]
fn parse_week_leaves_the_line_break() {
    let text = "D D D D D _ _\n";
    let chars = rota2ics::lexical::chars_of(text);
    let (days, rest) = rota2ics::grammar::parse_week(text, &chars, 0).unwrap();
    assert_eq!(days.len(), 7);
    assert_eq!(rest, 13);
    assert_eq!(chars[rest], '\n');
    assert!(matches!(&days[0], ParsedShiftDay::OnShift(x) if x == "D"));
    assert!(matches!(&days[5], ParsedShiftDay::NotWorking));
}

#[test]
fn parse_week_takes_seven_of_eight_tokens() {
    let text = "D D D D D _ _ D\n";
    let chars = rota2ics::lexical::chars_of(text);
    let (days, rest) = rota2ics::grammar::parse_week(text, &chars, 0).unwrap();
    assert_eq!(days.len(), 7);
    assert_eq!(&text[rest..], "D\n");
    assert!(rota2ics::grammar::parse_line_end(&chars, rest).is_none());
}

#[test]
fn parse_week_fails_on_six_tokens() {
    let text = "D D D D D _\n";
    let chars = rota2ics::lexical::chars_of(text);
    assert!(rota2ics::grammar::parse_week(text, &chars, 0).is_none());
}

#[test]
fn error_messages_for_every_kind() {
    assert_eq!(
        SpdError::Syntax { offset: 3 }.message(),
        "the shift pattern definition does not follow the grammar"
    );
    assert_eq!(
        SpdError::InvalidClock { hour: 25, minute: 0, second: 0 }.message(),
        "a clock time is not a valid time of day"
    );
}

#[test]
fn from_ymd_rejects_day_zero_and_day_thirty_two() {
    assert!(Date::from_ymd(2024, 1, 0).is_none());
    assert!(Date::from_ymd(2024, 1, 32).is_none());
}
