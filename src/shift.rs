//! The data of a rotation: clock times, shifts, the days of a week table and
//! the errors of reading one.

use vstd::prelude::*;

verus! {

/// A time of day, as hour, minute and second.
#[derive(Clone, Copy, Debug, PartialEq, Eq, Structural)]
pub struct ClockTime {
    pub hour: u32,
    pub minute: u32,
    pub second: u32,
}

impl ClockTime {
    /// The time lies on a 24-hour clock.
    pub open spec fn wf(self) -> bool {
        self.hour < 24 && self.minute < 60 && self.second < 60
    }

    /// Seconds elapsed since midnight.
    pub open spec fn seconds_of_day(self) -> int {
        self.hour * 3600 + self.minute * 60 + self.second
    }

    /// The time `hour:minute:second`, or `None` where that is no time of a 24-hour clock.
    pub fn from_hms(hour: u32, minute: u32, second: u32) -> (r: Option<ClockTime>)
        ensures
            r is Some <==> (hour < 24 && minute < 60 && second < 60),
            r matches Some(t) ==> t == (ClockTime { hour, minute, second }),
    {
        if hour < 24 && minute < 60 && second < 60 {
            Some(ClockTime { hour, minute, second })
        } else {
            None
        }
    }

    /// Seconds elapsed since midnight.
    pub fn seconds_from_midnight(&self) -> (r: u32)
        requires
            self.wf(),
        ensures
            r == self.seconds_of_day(),
            r < 86400,
    {
        self.hour * 3600 + self.minute * 60 + self.second
    }
}

/// A shift: the name shown on its events, the time of day it starts and its
/// length in seconds.
#[derive(Clone, Debug)]
pub struct Shift {
    pub name: String,
    pub start_time: ClockTime,
    pub length: u64,
}

/// What a [`Shift`] holds, with its name as characters.
pub struct ShiftView {
    pub name: Seq<char>,
    pub start_time: ClockTime,
    pub length: u64,
}

/// The longest shift the format can write, in seconds: `4294967295h4294967295m`.
pub const MAX_SHIFT_LENGTH: u64 = 4294967295 * 3600 + 4294967295 * 60;

impl ShiftView {
    /// The shift starts at a time of a 24-hour clock and is no longer than the
    /// format can write.
    pub open spec fn wf(self) -> bool {
        self.start_time.wf() && self.length <= MAX_SHIFT_LENGTH
    }
}

impl View for Shift {
    type V = ShiftView;

    open spec fn view(&self) -> ShiftView {
        ShiftView { name: self.name@, start_time: self.start_time, length: self.length }
    }
}

impl DeepView for Shift {
    type V = ShiftView;

    open spec fn deep_view(&self) -> ShiftView {
        self@
    }
}

impl Shift {
    /// A copy of the shift.
    pub fn duplicate(&self) -> (r: Shift)
        ensures
            r@ == self@,
    {
        Shift { name: self.name.clone(), start_time: self.start_time, length: self.length }
    }
}

/// One day of a week table, once its shift is known.
#[derive(Clone, Debug)]
pub enum ShiftDay {
    NotWorking,
    OnShift(Shift),
}

/// What a [`ShiftDay`] holds.
pub enum DayView {
    NotWorking,
    OnShift(ShiftView),
}

/// A day is off, or a well-formed shift.
pub open spec fn day_wf(d: DayView) -> bool {
    match d {
        DayView::NotWorking => true,
        DayView::OnShift(s) => s.wf(),
    }
}

/// A rotation has at least one week, each of seven well-formed days.
pub open spec fn pattern_wf(p: Seq<Seq<DayView>>) -> bool {
    &&& p.len() >= 1
    &&& forall|a: int| 0 <= a < p.len() ==> (#[trigger] p[a]).len() == 7
    &&& forall|a: int, b: int| 0 <= a < p.len() && 0 <= b < p[a].len() ==> day_wf(#[trigger] p[a][b])
}

impl View for ShiftDay {
    type V = DayView;

    open spec fn view(&self) -> DayView {
        match self {
            ShiftDay::NotWorking => DayView::NotWorking,
            ShiftDay::OnShift(s) => DayView::OnShift(s@),
        }
    }
}

impl DeepView for ShiftDay {
    type V = DayView;

    open spec fn deep_view(&self) -> DayView {
        self@
    }
}

/// A rotation: weeks of seven days, Monday first, repeated in turn.
pub type ShiftPattern = Vec<Vec<ShiftDay>>;

/// One day of a week table as written: off, or the identifier of a shift.
#[derive(Clone, Debug)]
pub enum ParsedShiftDay {
    NotWorking,
    OnShift(String),
}

/// What a [`ParsedShiftDay`] holds.
pub enum TokenView {
    NotWorking,
    Reference(Seq<char>),
}

impl View for ParsedShiftDay {
    type V = TokenView;

    open spec fn view(&self) -> TokenView {
        match self {
            ParsedShiftDay::NotWorking => TokenView::NotWorking,
            ParsedShiftDay::OnShift(id) => TokenView::Reference(id@),
        }
    }
}

impl DeepView for ParsedShiftDay {
    type V = TokenView;

    open spec fn deep_view(&self) -> TokenView {
        self@
    }
}

/// Why a rotation could not be read.
#[derive(Clone, Debug)]
pub enum SpdError {
    /// The text does not follow the grammar; `offset` counts the characters
    /// read before the place where it stops.
    Syntax { offset: usize },
    /// A clock time has the right shape but is no time of a 24-hour clock.
    InvalidClock { hour: u32, minute: u32, second: u32 },
    /// A day of the table names a shift that no definition gives.
    UndefinedShift { name: String },
}

/// What an [`SpdError`] holds.
pub enum SpdErrorView {
    Syntax { offset: nat },
    InvalidClock { hour: u32, minute: u32, second: u32 },
    UndefinedShift { name: Seq<char> },
}

impl View for SpdError {
    type V = SpdErrorView;

    open spec fn view(&self) -> SpdErrorView {
        match self {
            SpdError::Syntax { offset } => SpdErrorView::Syntax { offset: *offset as nat },
            SpdError::InvalidClock { hour, minute, second } => SpdErrorView::InvalidClock {
                hour: *hour,
                minute: *minute,
                second: *second,
            },
            SpdError::UndefinedShift { name } => SpdErrorView::UndefinedShift { name: name@ },
        }
    }
}

impl SpdError {
    /// A sentence that describes the error; for an undefined shift it begins
    /// with the identifier.
    pub fn message(&self) -> (r: String)
        ensures
            self is Syntax ==> r@ == "the shift pattern definition does not follow the grammar"@,
            self is InvalidClock ==> r@ == "a clock time is not a valid time of day"@,
            self matches SpdError::UndefinedShift { name } ==> r@ == name@
                + " is not a defined shift pattern."@,
    {
        match self {
            SpdError::Syntax { .. } => String::from_str("the shift pattern definition does not follow the grammar"),
            SpdError::InvalidClock { .. } => String::from_str("a clock time is not a valid time of day"),
            SpdError::UndefinedShift { name } => {
                let mut m = name.clone();
                m.append(" is not a defined shift pattern.");
                m
            },
        }
    }
}

} // verus!
