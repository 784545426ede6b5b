use vstd::prelude::*;
use crate::model::{CompleteDriverData, DriverTelemetryData, LapData};

verus! {

pub open spec fn digit_char(d: int) -> char {
    (('0' as int) + d) as char
}

/// The decimal digits of `n`, without leading zeros.
pub open spec fn decimal(n: nat) -> Seq<char>
    decreases n,
{
    if n < 10 {
        seq![digit_char(n as int)]
    } else {
        decimal(n / 10) + seq![digit_char((n % 10) as int)]
    }
}

/// The decimal digits of `n`, left-padded with zeros to `width` characters.
pub open spec fn padded(n: nat, width: nat) -> Seq<char> {
    let d = decimal(n);
    if d.len() < width {
        Seq::new((width - d.len()) as nat, |i: int| '0') + d
    } else {
        d
    }
}

/// An integer in decimal, with a minus sign when negative.
pub open spec fn signed_decimal(v: int) -> Seq<char> {
    if v < 0 {
        seq!['-'] + decimal((-v) as nat)
    } else {
        decimal(v as nat)
    }
}

/// A lap time in milliseconds as `M:SS.mmm`.
pub open spec fn lap_time_text(t: nat) -> Seq<char> {
    decimal(t / 60000) + seq![':'] + padded((t / 1000) % 60, 2) + seq!['.'] + padded(t % 1000, 3)
}

/// A sector time in milliseconds as `SS.mmm`.
pub open spec fn sector_time_text(t: nat) -> Seq<char> {
    padded((t / 1000) % 60, 2) + seq!['.'] + padded(t % 1000, 3)
}

/// A live speed as `<speed> km/h`.
pub open spec fn speed_text(speed: int) -> Seq<char> {
    signed_decimal(speed) + " km/h"@
}

/// The label of sector `k`: `Sector <k>: SS.mmm`.
pub open spec fn sector_label_text(k: nat, t: nat) -> Seq<char> {
    "Sector "@ + decimal(k) + ": "@ + sector_time_text(t)
}

fn digit_str(d: u32) -> (r: &'static str)
    requires
        d < 10,
    ensures
        r@ == seq![digit_char(d as int)],
{
    proof {
        reveal_strlit("0");
        reveal_strlit("1");
        reveal_strlit("2");
        reveal_strlit("3");
        reveal_strlit("4");
        reveal_strlit("5");
        reveal_strlit("6");
        reveal_strlit("7");
        reveal_strlit("8");
        reveal_strlit("9");
    }
    if d == 0 {
        "0"
    } else if d == 1 {
        "1"
    } else if d == 2 {
        "2"
    } else if d == 3 {
        "3"
    } else if d == 4 {
        "4"
    } else if d == 5 {
        "5"
    } else if d == 6 {
        "6"
    } else if d == 7 {
        "7"
    } else if d == 8 {
        "8"
    } else {
        "9"
    }
}

/// Appends the decimal digits of `n`.
fn push_decimal(s: &mut String, n: u32)
    ensures
        final(s)@ == old(s)@ + decimal(n as nat),
    decreases n,
{
    if n < 10 {
        s.append(digit_str(n));
    } else {
        push_decimal(s, n / 10);
        s.append(digit_str(n % 10));
        assert(final(s)@ =~= old(s)@ + decimal(n as nat));
    }
}

proof fn lemma_decimal_len(n: nat)
    ensures
        decimal(n).len() >= 1,
        n < 10 ==> decimal(n).len() == 1,
        n < 100 ==> decimal(n).len() <= 2,
        n < 1000 ==> decimal(n).len() <= 3,
    decreases n,
{
    if n >= 10 {
        lemma_decimal_len(n / 10);
    }
}

/// Appends the decimal digits of `n`, left-padded with zeros to `width`.
fn push_padded(s: &mut String, n: u32, width: usize)
    requires
        width <= 3,
        n < 1000,
    ensures
        final(s)@ == old(s)@ + padded(n as nat, width as nat),
{
    proof {
        lemma_decimal_len(n as nat);
        reveal_strlit("0");
    }
    let len: usize = if n < 10 {
        1
    } else if n < 100 {
        2
    } else {
        3
    };
    assert(decimal(n as nat).len() == len) by {
        if n >= 10 {
            lemma_decimal_len(n as nat / 10);
        }
        if n >= 100 {
            lemma_decimal_len(n as nat / 100);
        }
    }
    let ghost s0 = s@;
    let mut i: usize = len;
    while i < width
        invariant
            len <= width ==> len <= i <= width,
            len > width ==> i == len,
            s@ == s0 + Seq::new((i - len) as nat, |j: int| '0'),
        decreases width - i,
    {
        s.append("0");
        proof { reveal_strlit("0"); }
        assert(s@ =~= s0 + Seq::new((i + 1 - len) as nat, |j: int| '0'));
        i = i + 1;
    }
    push_decimal(s, n);
    assert(s@ =~= s0 + padded(n as nat, width as nat));
}

/// A lap time in milliseconds as `M:SS.mmm`.
pub fn get_str_time(time: i32) -> (r: String)
    requires
        time >= 0,
    ensures
        r@ == lap_time_text(time as nat),
{
    let t = time as u32;
    let mut s = String::new();
    push_decimal(&mut s, t / 60000);
    s.append(":");
    push_padded(&mut s, (t / 1000) % 60, 2);
    s.append(".");
    push_padded(&mut s, t % 1000, 3);
    proof {
        reveal_strlit(":");
        reveal_strlit(".");
    }
    assert(s@ =~= lap_time_text(time as nat));
    s
}

/// A sector time in milliseconds as `SS.mmm`.
pub fn time_to_sector_time_str(time: i32) -> (r: String)
    requires
        time >= 0,
    ensures
        r@ == sector_time_text(time as nat),
{
    let t = time as u32;
    let mut s = String::new();
    push_padded(&mut s, (t / 1000) % 60, 2);
    s.append(".");
    push_padded(&mut s, t % 1000, 3);
    proof {
        reveal_strlit(".");
    }
    assert(s@ =~= sector_time_text(time as nat));
    s
}

/// A live speed as `<speed> km/h`.
pub fn get_speed_str(speed: i32) -> (r: String)
    ensures
        r@ == speed_text(speed as int),
{
    let mut s = String::new();
    if speed < 0 {
        s.append("-");
        proof { reveal_strlit("-"); }
        let m: u32 = if speed == i32::MIN {
            0x8000_0000
        } else {
            (-speed) as u32
        };
        push_decimal(&mut s, m);
    } else {
        push_decimal(&mut s, speed as u32);
    }
    s.append(" km/h");
    assert(s@ =~= speed_text(speed as int));
    s
}

/// Lap and sector durations are not negative.
pub open spec fn lap_times_valid(lap: LapData) -> bool {
    &&& lap.lap_time >= 0
    &&& lap.sector1_time >= 0
    &&& lap.sector2_time >= 0
    &&& lap.sector3_time >= 0
}

/// The session time at which sector `k` was completed; never, for a sector
/// other than 1, 2 or 3.
pub open spec fn sector_session_time(lap: LapData, k: int) -> int {
    if k == 1 {
        lap.sector1_session_time as int
    } else if k == 2 {
        lap.sector2_session_time as int
    } else if k == 3 {
        lap.sector3_session_time as int
    } else {
        i64::MAX as int
    }
}

pub open spec fn sector_time(lap: LapData, k: int) -> int {
    if k == 1 {
        lap.sector1_time as int
    } else if k == 2 {
        lap.sector2_time as int
    } else if k == 3 {
        lap.sector3_time as int
    } else {
        i32::MAX as int
    }
}

/// The driver has finished once the tick reaches the series' length.
pub open spec fn finished(len: int, frame: int) -> bool {
    frame >= len
}

/// Sector `k` is shown once the current sample's session time reaches the
/// sector's completion time, or once the driver has finished.
pub open spec fn sector_revealed(tel: Seq<DriverTelemetryData>, lap: LapData, k: int, frame: int) -> bool {
    finished(tel.len() as int, frame) || tel[frame].session_time >= sector_session_time(lap, k)
}

pub open spec fn sector_label(tel: Seq<DriverTelemetryData>, lap: LapData, k: int, frame: int) -> Seq<char> {
    if sector_revealed(tel, lap, k, frame) {
        sector_label_text(k as nat, sector_time(lap, k) as nat)
    } else {
        Seq::empty()
    }
}

/// The panel's large line: the live speed while the driver runs, the lap
/// time from the tick at which the series ends.
pub open spec fn headline(tel: Seq<DriverTelemetryData>, lap: LapData, frame: int) -> Seq<char> {
    if finished(tel.len() as int, frame) {
        lap_time_text(lap.lap_time as nat)
    } else {
        speed_text(tel[frame].speed as int)
    }
}

/// Whether the driver has finished at `current_frame`.
pub fn has_finished(driver_data: &CompleteDriverData, current_frame: usize) -> (r: bool)
    ensures
        r == finished(driver_data.telemetry@.len() as int, current_frame as int),
{
    current_frame >= driver_data.telemetry.len()
}

/// The label of sector `sector`, or an empty string while it is not yet
/// revealed.
pub fn get_sector_time_str(driver_data: &CompleteDriverData, sector: u8, current_frame: usize) -> (r: String)
    requires
        lap_times_valid(driver_data.lap),
    ensures
        r@ == sector_label(driver_data.telemetry@, driver_data.lap, sector as int, current_frame as int),
{
    let lap = &driver_data.lap;
    let sector_session_time: i64 = if sector == 1 {
        lap.sector1_session_time
    } else if sector == 2 {
        lap.sector2_session_time
    } else if sector == 3 {
        lap.sector3_session_time
    } else {
        i64::MAX
    };
    let time: i32 = if sector == 1 {
        lap.sector1_time
    } else if sector == 2 {
        lap.sector2_time
    } else if sector == 3 {
        lap.sector3_time
    } else {
        i32::MAX
    };
    if current_frame >= driver_data.telemetry.len() || driver_data.telemetry[current_frame].session_time >= sector_session_time {
        let mut s = String::new();
        s.append("Sector ");
        push_decimal(&mut s, sector as u32);
        s.append(": ");
        let t = time_to_sector_time_str(time);
        s.append(t.as_str());
        assert(s@ =~= sector_label_text(sector as nat, time as nat));
        s
    } else {
        String::new()
    }
}

/// The panel's large line at `current_frame`: the live speed, or the lap
/// time once the driver has finished.
pub fn get_headline_str(driver_data: &CompleteDriverData, current_frame: usize) -> (r: String)
    requires
        lap_times_valid(driver_data.lap),
    ensures
        r@ == headline(driver_data.telemetry@, driver_data.lap, current_frame as int),
{
    if has_finished(driver_data, current_frame) {
        get_str_time(driver_data.lap.lap_time)
    } else {
        get_speed_str(driver_data.telemetry[current_frame].speed)
    }
}

/// The panel switches from the live speed to the lap time exactly at the
/// tick equal to the series' length, and never switches back.
pub proof fn lemma_headline_switch(tel: Seq<DriverTelemetryData>, lap: LapData, t1: int, t2: int)
    requires
        0 <= t1 <= t2,
    ensures
        t1 < tel.len() ==> headline(tel, lap, t1) == speed_text(tel[t1].speed as int),
        t1 >= tel.len() ==> headline(tel, lap, t1) == lap_time_text(lap.lap_time as nat),
        finished(tel.len() as int, t1) ==> finished(tel.len() as int, t2) && headline(tel, lap, t2) == headline(tel, lap, t1),
{
}

/// Session times never decrease along the series.
pub open spec fn session_times_ordered(tel: Seq<DriverTelemetryData>) -> bool {
    forall|i: int, j: int| 0 <= i <= j < tel.len() ==> (#[trigger] tel[i]).session_time <= (#[trigger] tel[j]).session_time
}

/// A sector label stays blank before the first tick whose sample's session
/// time reaches the sector's completion time (or the series' end), and
/// shows from that tick on.
pub proof fn lemma_sector_reveal(tel: Seq<DriverTelemetryData>, lap: LapData, k: int, first: int)
    requires
        session_times_ordered(tel),
        lap_times_valid(lap),
        0 <= first,
        sector_revealed(tel, lap, k, first),
        first == 0 || !sector_revealed(tel, lap, k, first - 1),
    ensures
        forall|t: int| 0 <= t < first ==> sector_label(tel, lap, k, t).len() == 0,
        forall|t: int| t >= first ==> #[trigger] sector_label(tel, lap, k, t) == sector_label_text(k as nat, sector_time(lap, k) as nat),
        sector_label_text(k as nat, sector_time(lap, k) as nat).len() > 0,
{
    assert forall|t: int| 0 <= t < first implies sector_label(tel, lap, k, t).len() == 0 by {
        if sector_revealed(tel, lap, k, t) {
            assert(first - 1 < tel.len());
            assert(tel[t].session_time <= tel[first - 1].session_time);
        }
    }
    assert forall|t: int| t >= first implies #[trigger] sector_label(tel, lap, k, t) == sector_label_text(k as nat, sector_time(lap, k) as nat) by {
        if t < tel.len() {
            assert(tel[first].session_time <= tel[t].session_time);
        }
    }
}

} // verus!
