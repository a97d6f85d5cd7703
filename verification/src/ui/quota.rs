//! The panel of rate limits: one column per program.
use super::layout::{less, Area};
use crate::app::RateLimitInfo;
use crate::model::Real;
use crate::text::case::{same_but_case, same_ignoring_case, to_upper, uppercase};
use crate::text::number::{decimal, push_decimal};
use vstd::prelude::*;
use vstd::string::*;

verus! {

/// Data are out of date when they are older than this many seconds.
pub const STALE_SECS: u64 = 600;

/// The words of the panel, in the user's language.
#[derive(Debug)]
pub struct QuotaLabels {
    /// Stands before a countdown.
    pub within: String,
    pub second: String,
    pub minute: String,
    pub hour: String,
    pub day: String,
    pub no_data: String,
    /// The program whose data are had by a setup.
    pub setup_source: String,
    /// How data are had for that program.
    pub setup_hint: String,
    /// How data are had for any other program.
    pub codex_hint: String,
    pub five_hours: String,
    pub seven_days: String,
}

/// The time until a reset, in its two largest units; nothing for a reset that has
/// passed. Both times are in Unix-epoch seconds.
pub open spec fn countdown(reset_ts: u64, now: u64, l: QuotaLabels) -> Seq<char> {
    let diff = reset_ts - now;
    if diff <= 0 {
        Seq::empty()
    } else if diff < 60 {
        l.within@ + " "@ + decimal(diff as nat) + l.second@
    } else if diff < 3600 {
        l.within@ + " "@ + decimal((diff / 60) as nat) + l.minute@
    } else if diff < 86400 {
        l.within@ + " "@ + decimal((diff / 3600) as nat) + l.hour@ + " "@ + decimal(
            (diff % 3600 / 60) as nat,
        ) + l.minute@
    } else {
        l.within@ + " "@ + decimal((diff / 86400) as nat) + l.day@ + " "@ + decimal(
            (diff % 86400 / 3600) as nat,
        ) + l.hour@
    }
}

/// The time until a reset.
pub fn format_reset_time(reset_ts: u64, now: u64, l: &QuotaLabels) -> (r: String)
    ensures
        r@ == countdown(reset_ts, now, *l),
{
    if reset_ts <= now {
        return String::new();
    }
    let diff = reset_ts - now;
    let mut out = l.within.clone();
    out.append(" ");
    if diff < 60 {
        push_decimal(&mut out, diff);
        out.append(l.second.as_str());
    } else if diff < 3600 {
        push_decimal(&mut out, diff / 60);
        out.append(l.minute.as_str());
    } else if diff < 86400 {
        push_decimal(&mut out, diff / 3600);
        out.append(l.hour.as_str());
        out.append(" ");
        push_decimal(&mut out, diff % 3600 / 60);
        out.append(l.minute.as_str());
    } else {
        push_decimal(&mut out, diff / 86400);
        out.append(l.day.as_str());
        out.append(" ");
        push_decimal(&mut out, diff % 86400 / 3600);
        out.append(l.hour.as_str());
    }
    out
}

/// A countdown is shown for a reset that is yet to come, and for no other.
pub proof fn law_countdown_is_for_the_future(reset_ts: u64, now: u64, l: QuotaLabels)
    ensures
        countdown(reset_ts, now, l).len() > 0 <==> reset_ts > now,
{
    reveal_strlit(" ");
}

/// Whether data are out of date.
pub open spec fn is_stale(updated_at: Option<u64>, now: u64) -> bool {
    updated_at is Some && now - updated_at->Some_0 > STALE_SECS
}

/// Whether data are out of date.
pub fn stale(updated_at: Option<u64>, now: u64) -> (r: bool)
    ensures
        r == is_stale(updated_at, now),
{
    match updated_at {
        Some(ts) => now.saturating_sub(ts) > STALE_SECS,
        None => false,
    }
}

/// The position of the first of the limits that are a program's.
pub open spec fn limit_index(limits: Seq<RateLimitInfo>, source: Seq<char>) -> Option<int>
    decreases limits.len(),
{
    if limits.len() == 0 {
        None
    } else {
        match limit_index(limits.drop_last(), source) {
            Some(i) => Some(i),
            None => if same_but_case(limits.last().source@, source) {
                Some(limits.len() - 1)
            } else {
                None
            },
        }
    }
}

/// The first of the limits that are a program's; the case of letters does not matter.
pub fn find_limit<'a>(limits: &'a Vec<RateLimitInfo>, source: &str) -> (r: Option<&'a RateLimitInfo>)
    ensures
        match r {
            Some(l) => limit_index(limits@, source@) matches Some(i) && 0 <= i < limits@.len() && *l
                == limits@[i],
            None => limit_index(limits@, source@) is None,
        },
{
    let mut i: usize = 0;
    while i < limits.len()
        invariant
            i <= limits@.len(),
            limit_index(limits@.take(i as int), source@) is None,
        decreases limits@.len() - i,
    {
        assert(limits@.take(i + 1).drop_last() =~= limits@.take(i as int));
        assert(limits@.take(i + 1).last() == limits@[i as int]);
        if same_ignoring_case(limits[i].source.as_str(), source) {
            proof {
                lemma_limit_index(limits@, source@, i + 1);
            }
            return Some(&limits[i]);
        }
        i += 1;
    }
    assert(limits@.take(i as int) =~= limits@);
    None
}

proof fn lemma_limit_index(limits: Seq<RateLimitInfo>, source: Seq<char>, k: int)
    requires
        0 <= k <= limits.len(),
        limit_index(limits.take(k), source) is Some,
    ensures
        limit_index(limits, source) == limit_index(limits.take(k), source),
    decreases limits.len() - k,
{
    if k < limits.len() {
        assert(limits.take(k + 1).drop_last() =~= limits.take(k));
        lemma_limit_index(limits, source, k + 1);
    } else {
        assert(limits.take(k) =~= limits);
    }
}

/// A row of a column.
#[derive(Debug)]
pub enum QuotaRow {
    /// The program's name, dimmed when its data are out of date.
    Title { text: String, dimmed: bool },
    /// There are no data.
    NoData(String),
    /// How data are had.
    Hint(String),
    /// What is left of a window, behind its name. `used` is the used share in percent.
    Meter { label: String, used: Real },
    /// The time until a window resets; blank where there is none to show, so that the
    /// columns line up.
    Reset(String),
}

pub ghost enum QuotaRowModel {
    Title { text: Seq<char>, dimmed: bool },
    NoData(Seq<char>),
    Hint(Seq<char>),
    Meter { label: Seq<char>, used: Real },
    Reset(Seq<char>),
}

impl View for QuotaRow {
    type V = QuotaRowModel;

    open spec fn view(&self) -> QuotaRowModel {
        match self {
            QuotaRow::Title { text, dimmed } => QuotaRowModel::Title { text: text@, dimmed: *dimmed },
            QuotaRow::NoData(text) => QuotaRowModel::NoData(text@),
            QuotaRow::Hint(text) => QuotaRowModel::Hint(text@),
            QuotaRow::Meter { label, used } => QuotaRowModel::Meter { label: label@, used: *used },
            QuotaRow::Reset(text) => QuotaRowModel::Reset(text@),
        }
    }
}

/// The countdown of a window whose data are not out of date, behind two spaces.
pub open spec fn reset_row(resets_at: Option<u64>, fresh: bool, now: u64, l: QuotaLabels) -> Seq<char> {
    if fresh && resets_at is Some && countdown(resets_at->Some_0, now, l).len() > 0 {
        "  "@ + countdown(resets_at->Some_0, now, l)
    } else {
        Seq::empty()
    }
}

/// The rows of a window: its meter and its countdown, where its used share is known.
pub open spec fn window_rows(
    name: Seq<char>,
    used: Option<Real>,
    resets_at: Option<u64>,
    fresh: bool,
    now: u64,
    l: QuotaLabels,
) -> Seq<QuotaRowModel> {
    match used {
        Some(u) => seq![
            QuotaRowModel::Meter { label: " "@ + name, used: u },
            QuotaRowModel::Reset(reset_row(resets_at, fresh, now, l)),
        ],
        None => Seq::empty(),
    }
}

/// How the data of a program are had. The case of letters does not matter.
pub open spec fn hint_for(source: Seq<char>, l: QuotaLabels) -> Seq<char> {
    if same_but_case(source, l.setup_source@) {
        l.setup_hint@
    } else {
        l.codex_hint@
    }
}

/// The rows of a program without data. `name` is its name in upper case.
pub open spec fn empty_column(source: Seq<char>, name: Seq<char>, l: QuotaLabels) -> Seq<QuotaRowModel> {
    seq![
        QuotaRowModel::Title { text: " "@ + name, dimmed: false },
        QuotaRowModel::NoData("  — "@ + l.no_data@),
        QuotaRowModel::Hint(" "@ + hint_for(source, l)),
    ]
}

/// The rows of a program with data. `name` is its name in upper case.
pub open spec fn full_column(
    rl: RateLimitInfo,
    name: Seq<char>,
    now: u64,
    l: QuotaLabels,
) -> Seq<QuotaRowModel> {
    let dimmed = is_stale(rl.updated_at, now);
    seq![QuotaRowModel::Title { text: " "@ + name, dimmed }] + window_rows(
        l.five_hours@,
        rl.five_hour_pct,
        rl.five_hour_resets_at,
        !dimmed,
        now,
        l,
    ) + window_rows(l.seven_days@, rl.seven_day_pct, rl.seven_day_resets_at, !dimmed, now, l)
}

/// The views of a list of rows.
pub open spec fn row_models(v: Seq<QuotaRow>) -> Seq<QuotaRowModel> {
    v.map_values(|r: QuotaRow| r@)
}

fn spaced(text: &str) -> (r: String)
    ensures
        r@ == " "@ + text@,
{
    let mut out = " ".to_owned();
    out.append(text);
    out
}

fn push_window(
    out: &mut Vec<QuotaRow>,
    name: &str,
    used: Option<Real>,
    resets_at: Option<u64>,
    fresh: bool,
    now: u64,
    l: &QuotaLabels,
)
    ensures
        row_models(final(out)@) == row_models(old(out)@) + window_rows(
            name@,
            used,
            resets_at,
            fresh,
            now,
            *l,
        ),
{
    match used {
        Some(u) => {
            let reset = match resets_at {
                Some(ts) => if fresh {
                    format_reset_time(ts, now, l)
                } else {
                    String::new()
                },
                None => String::new(),
            };
            let row = if reset.as_str().is_empty() {
                String::new()
            } else {
                let mut text = "  ".to_owned();
                text.append(reset.as_str());
                text
            };
            out.push(QuotaRow::Meter { label: spaced(name), used: u });
            out.push(QuotaRow::Reset(row));
        },
        None => {},
    }
    assert(row_models(out@) =~= row_models(old(out)@) + window_rows(name@, used, resets_at, fresh, now, *l));
}

/// The rows of a program without data. `name` is its name in upper case.
pub fn rows_without_data(source: &str, name: &str, l: &QuotaLabels) -> (r: Vec<QuotaRow>)
    ensures
        row_models(r@) == empty_column(source@, name@, *l),
{
    let mut out: Vec<QuotaRow> = Vec::new();
    out.push(QuotaRow::Title { text: spaced(name), dimmed: false });
    let mut none = "  — ".to_owned();
    none.append(l.no_data.as_str());
    out.push(QuotaRow::NoData(none));
    if same_ignoring_case(source, l.setup_source.as_str()) {
        out.push(QuotaRow::Hint(spaced(l.setup_hint.as_str())));
    } else {
        out.push(QuotaRow::Hint(spaced(l.codex_hint.as_str())));
    }
    assert(row_models(out@) =~= empty_column(source@, name@, *l));
    out
}

/// The rows of a program with data. `name` is its name in upper case.
pub fn rows_with_data(rl: &RateLimitInfo, name: &str, now: u64, l: &QuotaLabels) -> (r: Vec<QuotaRow>)
    ensures
        row_models(r@) == full_column(*rl, name@, now, *l),
{
    let dimmed = stale(rl.updated_at, now);
    let mut out: Vec<QuotaRow> = Vec::new();
    out.push(QuotaRow::Title { text: spaced(name), dimmed });
    assert(row_models(out@) =~= seq![QuotaRowModel::Title { text: " "@ + name@, dimmed }]);
    push_window(
        &mut out,
        l.five_hours.as_str(),
        rl.five_hour_pct,
        rl.five_hour_resets_at,
        !dimmed,
        now,
        l,
    );
    push_window(
        &mut out,
        l.seven_days.as_str(),
        rl.seven_day_pct,
        rl.seven_day_resets_at,
        !dimmed,
        now,
        l,
    );
    out
}

/// The rows of a program's column. `rl` are its limits, if they are known.
pub fn column_rows(source: &str, rl: Option<&RateLimitInfo>, now: u64, l: &QuotaLabels) -> (r: Vec<
    QuotaRow,
>)
    ensures
        row_models(r@) == (match rl {
            Some(limits) => full_column(*limits, uppercase(limits.source@), now, *l),
            None => empty_column(source@, uppercase(source@), *l),
        }),
{
    match rl {
        Some(limits) => {
            let name = to_upper(limits.source.as_str());
            rows_with_data(limits, name.as_str(), now, l)
        },
        None => {
            let name = to_upper(source);
            rows_without_data(source, name.as_str(), l)
        },
    }
}

/// The inside of the panel: without its frame.
pub open spec fn is_inner(r: Area, panel: Area) -> bool {
    &&& r.x == panel.x + 1
    &&& r.y == panel.y + 1
    &&& r.width == less(panel.width as int, 2)
    &&& r.height == less(panel.height as int, 2)
}

/// The inside of the panel.
pub fn inner_area(panel: &Area) -> (r: Area)
    requires
        panel.x < u16::MAX,
        panel.y < u16::MAX,
    ensures
        is_inner(r, *panel),
{
    Area {
        x: panel.x + 1,
        y: panel.y + 1,
        width: panel.width.saturating_sub(2),
        height: panel.height.saturating_sub(2),
    }
}

/// The place of one of `count` columns: the columns share the width, the last one has
/// what is left over, and the last row stays free.
pub open spec fn is_column(r: Area, inner: Area, column: int, count: int) -> bool {
    let w = inner.width as int / count;
    &&& r.x == inner.x + column * w
    &&& r.y == inner.y
    &&& r.width == if column == count - 1 {
        inner.width - column * w
    } else {
        w
    }
    &&& r.height == less(inner.height as int, 1)
}

/// The place of one of `count` columns.
pub fn column_area(inner: &Area, column: u16, count: u16) -> (r: Area)
    requires
        column < count,
        inner.x + column * (inner.width as int / count as int) <= u16::MAX,
    ensures
        is_column(r, *inner, column as int, count as int),
{
    let w = inner.width / count;
    assert(0 <= column * w <= inner.width) by (nonlinear_arith)
        requires
            0 <= column < count,
            w == inner.width as int / count as int,
            0 <= inner.width,
    ;
    let offset = column * w;
    Area {
        x: inner.x + offset,
        y: inner.y,
        width: if column == count - 1 {
            inner.width - offset
        } else {
            w
        },
        height: inner.height.saturating_sub(1),
    }
}

/// The columns lie side by side and fill the width of the panel.
pub proof fn law_columns_fill_the_panel(inner: Area, places: Seq<Area>, column: int)
    requires
        0 <= column < places.len(),
        forall|i: int|
            0 <= i < places.len() ==> is_column(#[trigger] places[i], inner, i, places.len() as int),
    ensures
        column == 0 ==> places[column].x == inner.x,
        column + 1 < places.len() ==> places[column].x + places[column].width == places[column + 1].x,
        column + 1 == places.len() ==> places[column].x + places[column].width == inner.x + inner.width,
{
    let w = inner.width as int / places.len() as int;
    assert(is_column(places[column], inner, column, places.len() as int));
    assert(column == 0 ==> column * w == 0) by (nonlinear_arith);
    if column + 1 < places.len() {
        assert(is_column(places[column + 1], inner, column + 1, places.len() as int));
        assert((column + 1) * w == column * w + w) by (nonlinear_arith);
    }
}

/// The place of the totals: the row below the columns.
pub fn totals_area(inner: &Area) -> (r: Area)
    requires
        inner.y + less(inner.height as int, 1) <= u16::MAX,
    ensures
        r.x == inner.x,
        r.y == inner.y + less(inner.height as int, 1),
        r.width == inner.width,
        r.height == 1,
{
    Area {
        x: inner.x,
        y: inner.y + inner.height.saturating_sub(1),
        width: inner.width,
        height: 1,
    }
}

/// The width of a meter in a column: ten cells less than the column, and from two to
/// eight cells.
pub fn bar_width(column_width: u16) -> (r: usize)
    ensures
        r == (if column_width <= 12 {
            2
        } else if column_width >= 18 {
            8
        } else {
            column_width - 10
        }),
{
    let w = column_width.saturating_sub(10) as usize;
    if w < 2 {
        2
    } else if w > 8 {
        8
    } else {
        w
    }
}

/// A countdown is told in its two largest units: days and hours, hours and minutes, minutes,
/// or seconds.
pub proof fn law_countdown_has_two_units(
    reset_ts: u64,
    now: u64,
    l: QuotaLabels,
    days: nat,
    hours: nat,
    minutes: nat,
    seconds: nat,
)
    requires
        reset_ts == now + days * 86400 + hours * 3600 + minutes * 60 + seconds,
        reset_ts > now,
        hours < 24,
        minutes < 60,
        seconds < 60,
    ensures
        ({
            let text = countdown(reset_ts, now, l);
            let head = l.within@ + seq![' '];
            &&& days > 0 ==> text == head + decimal(days) + l.day@ + seq![' '] + decimal(hours)
                + l.hour@
            &&& days == 0 && hours > 0 ==> text == head + decimal(hours) + l.hour@ + seq![' ']
                + decimal(minutes) + l.minute@
            &&& days == 0 && hours == 0 && minutes > 0 ==> text == head + decimal(minutes)
                + l.minute@
            &&& days == 0 && hours == 0 && minutes == 0 ==> text == head + decimal(seconds)
                + l.second@
        }),
{
    reveal_strlit(" ");
    assert(" "@ =~= seq![' ']);
    let diff = reset_ts - now;
    assert(diff == days * 86400 + hours * 3600 + minutes * 60 + seconds);
    if days > 0 {
        assert(diff / 86400 == days);
        assert(diff % 86400 == hours * 3600 + minutes * 60 + seconds);
        assert(diff % 86400 / 3600 == hours);
    } else if hours > 0 {
        assert(diff / 3600 == hours);
        assert(diff % 3600 == minutes * 60 + seconds);
        assert(diff % 3600 / 60 == minutes);
    } else {
        assert(diff / 60 == minutes);
    }
}

/// Data are out of date after ten minutes; data of an unknown time are not.
pub proof fn law_data_go_stale(updated_at: u64, now: u64)
    ensures
        is_stale(Some(updated_at), now) <==> now > updated_at + 600,
        !is_stale(None, now),
{
}

/// The limits of a program are the first ones under its name, whatever its case.
pub proof fn law_first_limits_are_found(limits: Seq<RateLimitInfo>, source: Seq<char>, k: int)
    requires
        0 <= k <= limits.len(),
        forall|i: int| 0 <= i < k ==> !same_but_case((#[trigger] limits[i]).source@, source),
        k < limits.len() ==> same_but_case(limits[k].source@, source),
    ensures
        k < limits.len() ==> limit_index(limits, source) == Some(k),
        k == limits.len() ==> limit_index(limits, source) is None,
    decreases limits.len(),
{
    if limits.len() > 0 {
        let front = limits.drop_last();
        if k < limits.len() - 1 {
            assert forall|i: int| 0 <= i < k implies !same_but_case(
                (#[trigger] front[i]).source@,
                source,
            ) by {
                assert(front[i] == limits[i]);
            }
            law_first_limits_are_found(front, source, k);
        } else {
            assert forall|i: int| 0 <= i < front.len() implies !same_but_case(
                (#[trigger] front[i]).source@,
                source,
            ) by {
                assert(front[i] == limits[i]);
            }
            law_first_limits_are_found(front, source, front.len() as int);
            if k == limits.len() {
                assert(!same_but_case(limits[limits.len() - 1].source@, source));
            }
        }
    }
}

/// A program without data has its name, that there are none, and how they are had.
pub proof fn law_empty_column(source: Seq<char>, name: Seq<char>, l: QuotaLabels)
    ensures
        empty_column(source, name, l).len() == 3,
        empty_column(source, name, l)[0] == (QuotaRowModel::Title {
            text: seq![' '] + name,
            dimmed: false,
        }),
        empty_column(source, name, l)[1] == QuotaRowModel::NoData("  — "@ + l.no_data@),
        same_but_case(source, l.setup_source@) ==> empty_column(source, name, l)[2]
            == QuotaRowModel::Hint(seq![' '] + l.setup_hint@),
        !same_but_case(source, l.setup_source@) ==> empty_column(source, name, l)[2]
            == QuotaRowModel::Hint(seq![' '] + l.codex_hint@),
{
    reveal_strlit(" ");
    assert(" "@ =~= seq![' ']);
}

/// A program with data has its name, dimmed where they are out of date, and a meter and a
/// countdown for each window whose used share is known. Data that are out of date have no
/// countdown, nor has a reset that has passed.
pub proof fn law_full_column(rl: RateLimitInfo, name: Seq<char>, now: u64, l: QuotaLabels)
    ensures
        ({
            let rows = full_column(rl, name, now, l);
            let fresh = rl.updated_at is None || now <= rl.updated_at->Some_0 + 600;
            let shown = |resets_at: Option<u64>|
                if fresh && resets_at is Some && resets_at->Some_0 > now {
                    QuotaRowModel::Reset(seq![' ', ' '] + countdown(resets_at->Some_0, now, l))
                } else {
                    QuotaRowModel::Reset(Seq::empty())
                };
            let five = if rl.five_hour_pct is Some {
                2int
            } else {
                0
            };
            let seven = if rl.seven_day_pct is Some {
                2int
            } else {
                0
            };
            &&& rows.len() == 1 + five + seven
            &&& rows[0] == (QuotaRowModel::Title { text: seq![' '] + name, dimmed: !fresh })
            &&& rl.five_hour_pct matches Some(used) ==> rows[1] == (QuotaRowModel::Meter {
                label: seq![' '] + l.five_hours@,
                used,
            }) && rows[2] == shown(rl.five_hour_resets_at)
            &&& rl.seven_day_pct matches Some(used) ==> rows[1 + five] == (QuotaRowModel::Meter {
                label: seq![' '] + l.seven_days@,
                used,
            }) && rows[2 + five] == shown(rl.seven_day_resets_at)
        }),
{
    reveal_strlit(" ");
    reveal_strlit("  ");
    assert(" "@ =~= seq![' ']);
    assert("  "@ =~= seq![' ', ' ']);
    if rl.five_hour_resets_at is Some {
        law_countdown_is_for_the_future(rl.five_hour_resets_at->Some_0, now, l);
    }
    if rl.seven_day_resets_at is Some {
        law_countdown_is_for_the_future(rl.seven_day_resets_at->Some_0, now, l);
    }
}

/// The columns have the height of the panel but for one row, which is that of the totals;
/// all columns but the last are equally wide.
pub proof fn law_columns_leave_a_row(inner: Area, place: Area, column: int, count: int)
    requires
        is_column(place, inner, column, count),
        0 <= column < count,
    ensures
        place.y == inner.y,
        inner.height > 0 ==> place.height == inner.height - 1,
        column < count - 1 ==> place.width * count <= inner.width < place.width * count + count,
{
    if column < count - 1 {
        let w = inner.width as int;
        assert((w / count) * count <= w < (w / count) * count + count) by (nonlinear_arith)
            requires
                count > 0,
                w >= 0,
        ;
    }
}

/// The inside of the panel lies within its frame.
pub proof fn law_inner_lies_within(r: Area, panel: Area)
    requires
        is_inner(r, panel),
        panel.width >= 2,
        panel.height >= 2,
    ensures
        r.x == panel.x + 1,
        r.x + r.width == panel.x + panel.width - 1,
        r.y == panel.y + 1,
        r.y + r.height == panel.y + panel.height - 1,
{
}

/// A row shows its own parts.
pub proof fn law_row_shows_its_parts(text: String, dimmed: bool, used: Real)
    ensures
        (QuotaRow::Title { text, dimmed })@ == (QuotaRowModel::Title { text: text@, dimmed }),
        QuotaRow::NoData(text)@ == QuotaRowModel::NoData(text@),
        QuotaRow::Hint(text)@ == QuotaRowModel::Hint(text@),
        (QuotaRow::Meter { label: text, used })@ == (QuotaRowModel::Meter { label: text@, used }),
        QuotaRow::Reset(text)@ == QuotaRowModel::Reset(text@),
{
}

} // verus!
