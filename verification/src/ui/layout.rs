//! Where on the screen things are drawn.

use crate::app::App;
use crate::ui::rail;
use crate::ui::screen;
use crate::ui::screen::Widget;
use ratatui::layout::{Constraint, Direction, Layout, Rect};
use vstd::prelude::*;

verus! {

/// A part of the screen, in cells.
#[derive(Debug, Clone, Copy, PartialEq, Eq, Structural)]
pub struct Area {
    pub x: u16,
    pub y: u16,
    pub width: u16,
    pub height: u16,
}

impl Area {
    /// Its far edges have coordinates too.
    pub open spec fn wf(self) -> bool {
        self.x + self.width <= u16::MAX && self.y + self.height <= u16::MAX
    }

    pub open spec fn is_inside(self, outer: Area) -> bool {
        &&& outer.x <= self.x
        &&& outer.y <= self.y
        &&& self.x + self.width <= outer.x + outer.width
        &&& self.y + self.height <= outer.y + outer.height
    }
}

/// How long one part of an area is to be: so many cells, at least so many, or a
/// share of the whole in percent.
#[derive(Debug, Clone, Copy, PartialEq, Eq, Structural)]
pub enum Extent {
    Length(u16),
    Min(u16),
    Percent(u16),
}

// ---------------------------------------------------------------------------
// Splitting an area
// ---------------------------------------------------------------------------

/// The first row of the area, or its first column.
pub open spec fn start_of(a: Area, rows: bool) -> int {
    if rows {
        a.y as int
    } else {
        a.x as int
    }
}

/// How many rows the area has, or how many columns.
pub open spec fn length_of(a: Area, rows: bool) -> int {
    if rows {
        a.height as int
    } else {
        a.width as int
    }
}

/// The rows (or columns) of `a` from `from` on up to `to`, counted from its first.
pub open spec fn slice(a: Area, rows: bool, from: int, to: int) -> Area {
    if rows {
        Area { x: a.x, y: (a.y + from) as u16, width: a.width, height: (to - from) as u16 }
    } else {
        Area { x: (a.x + from) as u16, y: a.y, width: (to - from) as u16, height: a.height }
    }
}

/// `percent` of `length`, to the nearest cell; half a cell counts as a whole one.
pub open spec fn share(length: int, percent: int) -> int {
    (length * percent + 50) / 100
}

pub open spec fn percent_of(e: Extent) -> int {
    match e {
        Extent::Percent(p) => p as int,
        _ => 0,
    }
}

/// The percents of the first `n` extents together.
pub open spec fn percents_before(v: Seq<Extent>, n: int) -> int
    decreases n,
{
    if n <= 0 {
        0
    } else {
        percents_before(v, n - 1) + percent_of(v[n - 1])
    }
}

/// Shares in percent, of the whole or less.
pub open spec fn are_shares(v: Seq<Extent>) -> bool {
    &&& forall|i: int| 0 <= i < v.len() ==> #[trigger] v[i] is Percent
    &&& percents_before(v, v.len() as int) <= 100
}

/// As many cells as asked for, where there are as many.
pub open spec fn at_most(n: int, length: int) -> int {
    if n < length {
        n
    } else {
        length
    }
}

/// The parts of an area. Each lies inside it, and is as wide as it (where it is
/// split into rows) or as high (where it is split into columns). Shares lie one
/// behind the other, each edge at the nearest cell; and where one part has a
/// length and the other takes what is left, the length is met as far as the area
/// goes.
pub open spec fn is_split(parts: Seq<Area>, area: Area, rows: bool, v: Seq<Extent>) -> bool {
    let length = length_of(area, rows);
    &&& parts.len() == v.len()
    &&& forall|i: int| 0 <= i < v.len() ==> (#[trigger] parts[i]).is_inside(area)
    &&& forall|i: int|
        0 <= i < v.len() ==> if rows {
            (#[trigger] parts[i]).x == area.x && parts[i].width == area.width
        } else {
            parts[i].y == area.y && parts[i].height == area.height
        }
    &&& are_shares(v) ==> forall|i: int|
        0 <= i < v.len() ==> #[trigger] parts[i] == slice(
            area,
            rows,
            share(length, percents_before(v, i)),
            share(length, percents_before(v, i + 1)),
        )
    &&& v.len() == 2 && v[1] == Extent::Min(0) ==> (v[0] matches Extent::Length(n) ==> {
        let at = at_most(n as int, length);
        parts[0] == slice(area, rows, 0, at) && parts[1] == slice(area, rows, at, length)
    })
    &&& v.len() == 2 && v[0] == Extent::Min(0) ==> (v[1] matches Extent::Length(n) ==> {
        let at = length - at_most(n as int, length);
        parts[0] == slice(area, rows, 0, at) && parts[1] == slice(area, rows, at, length)
    })
}

/// `Layout::split`: one part for each extent, inside the area, and as wide or as
/// high as it. Shares of together no more than the whole are all met, and their
/// edges rounded to cells; so are a length and a minimum of nothing beside it,
/// the minimum growing into what is left. What comes of other lists of extents is
/// not said here: where they cannot all be met, the documentation of the solver
/// leaves the result open.
#[verifier::external_body]
fn split(area: Area, rows: bool, extents: &Vec<Extent>) -> (r: Vec<Area>)
    requires
        area.wf(),
    ensures
        is_split(r@, area, rows, extents@),
{
    let constraints = extents.iter().map(|e| match *e {
        Extent::Length(n) => Constraint::Length(n),
        Extent::Min(n) => Constraint::Min(n),
        Extent::Percent(n) => Constraint::Percentage(n),
    });
    let direction = if rows { Direction::Vertical } else { Direction::Horizontal };
    let whole = Rect { x: area.x, y: area.y, width: area.width, height: area.height };
    let parts = Layout::default().direction(direction).constraints(constraints).split(whole);
    parts.iter().map(|p| Area { x: p.x, y: p.y, width: p.width, height: p.height }).collect()
}

/// The middle `percent` of an area.
pub open spec fn middle_of(a: Area, rows: bool, percent: int) -> Area {
    let rest = (100 - percent) / 2;
    let length = length_of(a, rows);
    slice(a, rows, share(length, rest), share(length, rest + percent))
}

/// `percent_x` of the columns and `percent_y` of the rows, from the middle.
pub open spec fn centered(percent_x: int, percent_y: int, a: Area) -> Area {
    middle_of(middle_of(a, true, percent_y), false, percent_x)
}

fn middle(area: Area, rows: bool, percent: u16) -> (r: Area)
    requires
        area.wf(),
        percent <= 100,
    ensures
        r == middle_of(area, rows, percent as int),
        r.is_inside(area),
        r.wf(),
{
    let rest: u16 = (100 - percent) / 2;
    let mut extents: Vec<Extent> = Vec::new();
    extents.push(Extent::Percent(rest));
    extents.push(Extent::Percent(percent));
    extents.push(Extent::Percent(rest));
    let parts = split(area, rows, &extents);
    proof {
        reveal_with_fuel(percents_before, 4);
        assert(are_shares(extents@));
        assert(parts@[1].is_inside(area));
    }
    parts[1]
}

/// An area in the middle of another one, where a popup goes.
pub fn centered_rect(percent_x: u16, percent_y: u16, area: Area) -> (r: Area)
    requires
        area.wf(),
        percent_x <= 100,
        percent_y <= 100,
    ensures
        r == centered(percent_x as int, percent_y as int, area),
        r.is_inside(area),
        r.wf(),
{
    let row = middle(area, true, percent_y);
    middle(row, false, percent_x)
}

/// The first `n` rows (or columns), and the rest.
pub open spec fn parted(a: Area, rows: bool, n: int) -> (Area, Area) {
    let length = length_of(a, rows);
    let at = at_most(n, length);
    (slice(a, rows, 0, at), slice(a, rows, at, length))
}

/// The first part, `n` cells long, and the rest.
pub fn split_first(area: Area, rows: bool, n: u16) -> (r: (Area, Area))
    requires
        area.wf(),
    ensures
        r == parted(area, rows, n as int),
        r.0.is_inside(area) && r.0.wf(),
        r.1.is_inside(area) && r.1.wf(),
{
    let mut extents: Vec<Extent> = Vec::new();
    extents.push(Extent::Length(n));
    extents.push(Extent::Min(0));
    let parts = split(area, rows, &extents);
    assert(parts@[0].is_inside(area) && parts@[1].is_inside(area));
    (parts[0], parts[1])
}

/// All rows but the last, and the last.
pub open spec fn last_parted(a: Area) -> (Area, Area) {
    let at = a.height - at_most(1, a.height as int);
    (slice(a, true, 0, at), slice(a, true, at, a.height as int))
}

/// The rest, and the last row.
pub fn split_last_row(area: Area) -> (r: (Area, Area))
    requires
        area.wf(),
    ensures
        r == last_parted(area),
        r.0.is_inside(area) && r.0.wf(),
        r.1.is_inside(area) && r.1.wf(),
{
    let mut extents: Vec<Extent> = Vec::new();
    extents.push(Extent::Min(0));
    extents.push(Extent::Length(1));
    let parts = split(area, true, &extents);
    assert(parts@[0].is_inside(area) && parts@[1].is_inside(area));
    (parts[0], parts[1])
}

/// Column `i` of an area that is shared out in percent.
pub open spec fn column(a: Area, percents: Seq<u16>, i: int) -> Area {
    let v = shares_of(percents);
    slice(
        a,
        false,
        share(a.width as int, percents_before(v, i)),
        share(a.width as int, percents_before(v, i + 1)),
    )
}

pub open spec fn shares_of(percents: Seq<u16>) -> Seq<Extent> {
    percents.map_values(|p: u16| Extent::Percent(p))
}

/// The columns of an area, in shares of its width. Shares of more than the whole
/// cannot all be met: of those only the number of columns is known, and that they
/// lie inside the area.
pub fn columns(area: Area, percents: &Vec<u16>) -> (r: Vec<Area>)
    requires
        area.wf(),
    ensures
        r@.len() == percents@.len(),
        are_shares(shares_of(percents@)) ==> forall|i: int|
            0 <= i < r@.len() ==> #[trigger] r@[i] == column(area, percents@, i),
        forall|i: int| 0 <= i < r@.len() ==> (#[trigger] r@[i]).is_inside(area) && r@[i].wf(),
{
    let mut extents: Vec<Extent> = Vec::new();
    let mut i: usize = 0;
    while i < percents.len()
        invariant
            i <= percents@.len(),
            extents@ == shares_of(percents@.take(i as int)),
        decreases percents@.len() - i,
    {
        extents.push(Extent::Percent(percents[i]));
        i += 1;
        assert(extents@ =~= shares_of(percents@.take(i as int)));
    }
    assert(percents@.take(i as int) =~= percents@);
    split(area, false, &extents)
}

// ---------------------------------------------------------------------------
// The screen
// ---------------------------------------------------------------------------

/// How large a popup is, in percent of the screen; what is no popup has a place
/// of its own.
pub open spec fn popup_size(w: Widget, a: App) -> Option<(u16, u16)> {
    match w {
        Widget::MovePicker => Some((50, 40)),
        Widget::Confirm => Some((50, 20)),
        Widget::Attachments => Some((60, 40)),
        Widget::CategoryPicker => Some((50, 60)),
        Widget::FilePicker => Some((60, 60)),
        Widget::RsvpPrompt => match a.rsvp_prompt {
            Some(p) => if p.may_propose() {
                Some((70, 40))
            } else {
                Some((70, 20))
            },
            None => None,
        },
        Widget::LinkPrompt => Some((70, 50)),
        Widget::Help => Some((70, 80)),
        Widget::SignIn => Some((60, 30)),
        Widget::FreeBusy => Some((80, 60)),
        Widget::Backstage => Some((80, 70)),
        _ => None,
    }
}

/// How large a popup is, in percent of the screen.
pub fn size_of_popup(w: Widget, app: &App) -> (r: Option<(u16, u16)>)
    ensures
        r == popup_size(w, *app),
        r matches Some((px, py)) ==> px <= 100 && py <= 100,
{
    match w {
        Widget::MovePicker => Some((50, 40)),
        Widget::Confirm => Some((50, 20)),
        Widget::Attachments => Some((60, 40)),
        Widget::CategoryPicker => Some((50, 60)),
        Widget::FilePicker => Some((60, 60)),
        Widget::RsvpPrompt => match &app.rsvp_prompt {
            Some(p) => {
                if p.proposes() {
                    Some((70, 40))
                } else {
                    Some((70, 20))
                }
            },
            None => None,
        },
        Widget::LinkPrompt => Some((70, 50)),
        Widget::Help => Some((70, 80)),
        Widget::SignIn => Some((60, 30)),
        Widget::FreeBusy => Some((80, 60)),
        Widget::Backstage => Some((80, 70)),
        _ => None,
    }
}

/// The places of the frame round the panes.
pub struct Places {
    pub banner: Area,
    pub ribbon: Area,
    pub rail: Area,
    /// The panes together.
    pub main: Area,
    pub status: Area,
    pub folders: Area,
    pub list: Area,
    pub reading: Area,
}

impl Places {
    /// Each place is on the screen.
    pub open spec fn on(self, screen: Area) -> bool {
        &&& self.banner.is_inside(screen) && self.banner.wf()
        &&& self.ribbon.is_inside(screen) && self.ribbon.wf()
        &&& self.rail.is_inside(screen) && self.rail.wf()
        &&& self.main.is_inside(screen) && self.main.wf()
        &&& self.status.is_inside(screen) && self.status.wf()
        &&& self.folders.is_inside(screen) && self.folders.wf()
        &&& self.list.is_inside(screen) && self.list.wf()
        &&& self.reading.is_inside(screen) && self.reading.wf()
    }
}

/// The panes' shares of the columns: folders, messages, reading pane.
pub open spec fn pane_shares() -> Seq<u16> {
    seq![22, 38, 40]
}

/// How the screen is shared out: a row for the banner while there is a reminder,
/// the ribbon (one row, or `open_rows` while it is open), the rail, a status row,
/// and three panes.
pub open spec fn places_of(a: App, screen: Area, open_rows: int) -> Places {
    let reminded = a.reminder_queue@.len() > 0;
    let (banner, under_banner) = if reminded {
        parted(screen, true, 1)
    } else {
        (Area { height: 0, ..screen }, screen)
    };
    let ribbon_rows = if a.ribbon_open {
        open_rows
    } else {
        1
    };
    let (ribbon, under_ribbon) = parted(under_banner, true, ribbon_rows);
    let (rail, beside_rail) = parted(under_ribbon, false, 5);
    let (main, status) = last_parted(beside_rail);
    Places {
        banner,
        ribbon,
        rail,
        main,
        status,
        folders: column(main, pane_shares(), 0),
        list: column(main, pane_shares(), 1),
        reading: column(main, pane_shares(), 2),
    }
}

/// Shares the screen out.
pub fn places(app: &App, screen: Area, open_rows: u16) -> (r: Places)
    requires
        screen.wf(),
    ensures
        r == places_of(*app, screen, open_rows as int),
        r.on(screen),
{
    let (banner, under_banner) = if app.reminder_queue.len() > 0 {
        split_first(screen, true, 1)
    } else {
        (Area { height: 0, ..screen }, screen)
    };
    let ribbon_rows: u16 = if app.ribbon_open {
        open_rows
    } else {
        1
    };
    let (ribbon, under_ribbon) = split_first(under_banner, true, ribbon_rows);
    let (rail, beside_rail) = split_first(under_ribbon, false, rail::WIDTH);
    let (main, status) = split_last_row(beside_rail);
    let mut shares: Vec<u16> = Vec::new();
    shares.push(22);
    shares.push(38);
    shares.push(40);
    let panes = columns(main, &shares);
    proof {
        pane_shares_add_up();
        assert(shares@ =~= pane_shares());
    }
    let (folders, list, reading) = (panes[0], panes[1], panes[2]);
    assert(panes@[0].is_inside(main) && panes@[1].is_inside(main) && panes@[2].is_inside(main));
    Places { banner, ribbon, rail, main, status, folders, list, reading }
}

/// The place of something that is drawn: its own in the frame, the middle of the
/// screen for a popup, or the whole screen.
pub open spec fn place_of(w: Widget, a: App, screen: Area, p: Places) -> Area {
    match w {
        Widget::ReminderBanner => p.banner,
        Widget::Ribbon => p.ribbon,
        Widget::Rail => p.rail,
        Widget::Calendar => p.main,
        Widget::StatusBar => p.status,
        Widget::Folders => p.folders,
        Widget::MessageList => p.list,
        Widget::Search => p.list,
        Widget::Reading => p.reading,
        _ => match popup_size(w, a) {
            Some((px, py)) => centered(px as int, py as int, screen),
            None => screen,
        },
    }
}

/// The place of something that is drawn.
pub fn place(w: Widget, app: &App, screen: Area, p: &Places) -> (r: Area)
    requires
        screen.wf(),
        p.on(screen),
    ensures
        r == place_of(w, *app, screen, *p),
        r.is_inside(screen),
{
    match w {
        Widget::ReminderBanner => p.banner,
        Widget::Ribbon => p.ribbon,
        Widget::Rail => p.rail,
        Widget::Calendar => p.main,
        Widget::StatusBar => p.status,
        Widget::Folders => p.folders,
        Widget::MessageList => p.list,
        Widget::Search => p.list,
        Widget::Reading => p.reading,
        _ => match size_of_popup(w, app) {
            Some((px, py)) => centered_rect(px, py, screen),
            None => screen,
        },
    }
}

/// What is drawn and where.
pub open spec fn arranged(a: App, screen: Area, open_rows: int) -> Seq<(Widget, Area)> {
    let p = places_of(a, screen, open_rows);
    screen::drawn(a).map_values(|w: Widget| (w, place_of(w, a, screen, p)))
}

/// What is drawn and where, in order: everything that `screen::widgets` lists,
/// each inside the screen. The open ribbon takes `open_rows`.
pub fn arrangement(app: &App, screen: Area, open_rows: u16) -> (r: Vec<(Widget, Area)>)
    requires
        screen.wf(),
    ensures
        r@ == arranged(*app, screen, open_rows as int),
        forall|i: int| 0 <= i < r@.len() ==> (#[trigger] r@[i]).1.is_inside(screen),
{
    let shown = screen::widgets(app);
    let p = places(app, screen, open_rows);
    let mut out: Vec<(Widget, Area)> = Vec::new();
    let mut i: usize = 0;
    while i < shown.len()
        invariant
            i <= shown@.len(),
            shown@ == screen::drawn(*app),
            screen.wf(),
            p.on(screen),
            p == places_of(*app, screen, open_rows as int),
            out@.len() == i,
            forall|k: int|
                0 <= k < i ==> (#[trigger] out@[k]) == (
                    shown@[k],
                    place_of(shown@[k], *app, screen, p),
                ) && out@[k].1.is_inside(screen),
        decreases shown@.len() - i,
    {
        out.push((shown[i], place(shown[i], app, screen, &p)));
        i += 1;
    }
    assert(out@ =~= arranged(*app, screen, open_rows as int));
    out
}

// ---------------------------------------------------------------------------
// Laws
// ---------------------------------------------------------------------------

proof fn pane_shares_add_up()
    ensures
        are_shares(shares_of(pane_shares())),
        percents_before(shares_of(pane_shares()), 0) == 0,
        percents_before(shares_of(pane_shares()), 1) == 22,
        percents_before(shares_of(pane_shares()), 2) == 60,
        percents_before(shares_of(pane_shares()), 3) == 100,
{
    reveal_with_fuel(percents_before, 4);
}

/// The three panes stand side by side, without a gap and without overlapping, as
/// high as the room between the ribbon and the status row, and take all of its
/// columns.
pub proof fn the_panes_fill_the_middle(a: App, screen: Area, open_rows: u16)
    requires
        screen.wf(),
    ensures
        ({
            let p = places_of(a, screen, open_rows as int);
            &&& p.folders.x == p.main.x
            &&& p.list.x == p.folders.x + p.folders.width
            &&& p.reading.x == p.list.x + p.list.width
            &&& p.reading.x + p.reading.width == p.main.x + p.main.width
            &&& p.folders.y == p.main.y && p.folders.height == p.main.height
            &&& p.list.y == p.main.y && p.list.height == p.main.height
            &&& p.reading.y == p.main.y && p.reading.height == p.main.height
        }),
{
    pane_shares_add_up();
}

/// The banner, the ribbon, the panes and the status row lie one below the other,
/// and together take every row of the screen; the rail and the panes take every
/// column.
pub proof fn the_frame_fills_the_screen(a: App, screen: Area, open_rows: u16)
    requires
        screen.wf(),
    ensures
        ({
            let p = places_of(a, screen, open_rows as int);
            &&& p.banner.y == screen.y
            &&& p.ribbon.y == p.banner.y + p.banner.height
            &&& p.rail.y == p.ribbon.y + p.ribbon.height
            &&& p.main.y == p.rail.y
            &&& p.status.y == p.main.y + p.main.height
            &&& p.status.y + p.status.height == screen.y + screen.height
            &&& p.rail.x == screen.x
            &&& p.main.x == p.rail.x + p.rail.width
            &&& p.main.x + p.main.width == screen.x + screen.width
        }),
{
}

proof fn middles_are_in_the_middle(a: Area, rows: bool, percent: int)
    requires
        a.wf(),
        0 <= percent <= 100,
        percent % 2 == 0,
    ensures
        ({
            let r = middle_of(a, rows, percent);
            let before = start_of(r, rows) - start_of(a, rows);
            let behind = length_of(a, rows) - before - length_of(r, rows);
            &&& 0 <= before && 0 <= behind && -1 <= before - behind <= 1
            &&& r.wf()
            &&& start_of(r, !rows) == start_of(a, !rows)
            &&& length_of(r, !rows) == length_of(a, !rows)
        }),
{
    let rest = (100 - percent) / 2;
    let length = length_of(a, rows);
    assert(rest + percent == 100 - rest);
    assert(length * (100 - rest) == 100 * length - length * rest) by (nonlinear_arith);
    assert(0 <= length * rest <= length * 50) by (nonlinear_arith)
        requires
            0 <= rest <= 50,
            0 <= length,
    ;
}

/// A popup stands in the middle: what is left free on its two sides differs by
/// one cell at most, and so does what is left free above and below it.
pub proof fn popups_stand_in_the_middle(w: Widget, a: App, screen: Area, p: Places)
    requires
        screen.wf(),
        popup_size(w, a) is Some,
    ensures
        ({
            let r = place_of(w, a, screen, p);
            let left = r.x - screen.x;
            let right = screen.x + screen.width - (r.x + r.width);
            let above = r.y - screen.y;
            let below = screen.y + screen.height - (r.y + r.height);
            &&& 0 <= left && 0 <= right && -1 <= left - right <= 1
            &&& 0 <= above && 0 <= below && -1 <= above - below <= 1
        }),
{
    let (px, py) = popup_size(w, a).unwrap();
    middles_are_in_the_middle(screen, true, py as int);
    middles_are_in_the_middle(middle_of(screen, true, py as int), false, px as int);
}

}
