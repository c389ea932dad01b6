//! The ribbon: its tabs, their groups of buttons, and what each button stands
//! for.

use vstd::prelude::*;

verus! {

/// Where the ribbon's focus is.
#[derive(Debug, Clone, Copy, PartialEq, Eq, Structural)]
pub enum Focus {
    Off,
    Tab(usize),
    Button(usize),
}

#[derive(Debug, Clone, Copy, PartialEq, Eq, Structural)]
pub enum Dir {
    Left,
    Right,
    Up,
    Down,
}

/// A ribbon command.
#[derive(Debug, Clone, Copy, PartialEq, Eq)]
pub enum Act {
    // Home, over the mail
    Compose,
    Reply,
    ReplyAll,
    Forward,
    Delete,
    Flag,
    MarkRead,
    MarkUnread,
    Move,
    Categorize,
    Find,
    // Home, over the calendar
    NewEvent,
    EditEvent,
    DeleteEvent,
    RsvpAccept,
    RsvpDecline,
    RsvpTentative,
    // Send / Receive
    SendReceive,
    // Folder
    ExpandAll,
    CollapseAll,
    // View
    Threaded,
    CategoryFilter,
    // Help
    Help,
    /// Not there yet; the feature's name, for the hint.
    Todo(&'static str),
}

/// A piece of a row: a button with its label, the columns it takes, what it does
/// and its hint; or a gap.
#[derive(Debug, Clone, Copy, PartialEq, Eq)]
pub enum Seg {
    Btn { label: &'static str, width: usize, act: Act, hint: &'static str },
    Gap(&'static str),
}

/// A titled group of two rows of buttons.
#[derive(Debug, PartialEq, Eq)]
pub struct Group {
    pub title: &'static str,
    pub width: usize,
    pub rows: (Vec<Seg>, Vec<Seg>),
}

/// The Home tab, whose buttons follow the mode.
pub const HOME_TAB: usize = 1;

/// A group's title, width and two rows.
pub type Outline = (&'static str, int, Seq<Seg>, Seq<Seg>);

pub open spec fn outline(g: Group) -> Outline {
    (g.title, g.width as int, g.rows.0@, g.rows.1@)
}

pub open spec fn outlines(v: Seq<Group>) -> Seq<Outline> {
    v.map_values(|g: Group| outline(g))
}

pub open spec fn button(label: &'static str, width: usize, act: Act, hint: &'static str) -> Seg {
    Seg::Btn { label, width, act, hint }
}

/// The Home tab over the calendar.
pub open spec fn calendar_home() -> Seq<Outline> {
    seq![
        (
            "New",
            3int,
            seq![button("New", 3, Act::NewEvent, "New event (c)")],
            Seq::<Seg>::empty(),
        ),
        (
            "Event",
            8int,
            seq![
                button("Edit", 4, Act::EditEvent, "Edit event (e)"),
                Seg::Gap(" "),
                button("Del", 3, Act::DeleteEvent, "Delete event (x)"),
            ],
            Seq::<Seg>::empty(),
        ),
        (
            "RSVP",
            7int,
            seq![
                button("Acc", 3, Act::RsvpAccept, "Accept (a)"),
                Seg::Gap(" "),
                button("Dec", 3, Act::RsvpDecline, "Decline (d)"),
            ],
            seq![button("Tent", 4, Act::RsvpTentative, "Tentative (t)")],
        ),
    ]
}

/// The Home tab over the mail.
pub open spec fn mail_home() -> Seq<Outline> {
    seq![
        (
            "New",
            3int,
            seq![button("New", 3, Act::Compose, "New message (c)")],
            Seq::<Seg>::empty(),
        ),
        (
            "Respond",
            9int,
            seq![
                button("Reply", 5, Act::Reply, "Reply (r)"),
                Seg::Gap(" "),
                button("All", 3, Act::ReplyAll, "Reply all (R)"),
            ],
            seq![button("Fwd", 3, Act::Forward, "Forward (F)")],
        ),
        (
            "Manage",
            13int,
            seq![
                button("Del", 3, Act::Delete, "Delete (d)"),
                Seg::Gap(" "),
                button("Flag", 4, Act::Flag, "Flag (f)"),
                Seg::Gap(" "),
                button("Read", 4, Act::MarkRead, "Mark read (m)"),
            ],
            seq![
                button("Unread", 6, Act::MarkUnread, "Mark unread (u)"),
                Seg::Gap(" "),
                button("Move", 4, Act::Move, "Move to folder (v)"),
            ],
        ),
        (
            "Tools",
            5int,
            seq![button("Label", 5, Act::Categorize, "Categorize (l)")],
            seq![button("Find", 4, Act::Find, "Search (/)")],
        ),
    ]
}

/// The groups of a tab; the File tab has none.
pub open spec fn groups_of(tab: int, calendar: bool) -> Seq<Outline> {
    if tab == 1 {
        if calendar {
            calendar_home()
        } else {
            mail_home()
        }
    } else if tab == 2 {
        seq![
            (
                "Sync",
                14int,
                seq![button("Send & Receive", 14, Act::SendReceive, "Sync mail and calendar now")],
                Seq::<Seg>::empty(),
            ),
        ]
    } else if tab == 3 {
        seq![
            (
                "Tree",
                10int,
                seq![button("Expand All", 10, Act::ExpandAll, "Expand every folder")],
                seq![button("Collapse", 8, Act::CollapseAll, "Collapse every folder")],
            ),
        ]
    } else if tab == 4 {
        seq![
            (
                "Layout",
                8int,
                seq![button("Threaded", 8, Act::Threaded, "Toggle threaded/flat view (t)")],
                seq![button("Filter", 6, Act::CategoryFilter, "Filter by category (L)")],
            ),
        ]
    } else if tab == 5 {
        seq![
            (
                "Help",
                9int,
                seq![button("Shortcuts", 9, Act::Help, "Keyboard shortcuts (F1)")],
                seq![button("About", 5, Act::Todo("About"), "About lookxy")],
            ),
        ]
    } else {
        Seq::empty()
    }
}

fn btn(label: &'static str, width: usize, act: Act, hint: &'static str) -> (r: Seg)
    ensures
        r == button(label, width, act, hint),
{
    Seg::Btn { label, width, act, hint }
}

fn group(title: &'static str, width: usize, top: Vec<Seg>, bottom: Vec<Seg>) -> (r: Group)
    ensures
        outline(r) == (title, width as int, top@, bottom@),
{
    Group { title, width, rows: (top, bottom) }
}

fn calendar_groups() -> (r: Vec<Group>)
    ensures
        outlines(r@) =~~= calendar_home(),
{
    vec![
        group("New", 3, vec![btn("New", 3, Act::NewEvent, "New event (c)")], Vec::new()),
        group(
            "Event",
            8,
            vec![
                btn("Edit", 4, Act::EditEvent, "Edit event (e)"),
                Seg::Gap(" "),
                btn("Del", 3, Act::DeleteEvent, "Delete event (x)"),
            ],
            Vec::new(),
        ),
        group(
            "RSVP",
            7,
            vec![
                btn("Acc", 3, Act::RsvpAccept, "Accept (a)"),
                Seg::Gap(" "),
                btn("Dec", 3, Act::RsvpDecline, "Decline (d)"),
            ],
            vec![btn("Tent", 4, Act::RsvpTentative, "Tentative (t)")],
        ),
    ]
}

fn mail_groups() -> (r: Vec<Group>)
    ensures
        outlines(r@) =~~= mail_home(),
{
    vec![
        group("New", 3, vec![btn("New", 3, Act::Compose, "New message (c)")], Vec::new()),
        group(
            "Respond",
            9,
            vec![
                btn("Reply", 5, Act::Reply, "Reply (r)"),
                Seg::Gap(" "),
                btn("All", 3, Act::ReplyAll, "Reply all (R)"),
            ],
            vec![btn("Fwd", 3, Act::Forward, "Forward (F)")],
        ),
        group(
            "Manage",
            13,
            vec![
                btn("Del", 3, Act::Delete, "Delete (d)"),
                Seg::Gap(" "),
                btn("Flag", 4, Act::Flag, "Flag (f)"),
                Seg::Gap(" "),
                btn("Read", 4, Act::MarkRead, "Mark read (m)"),
            ],
            vec![
                btn("Unread", 6, Act::MarkUnread, "Mark unread (u)"),
                Seg::Gap(" "),
                btn("Move", 4, Act::Move, "Move to folder (v)"),
            ],
        ),
        group(
            "Tools",
            5,
            vec![btn("Label", 5, Act::Categorize, "Categorize (l)")],
            vec![btn("Find", 4, Act::Find, "Search (/)")],
        ),
    ]
}

/// The Home tab's groups: mail actions, or event actions over the calendar.
pub fn home_groups(calendar: bool) -> (r: Vec<Group>)
    ensures
        outlines(r@) =~~= groups_of(1, calendar),
{
    if calendar {
        calendar_groups()
    } else {
        mail_groups()
    }
}

pub fn send_receive_groups() -> (r: Vec<Group>)
    ensures
        forall|calendar: bool| outlines(r@) =~~= #[trigger] groups_of(2, calendar),
{
    vec![
        group(
            "Sync",
            14,
            vec![btn("Send & Receive", 14, Act::SendReceive, "Sync mail and calendar now")],
            Vec::new(),
        ),
    ]
}

pub fn folder_groups() -> (r: Vec<Group>)
    ensures
        forall|calendar: bool| outlines(r@) =~~= #[trigger] groups_of(3, calendar),
{
    vec![
        group(
            "Tree",
            10,
            vec![btn("Expand All", 10, Act::ExpandAll, "Expand every folder")],
            vec![btn("Collapse", 8, Act::CollapseAll, "Collapse every folder")],
        ),
    ]
}

pub fn view_groups() -> (r: Vec<Group>)
    ensures
        forall|calendar: bool| outlines(r@) =~~= #[trigger] groups_of(4, calendar),
{
    vec![
        group(
            "Layout",
            8,
            vec![btn("Threaded", 8, Act::Threaded, "Toggle threaded/flat view (t)")],
            vec![btn("Filter", 6, Act::CategoryFilter, "Filter by category (L)")],
        ),
    ]
}

pub fn help_groups() -> (r: Vec<Group>)
    ensures
        forall|calendar: bool| outlines(r@) =~~= #[trigger] groups_of(5, calendar),
{
    vec![
        group(
            "Help",
            9,
            vec![btn("Shortcuts", 9, Act::Help, "Keyboard shortcuts (F1)")],
            vec![btn("About", 5, Act::Todo("About"), "About lookxy")],
        ),
    ]
}

/// The tabs' names.
pub open spec fn tab_names() -> Seq<&'static str> {
    seq!["File", "Home", "Send/Receive", "Folder", "View", "Help"]
}

/// A tab has buttons. The File tab opens the backstage instead.
pub open spec fn has_body(tab: int) -> bool {
    1 <= tab < 6
}

/// What the first `n` pieces of a row stand for, gaps left out.
pub open spec fn acts_of_row(row: Seq<Seg>, n: int) -> Seq<Act>
    decreases n,
{
    if n <= 0 {
        Seq::empty()
    } else {
        match row[n - 1] {
            Seg::Btn { act, .. } => acts_of_row(row, n - 1).push(act),
            Seg::Gap(_) => acts_of_row(row, n - 1),
        }
    }
}

/// What the buttons of the first `n` groups stand for: group by group, and the
/// upper row of each before the lower.
pub open spec fn acts_of(groups: Seq<Group>, n: int) -> Seq<Act>
    decreases n,
{
    if n <= 0 {
        Seq::empty()
    } else {
        let (upper, lower) = (groups[n - 1].rows.0@, groups[n - 1].rows.1@);
        acts_of(groups, n - 1) + acts_of_row(upper, upper.len() as int) + acts_of_row(
            lower,
            lower.len() as int,
        )
    }
}

fn push_acts(out: &mut Vec<Act>, row: &Vec<Seg>)
    ensures
        final(out)@ == old(out)@ + acts_of_row(row@, row@.len() as int),
{
    let ghost before = out@;
    let mut i: usize = 0;
    assert(out@ =~= before + acts_of_row(row@, 0));
    while i < row.len()
        invariant
            i <= row@.len(),
            out@ == before + acts_of_row(row@, i as int),
        decreases row@.len() - i,
    {
        if let Seg::Btn { act, .. } = row[i] {
            out.push(act);
        }
        i += 1;
        assert(out@ =~= before + acts_of_row(row@, i as int));
    }
}

/// The ribbon: its tabs and the groups of each, and which tab is shown.
#[derive(Debug, PartialEq, Eq)]
pub struct Ribbon {
    pub tabs: Vec<&'static str>,
    pub tab_groups: Vec<Vec<Group>>,
    pub active: usize,
}

impl Ribbon {
    /// The six tabs, each with its groups.
    pub open spec fn wf(self, calendar: bool) -> bool {
        &&& self.tabs@ == tab_names()
        &&& self.tab_groups@.len() == 6
        &&& forall|i: int|
            0 <= i < 6 ==> outlines((#[trigger] self.tab_groups@[i])@) == groups_of(i, calendar)
        &&& has_body(self.active as int)
    }

    /// The ribbon over the mail, showing the Home tab.
    pub fn new() -> (r: Ribbon)
        ensures
            r.wf(false),
            r.active == 1,
    {
        let tabs: Vec<&'static str> = vec![
            "File",
            "Home",
            "Send/Receive",
            "Folder",
            "View",
            "Help",
        ];
        let file: Vec<Group> = Vec::new();
        assert(outlines(file@) =~= groups_of(0, false));
        let mut tab_groups: Vec<Vec<Group>> = Vec::new();
        tab_groups.push(file);
        tab_groups.push(home_groups(false));
        tab_groups.push(send_receive_groups());
        tab_groups.push(folder_groups());
        tab_groups.push(view_groups());
        tab_groups.push(help_groups());
        assert(tabs@ =~= tab_names());
        Ribbon { tabs, tab_groups, active: HOME_TAB }
    }

    /// Swaps the Home tab between the mail's buttons and the calendar's.
    pub fn set_home_context(&mut self, calendar: bool)
        requires
            old(self).wf(true) || old(self).wf(false),
        ensures
            final(self).wf(calendar),
            final(self).active == old(self).active,
    {
        let home = home_groups(calendar);
        self.tab_groups.set(1, home);
        assert forall|i: int| 0 <= i < 6 implies outlines((#[trigger] self.tab_groups@[i])@)
            == groups_of(i, calendar) by {
            if i != 1 {
                assert(self.tab_groups@[i] == old(self).tab_groups@[i]);
                assert(groups_of(i, true) == groups_of(i, false));
            }
        }
    }

    /// The name of a tab, if there is one.
    pub fn tab_label(&self, tab: usize) -> (r: Option<&'static str>)
        ensures
            r == (if tab < self.tabs@.len() {
                Some(self.tabs@[tab as int])
            } else {
                None
            }),
    {
        if tab < self.tabs.len() {
            Some(self.tabs[tab])
        } else {
            None
        }
    }

    /// Whether a tab has buttons.
    pub fn tab_has_body(&self, tab: usize) -> (r: bool)
        ensures
            r == (tab < self.tab_groups@.len() && self.tab_groups@[tab as int]@.len() > 0),
    {
        tab < self.tab_groups.len() && self.tab_groups[tab].len() > 0
    }

    /// What button `n` of a tab stands for, if there is one.
    pub fn act_at(&self, tab: usize, n: usize) -> (r: Option<Act>)
        ensures
            r == (if tab < self.tab_groups@.len() {
                let groups = self.tab_groups@[tab as int]@;
                let acts = acts_of(groups, groups.len() as int);
                if n < acts.len() {
                    Some(acts[n as int])
                } else {
                    None
                }
            } else {
                None
            }),
    {
        if tab >= self.tab_groups.len() {
            return None;
        }
        let groups = &self.tab_groups[tab];
        let mut acts: Vec<Act> = Vec::new();
        let mut i: usize = 0;
        while i < groups.len()
            invariant
                i <= groups@.len(),
                acts@ == acts_of(groups@, i as int),
            decreases groups@.len() - i,
        {
            push_acts(&mut acts, &groups[i].rows.0);
            push_acts(&mut acts, &groups[i].rows.1);
            i += 1;
        }
        if n < acts.len() {
            Some(acts[n])
        } else {
            None
        }
    }
}

// ---------------------------------------------------------------------------
// Laws
// ---------------------------------------------------------------------------

/// The columns a row takes.
pub open spec fn content_width(row: Seq<Seg>) -> int
    decreases row.len(),
{
    if row.len() == 0 {
        0
    } else {
        content_width(row.drop_last()) + match row.last() {
            Seg::Btn { width, .. } => width as int,
            Seg::Gap(g) => g@.len() as int,
        }
    }
}

proof fn lemma_width_of_three(a: Seg, b: Seg, c: Seg)
    ensures
        content_width(seq![a]) == content_width(Seq::<Seg>::empty().push(a)),
        content_width(seq![a, b, c]) == content_width(seq![a]) + content_width(seq![b])
            + content_width(seq![c]),
{
    reveal_with_fuel(content_width, 4);
    assert(seq![a, b, c].drop_last() =~= seq![a, b]);
    assert(seq![a, b].drop_last() =~= seq![a]);
    assert(seq![a].drop_last() =~= Seq::<Seg>::empty());
    assert(seq![b].drop_last() =~= Seq::<Seg>::empty());
    assert(seq![c].drop_last() =~= Seq::<Seg>::empty());
}

proof fn lemma_widths()
    ensures
        forall|label: &'static str, width: usize, act: Act, hint: &'static str|
            content_width(seq![#[trigger] button(label, width, act, hint)]) == width,
        content_width(seq![Seg::Gap(" ")]) == 1,
        content_width(Seq::<Seg>::empty()) == 0,
{
    reveal_with_fuel(content_width, 2);
    reveal_strlit(" ");
    assert forall|label: &'static str, width: usize, act: Act, hint: &'static str|
        content_width(seq![#[trigger] button(label, width, act, hint)]) == width by {
        assert(seq![button(label, width, act, hint)].drop_last() =~= Seq::<Seg>::empty());
    }
    assert(seq![Seg::Gap(" ")].drop_last() =~= Seq::<Seg>::empty());
}

proof fn lemma_width_of_five(a: Seg, b: Seg, c: Seg, d: Seg, e: Seg)
    ensures
        content_width(seq![a, b, c, d, e]) == content_width(seq![a, b, c]) + content_width(seq![d])
            + content_width(seq![e]),
{
    reveal_with_fuel(content_width, 6);
    assert(seq![a, b, c, d, e].drop_last() =~= seq![a, b, c, d]);
    assert(seq![a, b, c, d].drop_last() =~= seq![a, b, c]);
    assert(seq![d].drop_last() =~= Seq::<Seg>::empty());
    assert(seq![e].drop_last() =~= Seq::<Seg>::empty());
}

/// Every group is wide enough for its rows.
pub proof fn groups_are_wide_enough(tab: int, calendar: bool, i: int)
    requires
        0 <= i < groups_of(tab, calendar).len(),
    ensures
        groups_of(tab, calendar)[i].1 >= content_width(groups_of(tab, calendar)[i].2),
        groups_of(tab, calendar)[i].1 >= content_width(groups_of(tab, calendar)[i].3),
{
    lemma_widths();
    let gap = Seg::Gap(" ");
    if tab == 1 && calendar {
        let edit = button("Edit", 4, Act::EditEvent, "Edit event (e)");
        let del = button("Del", 3, Act::DeleteEvent, "Delete event (x)");
        lemma_width_of_three(edit, gap, del);
        let acc = button("Acc", 3, Act::RsvpAccept, "Accept (a)");
        let dec = button("Dec", 3, Act::RsvpDecline, "Decline (d)");
        lemma_width_of_three(acc, gap, dec);
    } else if tab == 1 {
        let reply = button("Reply", 5, Act::Reply, "Reply (r)");
        let all = button("All", 3, Act::ReplyAll, "Reply all (R)");
        lemma_width_of_three(reply, gap, all);
        let del = button("Del", 3, Act::Delete, "Delete (d)");
        let flag = button("Flag", 4, Act::Flag, "Flag (f)");
        let read = button("Read", 4, Act::MarkRead, "Mark read (m)");
        lemma_width_of_three(del, gap, flag);
        lemma_width_of_five(del, gap, flag, gap, read);
        let unread = button("Unread", 6, Act::MarkUnread, "Mark unread (u)");
        let mv = button("Move", 4, Act::Move, "Move to folder (v)");
        lemma_width_of_three(unread, gap, mv);
    }
}

}
