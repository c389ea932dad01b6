//! How text, links and images are laid out, and in which order things are drawn.

use crate::app::{App, Mode};
use crate::json::Value;
use crate::laws::agenda::lemma_ascii_front;
use crate::mcp;
use crate::model::MasterCategory;
use crate::text;
use crate::ui::agenda;
use crate::ui::calendar;
use crate::ui::categories;
use crate::ui::compose;
use crate::ui::compose::{Block, Pos, Run};
use crate::ui::eventform;
use crate::ui::eventform::EventField;
use crate::ui::help;
use crate::ui::layout;
use crate::ui::message_list;
use crate::ui::oofform;
use crate::ui::oofform::OofField;
use crate::ui::rail;
use crate::ui::reading;
use crate::ui::reading::{LinkAt, StyledLine, StyledSpan};
use crate::ui::ribbon;
use crate::ui::ribbon::{Act, Group, Seg};
use crate::ui::screen;
use crate::ui::screen::Widget;
use crate::ui::style;
use crate::ui::style::{Color, Shown};
use crate::ui::width;
use vstd::prelude::*;

verus! {

// ---------------------------------------------------------------------------
// Forms
// ---------------------------------------------------------------------------

/// Tab goes through the fields from the top to the bottom, and back to the top;
/// Shift-Tab the other way.
pub proof fn fields_follow_from_the_top()
    ensures
        eventform::field_after(EventField::Title) == EventField::Start,
        eventform::field_after(EventField::Start) == EventField::End,
        eventform::field_after(EventField::End) == EventField::AllDay,
        eventform::field_after(EventField::AllDay) == EventField::Location,
        eventform::field_after(EventField::Location) == EventField::Attendees,
        eventform::field_after(EventField::Attendees) == EventField::Body,
        eventform::field_after(EventField::Body) == EventField::Title,
        oofform::field_after(OofField::Status) == OofField::Start,
        oofform::field_after(OofField::Start) == OofField::End,
        oofform::field_after(OofField::End) == OofField::Audience,
        oofform::field_after(OofField::Audience) == OofField::Internal,
        oofform::field_after(OofField::Internal) == OofField::External,
        oofform::field_after(OofField::External) == OofField::Status,
        forall|f: OofField| #[trigger]
            oofform::field_before(oofform::field_after(f)) == f && oofform::field_after(
                oofform::field_before(f),
            ) == f,
{
}

/// A field that does not count is gray; the one with the focus is bold.
pub proof fn fields_are_shown_by_their_state(focused: bool)
    ensures
        oofform::style_of_field(focused, false).fg == Some(Color::DarkGray),
        oofform::style_of_field(focused, true).bold == focused,
        oofform::style_of_field(focused, true).fg is None,
        rail::section_style(true).reversed,
        rail::section_style(true).fg == Some(Color::Blue),
        rail::section_style(false).dim,
        !rail::section_style(false).reversed,
{
}

// ---------------------------------------------------------------------------
// Times
// ---------------------------------------------------------------------------

/// Part of ASCII text is found by its bytes.
proof fn lemma_ascii_part(s: Seq<char>, from: int, to: int)
    requires
        vstd::utf8::is_ascii_chars(s),
        0 <= from <= to <= s.len(),
    ensures
        text::get(s, from, to) == Some(s.subrange(from, to)),
{
    let b = vstd::utf8::encode_utf8(s);
    lemma_ascii_front(s, to);
    vstd::utf8::is_ascii_chars_encode_utf8(s);
    let front = s.subrange(0, to);
    assert(vstd::utf8::is_ascii_chars(front));
    vstd::utf8::is_ascii_chars_encode_utf8(front);
    let f = vstd::utf8::encode_utf8(front);
    assert(b.subrange(0, to) =~= f) by {
        assert forall|i: int| 0 <= i < to implies b[i] == f[i] by {
            assert(s[i] as u8 == b[i]);
            assert(front[i] as u8 == f[i]);
        }
    }
    lemma_ascii_front(front, from);
    let part = s.subrange(from, to);
    assert(vstd::utf8::is_ascii_chars(part));
    vstd::utf8::is_ascii_chars_encode_utf8(part);
    let p = vstd::utf8::encode_utf8(part);
    assert(b.subrange(from, to) =~= p) by {
        assert forall|i: int| 0 <= i < to - from implies b[from + i] == p[i] by {
            assert(s[from + i] as u8 == b[from + i]);
            assert(part[i] as u8 == p[i]);
        }
    }
    vstd::utf8::encode_utf8_decode_utf8(part);
}

/// The list shows month, day, hour and minute of when a message came.
pub proof fn the_list_shows_when_it_came(y: int, m: int, d: int, h: int, mi: int, se: int)
    requires
        calendar::is_date(y, m, d),
        0 <= y <= 9999,
        0 <= h < 24,
        0 <= mi < 60,
        0 <= se < 60,
    ensures
        message_list::brief(calendar::iso_stamp(y, m, d, h, mi, se)) == text::padded(m, 2) + "-"@
            + text::padded(d, 2) + " "@ + (text::padded(h, 2) + ":"@ + text::padded(mi, 2)),
{
    calendar::lemma_stamp_layout(y, m, d, h, mi, se);
    let s = calendar::iso_stamp(y, m, d, h, mi, se);
    lemma_ascii_part(s, 5, 10);
    lemma_ascii_part(s, 11, 16);
    reveal_strlit("-");
    reveal_strlit(":");
    text::lemma_padded(m, 2);
    text::lemma_padded(d, 2);
    text::lemma_padded(h, 2);
    text::lemma_padded(mi, 2);
    let a = s.subrange(5, 10);
    assert(a =~= s.subrange(5, 7) + seq![s[7]] + s.subrange(8, 10));
    assert("-"@ =~= seq!['-']);
    let b = s.subrange(11, 16);
    assert(b =~= s.subrange(11, 13) + seq![s[13]] + s.subrange(14, 16));
    assert(":"@ =~= seq![':']);
}

/// A day is named by its weekday, its month and its number.
pub proof fn days_are_named(y: int, m: int, d: int)
    ensures
        agenda::day_name(y, m, d) == agenda::weekday_of(calendar::day_number(y, m, d)) + " "@
            + agenda::month_name(m) + " "@ + text::padded(d, 2),
{
}

// ---------------------------------------------------------------------------
// The composer
// ---------------------------------------------------------------------------

/// The caret stands in the run it names; at the end of a run that is not the last
/// it stands in front of the next. A run that is gone is the last one.
pub proof fn the_caret_stands_in_its_run(runs: Seq<Run>, pos: Pos)
    requires
        runs.len() > 0,
    ensures
        ({
            let run = if pos.run < runs.len() {
                pos.run as int
            } else {
                runs.len() - 1
            };
            let off = compose::char_at(runs[run].text@, pos.offset as int);
            let (r, o) = compose::caret_in(runs, pos);
            &&& off < runs[run].text@.len() ==> r == run && o == off
            &&& off >= runs[run].text@.len() && run + 1 < runs.len() && off
                == runs[run].text@.len() ==> r == run + 1 && o == 0
            &&& run + 1 == runs.len() ==> r == run && o == off
        }),
{
}

/// Characters of ASCII take one byte each, others up to four.
pub proof fn characters_take_their_bytes(c: char)
    ensures
        c <= '\u{7f}' ==> compose::byte_len(c) == 1,
        '\u{80}' <= c <= '\u{7ff}' ==> compose::byte_len(c) == 2,
        '\u{800}' <= c <= '\u{ffff}' ==> compose::byte_len(c) == 3,
        '\u{10000}' <= c ==> compose::byte_len(c) == 4,
        compose::byte_len(c) == vstd::utf8::encode_scalar(c as u32).len(),
{
}

/// The caret's column counts what stands to the left of it: the mark of the
/// block, the runs before, and the part of its own run.
pub proof fn the_caret_has_its_column(a: Run, b: Run, pos: Pos, off: int)
    requires
        off == compose::char_at(b.text@, pos.offset as int),
        off < b.text@.len(),
        pos.run == 1,
    ensures
        forall|runs: Vec<Run>|
            runs@ == seq![a, b] ==> #[trigger] compose::column_of(
                seq![Block::Paragraph(runs)],
                0,
                pos,
            ) == width::text_width(Seq::empty()) + width::text_width(a.text@) + width::text_width(
                b.text@.take(off),
            ),
{
    reveal_with_fuel(compose::widths_before, 3);
    assert forall|runs: Vec<Run>| runs@ == seq![a, b] implies #[trigger] compose::column_of(
        seq![Block::Paragraph(runs)],
        0,
        pos,
    ) == width::text_width(Seq::empty()) + width::text_width(a.text@) + width::text_width(
        b.text@.take(off),
    ) by {
        let blocks = seq![Block::Paragraph(runs)];
        assert(compose::runs_of(blocks[0]) == runs@);
        assert(compose::caret_in(runs@, pos) == (1int, off));
        assert(compose::widths_before(runs@, 1) == width::text_width(a.text@));
    }
}

// ---------------------------------------------------------------------------
// Links and images
// ---------------------------------------------------------------------------

/// A link is found where it is shown: behind the indentation and the text in front
/// of it, as wide as its own text.
#[verifier::spinoff_prover]
#[verifier::rlimit(40)]
pub proof fn links_are_found_where_shown(
    l: StyledLine,
    row: int,
    unit: int,
    a: StyledSpan,
    b: StyledSpan,
    c: StyledSpan,
    url: String,
)
    requires
        l.spans@ == seq![a, b, c],
        a.link is None,
        b.link == Some(url),
        c.link is None,
        0 <= unit,
        l.indent * unit + width::text_width(a.text@) + width::text_width(b.text@) < u16::MAX,
        0 <= l.indent * unit,
    ensures
        reading::links_of(l, row, unit) == seq![
            LinkAt {
                line: row,
                col: l.indent * unit + width::text_width(a.text@),
                width: width::text_width(b.text@) as int,
                url: url@,
            },
        ],
{
    reveal_with_fuel(reading::runs, 4);
    reveal_with_fuel(reading::column_after, 3);
    let start = l.indent * unit;
    let spans = l.spans@;
    assert(reading::column_after(spans, 0, start) == start);
    assert(reading::column_after(spans, 1, start) == start + width::text_width(a.text@));
    let none: (Seq<LinkAt>, Option<LinkAt>) = (Seq::empty(), None);
    assert(reading::runs(spans, 0, row, start) == none);
    assert(reading::runs(spans, 1, row, start) == none);
    let link = LinkAt {
        line: row,
        col: start + width::text_width(a.text@),
        width: width::text_width(b.text@) as int,
        url: url@,
    };
    assert(reading::runs(spans, 2, row, start) == (Seq::<LinkAt>::empty(), Some(link)));
    assert(reading::runs(spans, 3, row, start) == (
        Seq::<LinkAt>::empty().push(link),
        None::<LinkAt>,
    ));
    assert(Seq::<LinkAt>::empty().push(link) =~= seq![link]);
}

/// A row of a body is its text behind its indentation; an image is ten rows left
/// free for it, and its box starts at the first of them.
pub proof fn bodies_are_laid_out_row_by_row(
    v: Seq<StyledLine>,
    n: int,
    focused: Option<Seq<char>>,
    unit: int,
)
    requires
        0 <= n < v.len(),
    ensures
        v[n].image is None ==> reading::body_rows(v, n + 1, focused, unit) == reading::body_rows(
            v,
            n,
            focused,
            unit,
        ).push(reading::row_of(v[n], focused, unit)) && reading::image_boxes(v, n + 1)
            == reading::image_boxes(v, n),
        v[n].image is Some ==> reading::body_rows(v, n + 1, focused, unit).len()
            == reading::body_rows(v, n, focused, unit).len() + 10 && reading::image_boxes(v, n + 1)
            == reading::image_boxes(v, n).push((reading::rows_before(v, n), n)),
        v[n].indent == 0 ==> reading::row_of(v[n], focused, unit).len() == v[n].spans@.len(),
        v[n].indent * unit > 0 ==> reading::row_of(v[n], focused, unit)[0].text == text::spaces(
            v[n].indent * unit,
        ),
{
    if v[n].indent == 0 {
        assert(v[n].indent * unit == 0) by (nonlinear_arith)
            requires
                v[n].indent == 0,
        ;
    }
}

/// An image without a description is said to be one; with one, it is described.
pub proof fn images_are_described(alt: Seq<char>)
    ensures
        reading::caption(Seq::empty()) == "[image]"@,
        alt.len() > 0 ==> reading::caption(alt) == "[image: "@ + alt + "]"@,
{
}

/// A category is shown in brackets, in its colour.
pub proof fn categories_are_shown(
    row: Seq<Shown>,
    names: Seq<String>,
    master: Seq<MasterCategory>,
    i: int,
)
    requires
        reading::are_chips(row, names, master),
        0 <= i < names.len(),
    ensures
        row.len() == names.len() + 1,
        row[0].text == "Categories: "@,
        row[i + 1].text == "["@ + names[i]@ + "] "@,
        row[i + 1].style.fg matches Some(c) && categories::is_color_of(master, names[i]@, c),
{
}

/// Hexadecimal digits are `0` to `9` and `a` to `f`, the last one the lowest.
pub proof fn hexadecimal_digits(n: int, k: int)
    requires
        0 <= n,
        0 < k,
    ensures
        reading::hex(n, k).len() == k,
        reading::hex(n, k).last() == reading::hex_digit(n % 16),
        reading::hex(n, k).drop_last() == reading::hex(n / 16, k - 1),
        reading::hex_digit(0) == '0',
        reading::hex_digit(9) == '9',
        reading::hex_digit(10) == 'a',
        reading::hex_digit(15) == 'f',
    decreases k,
{
    if k > 1 {
        hexadecimal_digits(n / 16, k - 1);
    } else {
        assert(reading::hex(n / 16, 0).len() == 0);
    }
    assert(reading::hex(n, k).drop_last() =~= reading::hex(n / 16, k - 1));
}

// ---------------------------------------------------------------------------
// Places
// ---------------------------------------------------------------------------

/// The panes take these shares of the width, and what pops up these of the screen.
pub proof fn shares_of_the_screen(a: App)
    ensures
        layout::pane_shares()[0] == 22,
        layout::pane_shares()[1] == 38,
        layout::pane_shares()[2] == 40,
        layout::popup_size(Widget::MovePicker, a) == Some((50u16, 40u16)),
        layout::popup_size(Widget::Confirm, a) == Some((50u16, 20u16)),
        layout::popup_size(Widget::Attachments, a) == Some((60u16, 40u16)),
        layout::popup_size(Widget::CategoryPicker, a) == Some((50u16, 60u16)),
        layout::popup_size(Widget::FilePicker, a) == Some((60u16, 60u16)),
        layout::popup_size(Widget::LinkPrompt, a) == Some((70u16, 50u16)),
        layout::popup_size(Widget::Help, a) == Some((70u16, 80u16)),
        layout::popup_size(Widget::SignIn, a) == Some((60u16, 30u16)),
        layout::popup_size(Widget::FreeBusy, a) == Some((80u16, 60u16)),
        layout::popup_size(Widget::Backstage, a) == Some((80u16, 70u16)),
        layout::popup_size(Widget::Folders, a) is None,
        a.rsvp_prompt matches Some(p) ==> layout::popup_size(Widget::RsvpPrompt, a) == Some(
            (
                70u16,
                (if p.kind@ == "declined"@ || p.kind@ == "tentativelyAccepted"@ {
                    40u16
                } else {
                    20u16
                }),
            ),
        ),
{
}

/// With nothing over them, the panes of the mail are drawn in their order; the
/// calendar takes their place where it is shown.
pub proof fn panes_are_drawn_in_order(a: App)
    requires
        a.oof_form is None,
        a.compose is None,
        a.backstage is None,
        a.rsvp_prompt is None,
        a.event_form is None,
        a.free_busy is None,
        a.confirm is None,
        !a.help,
        a.move_picker is None,
        a.attachments is None,
        a.category_picker is None,
        a.file_picker is None,
        a.link_prompt is None,
        a.signin_modal is None,
        a.reminder_queue@.len() == 0,
    ensures
        a.mode == Mode::Mail && a.search is None ==> screen::drawn(a) == seq![
            Widget::Ribbon,
            Widget::Rail,
            Widget::Folders,
            Widget::MessageList,
            Widget::Reading,
            Widget::StatusBar,
        ],
        a.mode == Mode::Mail && a.search is Some ==> screen::drawn(a) == seq![
            Widget::Ribbon,
            Widget::Rail,
            Widget::Folders,
            Widget::Search,
            Widget::Reading,
            Widget::StatusBar,
        ],
        a.mode == Mode::Calendar ==> screen::drawn(a) == seq![
            Widget::Ribbon,
            Widget::Rail,
            Widget::Calendar,
            Widget::StatusBar,
        ],
{
    let none = Seq::<Widget>::empty();
    if a.mode == Mode::Mail {
        assert(screen::over_mail(a) =~= none);
    } else {
        assert(screen::over_calendar(a) =~= none);
    }
}

/// One more thing is drawn where it is open.
proof fn lemma_one_more(s: Seq<Widget>, on: bool, v: Widget, w: Widget)
    ensures
        (s + screen::shown_if(on, v)).contains(w) <==> s.contains(w) || (on && v == w),
{
    let t = s + screen::shown_if(on, v);
    if s.contains(w) {
        let i = choose|i: int| 0 <= i < s.len() && s[i] == w;
        assert(t[i] == w);
    }
    if on && v == w {
        assert(t[s.len() as int] == w);
    }
}

/// What is open over the mail is drawn over it, and nothing else.
pub proof fn what_is_open_lies_over_the_mail(a: App, w: Widget)
    ensures
        screen::over_mail(a).contains(w) <==> match w {
            Widget::MovePicker => a.move_picker is Some,
            Widget::Confirm => a.confirm is Some,
            Widget::Attachments => a.attachments is Some,
            Widget::CategoryPicker => a.category_picker is Some,
            Widget::FilePicker => a.file_picker is Some,
            Widget::RsvpPrompt => a.rsvp_prompt is Some,
            Widget::LinkPrompt => a.link_prompt is Some,
            Widget::Help => a.help,
            Widget::SignIn => a.signin_modal is Some,
            _ => false,
        },
{
    let s0 = Seq::<Widget>::empty();
    lemma_one_more(s0, a.move_picker is Some, Widget::MovePicker, w);
    let s1 = screen::shown_if(a.move_picker is Some, Widget::MovePicker);
    assert(s0 + s1 =~= s1);
    lemma_one_more(s1, a.confirm is Some, Widget::Confirm, w);
    let s2 = s1 + screen::shown_if(a.confirm is Some, Widget::Confirm);
    lemma_one_more(s2, a.attachments is Some, Widget::Attachments, w);
    let s3 = s2 + screen::shown_if(a.attachments is Some, Widget::Attachments);
    lemma_one_more(s3, a.category_picker is Some, Widget::CategoryPicker, w);
    let s4 = s3 + screen::shown_if(a.category_picker is Some, Widget::CategoryPicker);
    lemma_one_more(s4, a.file_picker is Some, Widget::FilePicker, w);
    let s5 = s4 + screen::shown_if(a.file_picker is Some, Widget::FilePicker);
    lemma_one_more(s5, a.rsvp_prompt is Some, Widget::RsvpPrompt, w);
    let s6 = s5 + screen::shown_if(a.rsvp_prompt is Some, Widget::RsvpPrompt);
    lemma_one_more(s6, a.link_prompt is Some, Widget::LinkPrompt, w);
    let s7 = s6 + screen::shown_if(a.link_prompt is Some, Widget::LinkPrompt);
    lemma_one_more(s7, a.help, Widget::Help, w);
    let s8 = s7 + screen::shown_if(a.help, Widget::Help);
    lemma_one_more(s8, a.signin_modal is Some, Widget::SignIn, w);
}

/// What is open over the calendar is drawn over it, and nothing else.
pub proof fn what_is_open_lies_over_the_calendar(a: App, w: Widget)
    ensures
        screen::over_calendar(a).contains(w) <==> match w {
            Widget::RsvpPrompt => a.rsvp_prompt is Some,
            Widget::EventForm => a.event_form is Some,
            Widget::FreeBusy => a.free_busy is Some,
            Widget::Confirm => a.confirm is Some,
            Widget::Help => a.help,
            _ => false,
        },
{
    let s0 = Seq::<Widget>::empty();
    lemma_one_more(s0, a.rsvp_prompt is Some, Widget::RsvpPrompt, w);
    let s1 = screen::shown_if(a.rsvp_prompt is Some, Widget::RsvpPrompt);
    assert(s0 + s1 =~= s1);
    lemma_one_more(s1, a.event_form is Some, Widget::EventForm, w);
    let s2 = s1 + screen::shown_if(a.event_form is Some, Widget::EventForm);
    lemma_one_more(s2, a.free_busy is Some, Widget::FreeBusy, w);
    let s3 = s2 + screen::shown_if(a.free_busy is Some, Widget::FreeBusy);
    lemma_one_more(s3, a.confirm is Some, Widget::Confirm, w);
    let s4 = s3 + screen::shown_if(a.confirm is Some, Widget::Confirm);
    lemma_one_more(s4, a.help, Widget::Help, w);
}

/// What lies over the panes is drawn last; a view that takes the whole screen
/// takes the place of both.
pub proof fn what_is_open_is_drawn(a: App, w: Widget)
    ensures
        a.oof_form is Some ==> screen::views(a) == seq![Widget::OofForm],
        a.oof_form is None && a.compose is Some && a.file_picker is None ==> screen::views(a)
            == seq![Widget::Compose],
        a.oof_form is None && a.compose is Some && a.file_picker is Some ==> screen::views(a)
            == seq![Widget::Compose, Widget::FilePicker],
        a.oof_form is None && a.compose is None && a.backstage is Some ==> screen::views(a)
            == seq![Widget::Backstage],
        screen::views(a).contains(w) ==> screen::drawn(a).contains(w),
        a.reminder_queue@.len() > 0 ==> screen::drawn(a)[0] == Widget::ReminderBanner,
        a.oof_form is None && a.compose is None && a.backstage is None && a.mode == Mode::Mail
            && screen::over_mail(a).contains(w) ==> screen::views(a).contains(w),
        a.oof_form is None && a.compose is None && a.backstage is None && a.mode == Mode::Calendar
            && screen::over_calendar(a).contains(w) ==> screen::views(a).contains(w),
{
    let d = screen::drawn(a);
    let v = screen::views(a);
    if v.contains(w) {
        let k = choose|k: int| 0 <= k < v.len() && v[k] == w;
        assert(d[d.len() - v.len() + k] == w);
    }
    if screen::full_view(a) is None {
        lemma_last_part(a, w);
    }
}

proof fn lemma_last_part(a: App, w: Widget)
    requires
        screen::full_view(a) is None,
    ensures
        a.mode == Mode::Calendar && screen::over_calendar(a).contains(w) ==> screen::views(
            a,
        ).contains(w),
        a.mode != Mode::Calendar && screen::over_mail(a).contains(w) ==> screen::views(
            a,
        ).contains(w),
{
    let frame = seq![Widget::Ribbon, Widget::Rail];
    if a.mode == Mode::Calendar {
        lemma_end_is_in(
            frame + seq![Widget::Calendar, Widget::StatusBar],
            screen::over_calendar(a),
            w,
        );
    } else {
        lemma_end_is_in(frame + screen::panes(a), screen::over_mail(a), w);
    }
}

proof fn lemma_end_is_in(s: Seq<Widget>, t: Seq<Widget>, w: Widget)
    ensures
        t.contains(w) ==> (s + t).contains(w),
{
    if t.contains(w) {
        let k = choose|k: int| 0 <= k < t.len() && t[k] == w;
        assert((s + t)[s.len() + k] == w);
    }
}

/// Buttons are counted from the left to the right, first in the upper row of a
/// group and then in the lower.
pub proof fn buttons_are_counted_in_order(
    groups: Seq<Group>,
    n: int,
    row: Seq<Seg>,
    act: Act,
    label: &'static str,
    w: usize,
    hint: &'static str,
    gap: &'static str,
)
    requires
        0 <= n < groups.len(),
    ensures
        ribbon::acts_of(groups, n + 1) == ribbon::acts_of(groups, n) + ribbon::acts_of_row(
            groups[n].rows.0@,
            groups[n].rows.0@.len() as int,
        ) + ribbon::acts_of_row(groups[n].rows.1@, groups[n].rows.1@.len() as int),
        ribbon::acts_of_row(
            row.push(ribbon::button(label, w, act, hint)),
            row.len() as int + 1,
        ) == ribbon::acts_of_row(row, row.len() as int).push(act),
        ribbon::acts_of_row(row.push(Seg::Gap(gap)), row.len() as int + 1) == ribbon::acts_of_row(
            row,
            row.len() as int,
        ),
        ribbon::acts_of(groups, 0).len() == 0,
{
    lemma_acts_prefix(row, ribbon::button(label, w, act, hint), row.len() as int);
    lemma_acts_prefix(row, Seg::Gap(gap), row.len() as int);
}

proof fn lemma_acts_prefix(row: Seq<Seg>, last: Seg, n: int)
    requires
        0 <= n <= row.len(),
    ensures
        ribbon::acts_of_row(row.push(last), n) == ribbon::acts_of_row(row, n),
    decreases n,
{
    if n > 0 {
        lemma_acts_prefix(row, last, n - 1);
    }
}

/// A key in the help takes sixteen columns, and what it does stands behind it.
pub proof fn help_is_in_columns(e: help::Entry)
    requires
        e.0@.len() <= 16,
    ensures
        help::entry_text(e).len() == 19 + e.1@.len(),
        help::entry_text(e).skip(19) == e.1@,
        help::entry_text(e).subrange(2, 2 + e.0@.len() as int) == e.0@,
{
    reveal_strlit("  ");
    reveal_strlit(" ");
    let t = help::entry_text(e);
    assert(t.skip(19) =~= e.1@);
    assert(t.subrange(2, 2 + e.0@.len() as int) =~= e.0@);
}

/// A tool is offered under its name, with what it does, what it takes and what it
/// needs.
pub proof fn tools_are_offered_as_they_are(t: mcp::Outline, i: int)
    requires
        0 <= i < t.2.len(),
    ensures
        mcp::tool_value(t) matches Value::Obj(e) && {
            &&& e[0].key == "name"@ && e[0].value == Value::Str(t.0@)
            &&& e[1].key == "description"@ && e[1].value == Value::Str(t.1@)
            &&& e[2].key == "inputSchema"@ && (e[2].value matches Value::Obj(f) && {
                &&& f[0].value == Value::Str("object"@)
                &&& f[1].key == "properties"@ && (f[1].value matches Value::Obj(g) && g.len()
                    == t.2.len() && g[i].key == t.2[i].name@ && (g[i].value matches Value::Obj(h)
                    && h[0].value == Value::Str(t.2[i].kind@) && h[1].value == Value::Str(
                    t.2[i].description@,
                )))
                &&& f[2].key == "required"@ && (f[2].value matches Value::Arr(r) && r.len()
                    == t.3.len())
            })
        },
{
}

}
