//! What is shown, and where.

use crate::app::folders;
use crate::app::keys;
use crate::app::keys::{CalendarCommand, Command, MailCommand, OverlayCommand};
use crate::app::overlays;
use crate::app::{App, Row, RsvpField, RsvpPrompt, ThreadView};
use crate::app::reading as messages;
use crate::laws::agenda::stamps_begin_with_their_date;
use crate::laws::times::stamps_denote_their_instant;
use crate::model;
use crate::model::{
    Attendee, EventRow, ExternalAudience, MasterCategory, MessageRow, OofStatus, RsvpKind,
    ScheduleEntry,
};
use crate::text;
use crate::ui;
use crate::ui::agenda;
use crate::ui::backstage;
use crate::ui::calendar;
use crate::ui::categories;
use crate::ui::categorypicker;
use crate::ui::categorypicker::PickerMode;
use crate::ui::compose;
use crate::ui::compose::{Block, Run};
use crate::ui::eventform;
use crate::ui::filepicker;
use crate::ui::filepicker::FileEntry;
use crate::ui::folders as tree;
use crate::ui::foldertree::VisibleFolder;
use crate::ui::freebusy;
use crate::ui::layout;
use crate::ui::layout::Area;
use crate::ui::message_list;
use crate::ui::oofform;
use crate::ui::reading;
use crate::ui::reading::{StyledLine, StyledSpan};
use crate::ui::ribbon;
use crate::ui::ribbon::Act;
use crate::ui::screen;
use crate::ui::style;
use crate::ui::style::Color;
use crate::ui::width;
use vstd::prelude::*;

verus! {

// ---------------------------------------------------------------------------
// Cursors
// ---------------------------------------------------------------------------

/// A cursor that is moved stays in the list: round the ends where it wraps, at
/// the ends where it is held; one left behind by a shorter list goes to its end.
pub proof fn cursors_stay_in_the_list(i: int, delta: int, n: int)
    requires
        n > 0,
        0 <= i,
    ensures
        0 <= ui::wrap_index(i, delta, n) < n,
        0 <= ui::clamp_index(i, delta, n) < n,
        0 <= i + delta < n ==> ui::wrap_index(i, delta, n) == i + delta && ui::clamp_index(
            i,
            delta,
            n,
        ) == i + delta,
        i + delta == n ==> ui::wrap_index(i, delta, n) == 0 && ui::clamp_index(i, delta, n) == n - 1,
        i + delta == -1 ==> ui::wrap_index(i, delta, n) == n - 1 && ui::clamp_index(i, delta, n)
            == 0,
        i < n ==> ui::into_range(i, n) == i,
        i >= n ==> ui::into_range(i, n) == n - 1,
        ui::into_range(i, 0) == 0,
{
    vstd::arithmetic::div_mod::lemma_mod_bound(i + delta, n);
    if 0 <= i + delta < n {
        vstd::arithmetic::div_mod::lemma_small_mod((i + delta) as nat, n as nat);
    }
    vstd::arithmetic::div_mod::lemma_mod_self_0(n);
    vstd::arithmetic::div_mod::lemma_mod_add_multiples_vanish(-1, n);
    vstd::arithmetic::div_mod::lemma_small_mod((n - 1) as nat, n as nat);
}

// ---------------------------------------------------------------------------
// The agenda
// ---------------------------------------------------------------------------

/// A clock shows the day, the hour and the minute of an instant.
pub proof fn clocks_show_the_instant(y: int, m: int, d: int, h: int, mi: int, se: int)
    requires
        calendar::is_date(y, m, d),
        0 <= h < 24,
        0 <= mi < 60,
        0 <= se < 60,
    ensures
        agenda::clock_at(calendar::day_number(y, m, d) * 86400 + h * 3600 + mi * 60 + se) == (
            y,
            m,
            d,
            h,
            mi,
        ),
{
    let z = calendar::day_number(y, m, d);
    let rem = h * 3600 + mi * 60 + se;
    let secs = z * 86400 + rem;
    calendar::day_number_is_inverse_of_civil(y, m, d);
    vstd::arithmetic::div_mod::lemma_fundamental_div_mod_converse(secs, 86400, z, rem);
    vstd::arithmetic::div_mod::lemma_fundamental_div_mod_converse(rem, 3600, h, mi * 60 + se);
    vstd::arithmetic::div_mod::lemma_fundamental_div_mod_converse(mi * 60 + se, 60, mi, se);
}

/// A time stamp is shown in local time: `offset` minutes later on the clock.
pub proof fn stamps_are_shown_in_local_time(
    y: int,
    m: int,
    d: int,
    h: int,
    mi: int,
    se: int,
    ly: int,
    lm: int,
    ld: int,
    lh: int,
    lmi: int,
    offset: int,
)
    requires
        calendar::is_date(y, m, d),
        0 <= y <= 9999,
        0 <= h < 24,
        0 <= mi < 60,
        0 <= se < 60,
        calendar::is_date(ly, lm, ld),
        0 <= lh < 24,
        0 <= lmi < 60,
        calendar::day_number(ly, lm, ld) * 1440 + lh * 60 + lmi == calendar::day_number(y, m, d)
            * 1440 + h * 60 + mi + offset,
    ensures
        agenda::local_clock(calendar::iso_stamp(y, m, d, h, mi, se), offset) == (
            ly,
            lm,
            ld,
            lh,
            lmi,
        ),
        agenda::local_time_of_day(calendar::iso_stamp(y, m, d, h, mi, se), offset) == text::padded(
            lh,
            2,
        ) + ":"@ + text::padded(lmi, 2),
{
    stamps_denote_their_instant(y, m, d, h, mi, se);
    clocks_show_the_instant(ly, lm, ld, lh, lmi, se);
}

/// Two different dates have different day numbers.
proof fn lemma_dates_differ(y: int, m: int, d: int, y2: int, m2: int, d2: int)
    requires
        calendar::is_date(y, m, d),
        calendar::is_date(y2, m2, d2),
        calendar::day_number(y, m, d) == calendar::day_number(y2, m2, d2),
    ensures
        (y, m, d) == (y2, m2, d2),
{
    calendar::day_number_is_inverse_of_civil(y, m, d);
    calendar::day_number_is_inverse_of_civil(y2, m2, d2);
}

/// A day is headed `Today` where it is the current one, `Tomorrow` where it is the
/// next, and else by its weekday, its number and its month.
pub proof fn days_are_headed(day: (int, int, int), today: (int, int, int))
    requires
        calendar::is_date(day.0, day.1, day.2),
        calendar::is_date(today.0, today.1, today.2),
    ensures
        day == today ==> agenda::header_of(day, today) == "Today"@,
        today.2 < calendar::month_length(today.0, today.1) && day == (
            today.0,
            today.1,
            today.2 + 1,
        ) ==> agenda::header_of(day, today) == "Tomorrow"@,
        today.2 == calendar::month_length(today.0, today.1) && today.1 < 12 && day == (
            today.0,
            today.1 + 1,
            1int,
        ) ==> agenda::header_of(day, today) == "Tomorrow"@,
        day != today && calendar::day_number(day.0, day.1, day.2) != calendar::day_number(
            today.0,
            today.1,
            today.2,
        ) + 1 ==> agenda::header_of(day, today) == agenda::weekday_of(
            calendar::day_number(day.0, day.1, day.2),
        ) + " "@ + text::padded(day.2, 2) + " "@ + agenda::month_name(day.1),
{
    calendar::days_are_consecutive(today.0, today.1, today.2);
    if calendar::day_number(day.0, day.1, day.2) == calendar::day_number(
        today.0,
        today.1,
        today.2,
    ) {
        lemma_dates_differ(day.0, day.1, day.2, today.0, today.1, today.2);
    }
}

/// The twelve months have their names.
pub proof fn months_have_their_names()
    ensures
        agenda::month_name(1) == "Jan"@,
        agenda::month_name(2) == "Feb"@,
        agenda::month_name(3) == "Mar"@,
        agenda::month_name(4) == "Apr"@,
        agenda::month_name(5) == "May"@,
        agenda::month_name(6) == "Jun"@,
        agenda::month_name(7) == "Jul"@,
        agenda::month_name(8) == "Aug"@,
        agenda::month_name(9) == "Sep"@,
        agenda::month_name(10) == "Oct"@,
        agenda::month_name(11) == "Nov"@,
        agenda::month_name(12) == "Dec"@,
{
}

/// An event that falls on another day than the one before it stands under a
/// header of its own; one on the same day does not.
pub proof fn each_day_has_one_header(
    events: Seq<EventRow>,
    n: int,
    today: (int, int, int),
    offset: int,
)
    requires
        0 < n <= events.len(),
    ensures
        ({
            let rows = agenda::agenda_of(events, n, today, offset);
            let before = agenda::agenda_of(events, n - 1, today, offset);
            let day = agenda::day_of(events[n - 1], offset);
            let new = n == 1 || agenda::day_of(events[n - 2], offset) != day;
            &&& rows.last() == agenda::AgendaRow::Event(n - 1)
            &&& rows.take(before.len() as int) == before
            &&& new ==> rows.len() == before.len() + 2 && rows[before.len() as int]
                == agenda::AgendaRow::Header(agenda::header_of(day, today))
            &&& !new ==> rows.len() == before.len() + 1
        }),
{
    let rows = agenda::agenda_of(events, n, today, offset);
    let before = agenda::agenda_of(events, n - 1, today, offset);
    assert(rows.take(before.len() as int) =~= before);
}

/// An event lies on the day it starts on in local time; an all-day event lies on
/// its own day, wherever one is.
pub proof fn events_lie_on_their_day(
    e: EventRow,
    y: int,
    m: int,
    d: int,
    h: int,
    mi: int,
    ly: int,
    lm: int,
    ld: int,
    lh: int,
    lmi: int,
    offset: int,
)
    requires
        e.start_utc@ == calendar::iso_stamp(y, m, d, h, mi, 0),
        calendar::is_date(y, m, d),
        0 <= y <= 9999,
        0 <= h < 24,
        0 <= mi < 60,
        calendar::is_date(ly, lm, ld),
        0 <= lh < 24,
        0 <= lmi < 60,
        calendar::day_number(ly, lm, ld) * 1440 + lh * 60 + lmi == calendar::day_number(y, m, d)
            * 1440 + h * 60 + mi + offset,
    ensures
        e.is_all_day ==> agenda::day_of(e, offset) == (y, m, d),
        !e.is_all_day ==> agenda::day_of(e, offset) == (ly, lm, ld),
        e.is_all_day ==> agenda::span_of(e, offset) == "all day"@,
        e.is_all_day ==> agenda::when_of(e, offset) == calendar::iso_date(y, m, d)
            + " (all day)"@,
        !e.is_all_day ==> agenda::span_of(e, offset) == text::padded(lh, 2) + ":"@ + text::padded(
            lmi,
            2,
        ) + "\u{2013}"@ + agenda::local_time_of_day(e.end_utc@, offset),
        !e.is_all_day ==> agenda::when_of(e, offset) == calendar::iso_date(ly, lm, ld) + " "@ + (
        text::padded(lh, 2) + ":"@ + text::padded(lmi, 2)) + "\u{2013}"@
            + agenda::local_time_of_day(e.end_utc@, offset),
{
    stamps_begin_with_their_date(y, m, d, h, mi, 0);
    stamps_are_shown_in_local_time(y, m, d, h, mi, 0, ly, lm, ld, lh, lmi, offset);
}

/// An all-day event lasts several days where its end, the day after the last, is
/// more than one day after its start.
pub proof fn all_day_events_span_days(
    e: EventRow,
    y: int,
    m: int,
    d: int,
    ey: int,
    em: int,
    ed: int,
    offset: int,
)
    requires
        e.is_all_day,
        e.start_utc@ == calendar::iso_stamp(y, m, d, 0, 0, 0),
        e.end_utc@ == calendar::iso_stamp(ey, em, ed, 0, 0, 0),
        calendar::is_date(y, m, d),
        calendar::is_date(ey, em, ed),
        0 <= y <= 9999,
        0 <= ey <= 9999,
    ensures
        agenda::spans_days(e, offset) <==> calendar::day_number(ey, em, ed) > calendar::day_number(
            y,
            m,
            d,
        ) + 1,
{
    stamps_begin_with_their_date(y, m, d, 0, 0, 0);
    stamps_begin_with_their_date(ey, em, ed, 0, 0, 0);
}

/// Each answer has a mark of its own.
pub proof fn answers_have_their_marks(status: Seq<char>)
    ensures
        agenda::glyph_of("accepted"@) == '\u{2713}',
        agenda::glyph_of("declined"@) == '\u{2717}',
        agenda::glyph_of("tentativelyAccepted"@) == '?',
        status != "accepted"@ && status != "declined"@ && status != "tentativelyAccepted"@
            ==> agenda::glyph_of(status) == '\u{2022}',
        agenda::verb_of("accepted"@) == "Accept"@,
        agenda::verb_of("declined"@) == "Decline"@,
        agenda::verb_of("tentativelyAccepted"@) == "Tentative"@,
        keys::answer_text(RsvpKind::Accept) == "accepted"@,
        keys::answer_text(RsvpKind::Decline) == "declined"@,
        keys::answer_text(RsvpKind::Tentative) == "tentativelyAccepted"@,
{
    reveal_strlit("accepted");
    reveal_strlit("declined");
    reveal_strlit("tentativelyAccepted");
    assert("accepted"@[0] == 'a' && "declined"@[0] == 'd' && "tentativelyAccepted"@[0] == 't');
}

/// A row of the agenda shows the answer, the time, the subject and the place.
pub proof fn agenda_rows_show_the_event(e: EventRow, offset: int)
    ensures
        ({
            let head = seq![agenda::glyph_of(e.response_status@)] + " "@ + agenda::span_of(
                e,
                offset,
            ) + "  "@ + e.subject@;
            let row = agenda::event_text(e, offset);
            &&& e.location@.len() == 0 && !agenda::spans_days(e, offset) ==> row == head
            &&& e.location@.len() > 0 && !agenda::spans_days(e, offset) ==> row == head
                + " \u{2014} "@ + e.location@
            &&& e.location@.len() == 0 && agenda::spans_days(e, offset) ==> row == head
                + " (multi-day)"@
            &&& e.location@.len() > 0 && agenda::spans_days(e, offset) ==> row == head
                + " \u{2014} "@ + e.location@ + " (multi-day)"@
        }),
        ({
            let rows = agenda::detail_of(e, offset);
            &&& rows[0] == "Subject: "@ + e.subject@
            &&& rows[1] == "When: "@ + agenda::when_of(e, offset)
            &&& rows[2] == "Organizer: "@ + e.organizer_name@ + " <"@ + e.organizer_addr@ + ">"@
            &&& rows[3] == "Location: "@ + e.location@
            &&& e.series_master_id is None ==> rows.len() == 4
            &&& e.series_master_id is Some ==> rows.len() == 5 && rows[4] == "\u{21bb} repeats"@
        }),
{
}

/// Every attendee is listed, with the mark of their answer.
pub proof fn attendees_are_listed(v: Seq<Attendee>, i: int)
    requires
        0 <= i < v.len(),
    ensures
        agenda::attendees_of(v).len() == v.len() + 1,
        agenda::attendees_of(v)[i + 1] == "  "@ + seq![agenda::glyph_of(v[i].response@)] + " "@
            + v[i].name@ + " <"@ + v[i].addr@ + "> \u{2014} "@ + v[i].response@,
{
}

/// The prompt shows the fields that the answer has, with a mark where typing goes.
pub proof fn prompts_show_their_fields(p: RsvpPrompt)
    ensures
        p.kind@ == "accepted"@ ==> agenda::rsvp_rows(p).len() == 1,
        p.kind@ == "declined"@ || p.kind@ == "tentativelyAccepted"@ ==> agenda::rsvp_rows(p).len()
            == 5,
        p.kind@ == "declined"@ && p.focus == RsvpField::ProposedStart ==> agenda::rsvp_rows(p)[1]
            == "  Proposed start"@ + ": "@ + p.proposed_start@ + "_"@,
        p.kind@ == "declined"@ && p.focus == RsvpField::Comment ==> agenda::rsvp_rows(p)[1]
            == "  Proposed start"@ + ": "@ + p.proposed_start@,
        p.kind@ == "declined"@ && p.focus == RsvpField::ProposedEnd ==> agenda::rsvp_rows(p)[2]
            == "  Proposed end"@ + ": "@ + p.proposed_end@ + "_"@,
        p.focus == RsvpField::Comment ==> agenda::rsvp_rows(p).last() == "Comment"@ + ": "@
            + p.comment@ + "_"@,
        p.focus != RsvpField::Comment ==> agenda::rsvp_rows(p).last() == "Comment"@ + ": "@
            + p.comment@,
{
    reveal_strlit("accepted");
    reveal_strlit("declined");
    reveal_strlit("tentativelyAccepted");
    assert("accepted"@[0] == 'a' && "declined"@[0] == 'd' && "tentativelyAccepted"@[0] == 't');
}

/// The offset from UTC is what the zone's biases take away, with the one of the
/// season that holds.
pub proof fn offsets_follow_the_zone(bias: int, standard: int, daylight: int)
    ensures
        agenda::offset_of(0, bias, standard, daylight) == -bias,
        agenda::offset_of(1, bias, standard, daylight) == -bias - standard,
        agenda::offset_of(2, bias, standard, daylight) == -bias - daylight,
        agenda::offset_of(3, bias, standard, daylight) == 0,
{
}

// ---------------------------------------------------------------------------
// Availability
// ---------------------------------------------------------------------------

/// Free, tentative and busy are shown apart; whoever has said nothing is free.
pub proof fn availability_is_shown(e: ScheduleEntry, slot: int)
    ensures
        freebusy::glyph_of('0') == '·',
        freebusy::glyph_of('1') == '▓',
        freebusy::glyph_of('2') == '█',
        freebusy::glyph_of('3') == '█',
        freebusy::glyph_of('4') == '█',
        slot >= e.availability@.len() ==> freebusy::digit_at(e, slot) == '0',
        0 <= slot < e.availability@.len() ==> freebusy::digit_at(e, slot) == e.availability@[slot],
{
}

/// A slot is good for all only where everybody is free in it, and bad where
/// somebody is busy.
pub proof fn slots_are_judged_together(entries: Seq<ScheduleEntry>, slot: int, i: int)
    requires
        0 <= i < entries.len(),
    ensures
        freebusy::combined_of(entries, slot) == '✓' ==> freebusy::digit_at(entries[i], slot)
            == '0',
        freebusy::digit_at(entries[i], slot) == '2' || freebusy::digit_at(entries[i], slot) == '3'
            || freebusy::digit_at(entries[i], slot) == '4' ==> freebusy::combined_of(
            entries,
            slot,
        ) == '█',
        (forall|k: int|
            0 <= k < entries.len() ==> freebusy::digit_at(#[trigger] entries[k], slot) == '0')
            ==> freebusy::combined_of(entries, slot) == '✓',
        (forall|k: int|
            0 <= k < entries.len() ==> freebusy::digit_at(#[trigger] entries[k], slot) == '0'
                || freebusy::digit_at(entries[k], slot) == '1') && freebusy::digit_at(
            entries[i],
            slot,
        ) == '1' ==> freebusy::combined_of(entries, slot) == '░',
{
    assert(freebusy::is_free(entries[i], slot) == (freebusy::digit_at(entries[i], slot) == '0'));
    assert(freebusy::is_busy(entries[i], slot) == (freebusy::digit_at(entries[i], slot) == '2'
        || freebusy::digit_at(entries[i], slot) == '3' || freebusy::digit_at(entries[i], slot)
        == '4'));
    if forall|k: int|
        0 <= k < entries.len() ==> freebusy::digit_at(#[trigger] entries[k], slot) == '0'
            || freebusy::digit_at(entries[k], slot) == '1' {
        assert forall|k: int| 0 <= k < entries.len() implies !freebusy::is_busy(
            #[trigger] entries[k],
            slot,
        ) by {
            assert(freebusy::digit_at(entries[k], slot) == '0' || freebusy::digit_at(
                entries[k],
                slot,
            ) == '1');
        }
    }
}

/// The grid starts at eight o'clock: every other slot is marked with the last
/// digit of its hour. Labels take twelve columns.
pub proof fn hours_are_marked(slot: int, s: Seq<char>)
    requires
        0 <= slot < 32,
    ensures
        slot % 2 == 0 ==> freebusy::hour_mark(slot) as int == 48 + (8 + slot / 2) % 10,
        slot % 2 == 1 ==> freebusy::hour_mark(slot) == ' ',
        freebusy::label(s).len() == 12,
        s.len() <= 12 ==> freebusy::label(s).take(s.len() as int) == s,
        s.len() > 12 ==> freebusy::label(s) == s.take(12),
{
    if s.len() < 12 {
        assert((s + text::spaces(12 - s.len())).take(s.len() as int) =~= s);
    } else if s.len() == 12 {
        assert(s.take(12) =~= s);
        assert(s.take(12).take(12) =~= s);
    }
}

// ---------------------------------------------------------------------------
// The list of messages
// ---------------------------------------------------------------------------

/// A row of the list shows the marks, the time, the sender and the subject.
pub proof fn rows_show_the_message(m: MessageRow, indent: bool)
    ensures
        ({
            let flag = if m.is_flagged {
                "!"@
            } else {
                " "@
            };
            let clip = if m.has_attachments {
                "@"@
            } else {
                " "@
            };
            &&& message_list::message_text(m) == flag + clip + " "@ + message_list::brief(
                m.received_at@,
            ) + "  "@ + m.from_name@ + " \u{2014} "@ + m.subject@
            &&& m.subject@.len() > 0 && indent ==> message_list::child_text(m, true) == "    "@
                + flag + clip + " "@ + message_list::brief(m.received_at@) + "  "@ + m.from_name@
                + " \u{2014} "@ + m.subject@
            &&& m.subject@.len() == 0 && indent ==> message_list::child_text(m, true) == "    "@
                + flag + clip + " "@ + message_list::brief(m.received_at@) + "  "@ + m.from_name@
                + " \u{2014} "@ + m.preview@
        }),
{
}

/// Unread messages are bold, and so are conversations with unread messages.
pub proof fn the_unread_is_bold(threads: Seq<ThreadView>, row: Row, w: int)
    ensures
        row matches Row::Message(t, m) ==> message_list::thread_row(threads, row, w)[0].style.bold
            == !threads[t as int].thread.messages@[m as int].is_read,
        row matches Row::Header(t) ==> message_list::thread_row(threads, row, w)[0].style.bold == (
        threads[t as int].thread.unread_count > 0),
{
}

/// Participants are listed with commas between them.
pub proof fn participants_are_listed(a: Seq<char>, b: Seq<char>, c: Seq<char>)
    ensures
        message_list::joined(seq![a], 1) == a,
        message_list::joined(seq![a, b], 2) == a + ", "@ + b,
        message_list::joined(seq![a, b, c], 3) == a + ", "@ + b + ", "@ + c,
{
    reveal_with_fuel(message_list::joined, 4);
}

/// A conversation of one message is that message; one of several is its header,
/// and its messages below it where it is expanded.
pub proof fn conversations_unfold(t: usize, tv: ThreadView, i: int)
    ensures
        tv.thread.messages@.len() == 1 ==> folders::thread_rows(t as int, tv) == seq![
            Row::Message(t, 0),
        ],
        tv.thread.messages@.len() != 1 && !tv.expanded ==> folders::thread_rows(t as int, tv)
            == seq![Row::Header(t)],
        tv.thread.messages@.len() != 1 && tv.expanded ==> {
            let rows = folders::thread_rows(t as int, tv);
            &&& rows.len() == tv.thread.messages@.len() + 1
            &&& rows[0] == Row::Header(t)
            &&& 0 <= i < tv.thread.messages@.len() ==> rows[i + 1] == Row::Message(t, i as usize)
        },
{
}

// ---------------------------------------------------------------------------
// Folders
// ---------------------------------------------------------------------------

/// A folder is set in by two columns for each folder above it, and marked by
/// whether it has folders below it that are shown.
pub proof fn folders_are_set_in(v: VisibleFolder)
    ensures
        !v.has_children ==> tree::label(v) == text::spaces(2 * v.depth) + seq![' '] + " "@
            + v.row.display_name@,
        v.has_children && v.expanded ==> tree::label(v) == text::spaces(2 * v.depth) + seq![
            '\u{25be}',
        ] + " "@ + v.row.display_name@,
        v.has_children && !v.expanded ==> tree::label(v) == text::spaces(2 * v.depth) + seq![
            '\u{25b8}',
        ] + " "@ + v.row.display_name@,
        v.row.unread_count == 0 ==> tree::row_of(v, 40).len() == 1 && tree::row_of(v, 40)[0].text
            == tree::label(v),
        v.row.unread_count != 0 ==> tree::row_of(v, 40).len() == 2 && tree::row_of(v, 40)[1].text
            == text::integer(v.row.unread_count as int) && tree::row_of(v, 40)[1].style.bold,
{
}

// ---------------------------------------------------------------------------
// The composer
// ---------------------------------------------------------------------------

/// The items of an ordered list are numbered from one; anything else between two
/// items starts the count anew.
pub proof fn lists_are_numbered(blocks: Seq<Block>, i: int, level: u8)
    requires
        0 <= i < blocks.len(),
    ensures
        compose::ordinal_of(blocks, 0, level) == 1,
        (blocks[i] matches Block::ListItem { ordered, level: l, .. } && ordered && l == level)
            ==> compose::ordinal_of(blocks, i + 1, level) == compose::ordinal_of(blocks, i, level)
            + 1,
        blocks[i] is Paragraph ==> compose::ordinal_of(blocks, i + 1, level) == 1,
        (blocks[i] matches Block::ListItem { ordered, .. } && !ordered) ==> compose::ordinal_of(
            blocks,
            i + 1,
            level,
        ) == 1,
{
}

/// A list item is set in by two columns for each level, and begins with its number
/// or with a dot; a paragraph begins with its text.
pub proof fn blocks_begin_with_their_mark(blocks: Seq<Block>, i: int)
    requires
        0 <= i < blocks.len(),
    ensures
        blocks[i] is Paragraph ==> compose::prefix_of(blocks, i).len() == 0,
        blocks[i] matches Block::ListItem { ordered, level, .. } ==> {
            &&& ordered ==> compose::prefix_of(blocks, i) == text::spaces(2 * level)
                + text::integer(compose::ordinal_of(blocks, i, level) as int) + ". "@
            &&& !ordered ==> compose::prefix_of(blocks, i) == text::spaces(2 * level)
                + "\u{2022} "@
        },
{
}

/// A run is shown as it is marked.
pub proof fn runs_are_shown_as_marked(r: Run)
    ensures
        compose::style_of(r).bold == r.bold,
        compose::style_of(r).italic == r.italic,
        compose::style_of(r).underlined == r.underline,
        compose::style_of(r).fg == (if r.link is Some {
            Some(Color::Cyan)
        } else {
            None
        }),
        !compose::style_of(r).reversed,
{
}

/// The caret is shown on the character it stands in front of, and on a blank
/// behind the last.
pub proof fn the_caret_is_shown(t: Seq<char>, s: style::Style, off: int)
    requires
        0 <= off <= t.len(),
    ensures
        ({
            let v = compose::run_with_caret(t, s, off);
            let at = if off > 0 {
                1int
            } else {
                0
            };
            &&& v.len() > at
            &&& v[at].style.reversed
            &&& off < t.len() ==> v[at].text == seq![t[off]]
            &&& off == t.len() ==> v[at].text == " "@
            &&& off > 0 ==> v[0].text == t.take(off) && v[0].style == s
            &&& off + 1 < t.len() ==> v.last().text == t.skip(off + 1) && v.last().style == s
        }),
{
}

/// The body is scrolled so that the caret's row is the last one shown, or all of
/// it is shown from the top.
pub proof fn the_carets_row_is_shown(block: int, height: int)
    requires
        0 <= block,
        0 < height,
    ensures
        ({
            let top = compose::first_row(block, height);
            &&& 0 <= top <= block < top + height
            &&& top > 0 ==> block == top + height - 1
        }),
{
}

// ---------------------------------------------------------------------------
// The reader
// ---------------------------------------------------------------------------

/// Text in a body is shown as it is marked; a link is blue, and the one with the
/// focus stands out.
pub proof fn spans_are_shown_as_marked(s: StyledSpan, focused: Option<Seq<char>>)
    ensures
        ({
            let t = reading::span_style(s, focused);
            &&& t.bold == s.bold
            &&& t.italic == s.italic
            &&& t.underlined == s.underline
            &&& s.link is Some ==> t.fg == Some(Color::Blue)
            &&& s.link is None ==> t.fg is None
            &&& s.link matches Some(u) ==> (t.reversed <==> focused == Some(u@))
            &&& s.link is None ==> !t.reversed
        }),
{
}

/// An image takes ten rows, a line of text one.
pub proof fn images_take_ten_rows(v: Seq<StyledLine>, n: int)
    requires
        0 <= n < v.len(),
    ensures
        reading::rows_before(v, 0) == 0,
        v[n].image is Some ==> reading::rows_before(v, n + 1) == reading::rows_before(v, n) + 10,
        v[n].image is None ==> reading::rows_before(v, n + 1) == reading::rows_before(v, n) + 1,
{
}

/// Of an image, those of its ten rows are drawn that lie between the first row
/// shown and the last, and where they are shown.
pub proof fn images_are_drawn_where_shown(row: int, scroll: int, height: int, k: int)
    requires
        0 <= row,
        0 <= scroll,
        0 <= height,
        0 <= k < 10,
    ensures
        scroll <= row + k < scroll + height ==> (reading::band(
            row,
            scroll,
            height,
        ) matches Some((top, n)) && top <= row + k - scroll < top + n),
        reading::band(row, scroll, height) matches Some((top, n)) ==> 0 <= top && n > 0 && top + n
            <= height && row <= scroll + top && scroll + top + n <= row + 10,
{
}

/// A message's header says who sent it, what about, and when.
pub proof fn headers_say_who_and_when(
    rows: Seq<Seq<style::Shown>>,
    m: MessageRow,
    master: Seq<MasterCategory>,
)
    requires
        reading::is_header(rows, m, master),
    ensures
        rows.len() >= 3,
        rows[0][0].text == "From: "@ + m.from_name@ + " <"@ + m.from_addr@ + ">"@,
        rows[1][0].text == "Subject: "@ + m.subject@,
        rows[2][0].text == "Received: "@ + m.received_at@,
        m.is_meeting_request ==> rows.len() >= 4,
        !m.is_meeting_request && m.categories@.len() == 0 ==> rows.len() == 3,
{
}

/// A body that is being fetched is said to be, HTML is told from plain text by its
/// type, in capitals or not.
pub proof fn bodies_are_told_apart(a: App, b: model::Body)
    ensures
        a.body_loading ==> reading::body_shown(a) == reading::BodyShown::Loading,
        !a.body_loading && a.body is None ==> reading::body_shown(a) == reading::BodyShown::Missing,
        !a.body_loading && a.body == Some(b) && messages::is_html(b) ==> reading::body_shown(a)
            == reading::BodyShown::Html,
        !a.body_loading && a.body == Some(b) && !messages::is_html(b) ==> reading::body_shown(a)
            == reading::BodyShown::Text,
        b.content_type@ == "html"@ || b.content_type@ == "HTML"@ ==> messages::is_html(b),
        b.content_type@ == "text"@ ==> !messages::is_html(b),
{
    reveal_strlit("html");
    reveal_strlit("HTML");
    reveal_strlit("text");
    assert(text::ascii_lowercase("HTML"@) =~= "html"@);
    assert(text::ascii_lowercase("html"@) =~= "html"@);
    assert(text::ascii_lowercase("text"@)[0] == 't');
    assert("html"@[0] == 'h');
}

/// A content id is the same with angle brackets round it and without.
pub proof fn content_ids_lose_their_brackets(s: Seq<char>)
    requires
        s.len() > 0,
        !text::is_white_space(s[0]),
        !text::is_white_space(s.last()),
        s[0] != '<',
        s.last() != '>',
    ensures
        messages::cid_core(s) == s,
        messages::cid_core(seq!['<'] + s + seq!['>']) == s,
{
    text::lemma_trim_none(s);
    let t = seq!['<'] + s + seq!['>'];
    text::lemma_trim_none(t);
    assert(t.skip(1).drop_last() =~= s);
}

// ---------------------------------------------------------------------------
// Pickers and menus
// ---------------------------------------------------------------------------

/// In a listing, directories come before files, and each are sorted by name.
pub proof fn directories_come_first(found: Seq<FileEntry>, i: int, j: int)
    requires
        0 <= i < j < filepicker::arranged(found).len(),
    ensures
        ({
            let v = filepicker::arranged(found);
            &&& v[j].is_dir ==> v[i].is_dir
            &&& v[i].is_dir == v[j].is_dir ==> text::text_le(v[i].name@, v[j].name@)
        }),
{
    let v = filepicker::arranged(found);
    let (a, b) = (filepicker::only(found, true), filepicker::only(found, false));
    let (sa, sb) = (filepicker::by_name(a), filepicker::by_name(b));
    filepicker::sorting_sorts(a);
    filepicker::sorting_sorts(b);
    lemma_only(found, true);
    lemma_only(found, false);
    lemma_sorted_members(a, true);
    lemma_sorted_members(b, false);
    if i < sa.len() {
        assert(v[i] == sa[i]);
    } else {
        assert(v[i] == sb[i - sa.len()]);
    }
    if j < sa.len() {
        assert(v[j] == sa[j]);
    } else {
        assert(v[j] == sb[j - sa.len()]);
    }
}

proof fn lemma_only(found: Seq<FileEntry>, dirs: bool)
    ensures
        forall|k: int|
            0 <= k < filepicker::only(found, dirs).len() ==> (#[trigger] filepicker::only(
                found,
                dirs,
            )[k]).is_dir == dirs,
{
    broadcast use vstd::seq_lib::group_filter_ensures;

    let p = |e: FileEntry| e.is_dir == dirs;
    let v = filepicker::only(found, dirs);
    assert forall|k: int| 0 <= k < v.len() implies (#[trigger] v[k]).is_dir == dirs by {
        assert(p(found.filter(p)[k]));
    }
}

proof fn lemma_sorted_members(v: Seq<FileEntry>, dirs: bool)
    requires
        forall|k: int| 0 <= k < v.len() ==> (#[trigger] v[k]).is_dir == dirs,
    ensures
        forall|k: int|
            0 <= k < filepicker::by_name(v).len() ==> (#[trigger] filepicker::by_name(
                v,
            )[k]).is_dir == dirs,
        filepicker::by_name(v).len() == v.len(),
    decreases v.len(),
{
    if v.len() > 0 {
        let w = v.drop_last();
        assert forall|k: int| 0 <= k < w.len() implies (#[trigger] w[k]).is_dir == dirs by {
            assert(w[k] == v[k]);
        }
        lemma_sorted_members(w, dirs);
        let s = filepicker::by_name(w);
        let at = filepicker::place(s, v.last().name@) as int;
        lemma_place_range(s, v.last().name@);
        let t = s.insert(at, v.last());
        assert(v[v.len() - 1].is_dir == dirs);
        assert forall|k: int| 0 <= k < t.len() implies (#[trigger] t[k]).is_dir == dirs by {
            if k < at {
                assert(t[k] == s[k]);
            } else if k > at {
                assert(t[k] == s[k - 1]);
            }
        }
    }
}

proof fn lemma_place_range(v: Seq<FileEntry>, name: Seq<char>)
    ensures
        filepicker::place(v, name) <= v.len(),
    decreases v.len(),
{
    if v.len() > 0 && text::text_le(v[0].name@, name) {
        lemma_place_range(v.skip(1), name);
    }
}

/// A directory is shown by its name and a slash, a file by its name and its size.
pub proof fn entries_are_shown(e: FileEntry)
    ensures
        e.is_dir ==> filepicker::entry_row(e) == e.name@ + "/"@,
        !e.is_dir ==> filepicker::entry_row(e) == e.name@ + "  "@ + text::integer(e.size as int)
            + " B"@,
{
}

/// Each preset has its colour; what is no preset is gray.
pub proof fn presets_have_their_colors(c: Color)
    ensures
        categories::has_color("preset0"@, c) <==> c == Color::Red,
        categories::has_color("preset7"@, c) <==> c == Color::Blue,
        categories::has_color("none"@, c) <==> c == Color::Gray,
        categories::palette().len() == 25,
{
    reveal_strlit("preset");
    reveal_strlit("preset0");
    reveal_strlit("preset7");
    reveal_strlit("none");
    lemma_small_decimals();
    assert("preset"@ + text::decimal(0) =~= "preset0"@);
    assert("preset"@ + text::decimal(7) =~= "preset7"@);
    assert(categories::is_preset("preset0"@, 0));
    assert(categories::is_preset("preset7"@, 7));
    assert forall|n: int| #[trigger] categories::is_preset("preset0"@, n) implies n == 0 by {
        categories::preset_is_determined("preset0"@, n, 0);
    }
    assert forall|n: int| #[trigger] categories::is_preset("preset7"@, n) implies n == 7 by {
        categories::preset_is_determined("preset7"@, n, 7);
    }
    assert forall|n: int| !(#[trigger] categories::is_preset("none"@, n)) by {
        if categories::is_preset("none"@, n) {
            text::lemma_decimal_len(n as nat);
            assert("none"@.len() == 4);
        }
    }
}

proof fn lemma_small_decimals()
    ensures
        text::decimal(0) == seq!['0'],
        text::decimal(7) == seq!['7'],
{
}

/// The picker marks what is chosen; the filter marks nothing.
pub proof fn chosen_categories_are_marked(it: categorypicker::CategoryItem)
    ensures
        it.selected ==> categorypicker::item_row(PickerMode::Assign, it)[0].text == "[x] "@,
        !it.selected ==> categorypicker::item_row(PickerMode::Assign, it)[0].text == "[ ] "@,
        categorypicker::item_row(PickerMode::Filter, it)[0].text == ""@,
        forall|mode: PickerMode|
            (#[trigger] categorypicker::item_row(mode, it))[1].style.fg == Some(it.color)
                && categorypicker::item_row(mode, it)[2].text == it.name@,
{
}

/// The replies editor marks the setting that holds, and no other.
pub proof fn settings_are_marked()
    ensures
        oofform::status_row(OofStatus::Disabled) == "Status"@ + ": "@ + "(x) "@ + "Off"@ + "  "@
            + "( ) "@ + "On"@ + "  "@ + "( ) "@ + "Scheduled"@ + "  "@,
        oofform::status_row(OofStatus::AlwaysEnabled) == "Status"@ + ": "@ + "( ) "@ + "Off"@
            + "  "@ + "(x) "@ + "On"@ + "  "@ + "( ) "@ + "Scheduled"@ + "  "@,
        oofform::status_row(OofStatus::Scheduled) == "Status"@ + ": "@ + "( ) "@ + "Off"@ + "  "@
            + "( ) "@ + "On"@ + "  "@ + "(x) "@ + "Scheduled"@ + "  "@,
        oofform::audience_row(ExternalAudience::Nobody) == "External audience"@ + ": "@ + "(x) "@
            + "None"@ + "  "@ + "( ) "@ + "Contacts"@ + "  "@ + "( ) "@ + "All"@ + "  "@,
        oofform::audience_row(ExternalAudience::ContactsOnly) == "External audience"@ + ": "@
            + "( ) "@ + "None"@ + "  "@ + "(x) "@ + "Contacts"@ + "  "@ + "( ) "@ + "All"@ + "  "@,
        oofform::audience_row(ExternalAudience::All) == "External audience"@ + ": "@ + "( ) "@
            + "None"@ + "  "@ + "( ) "@ + "Contacts"@ + "  "@ + "(x) "@ + "All"@ + "  "@,
{
}

/// Space goes through the settings in their order: off, on, scheduled; and nobody,
/// contacts, all.
pub proof fn settings_follow_each_other()
    ensures
        oofform::status_after(OofStatus::Disabled) == OofStatus::AlwaysEnabled,
        oofform::status_after(OofStatus::AlwaysEnabled) == OofStatus::Scheduled,
        oofform::status_after(OofStatus::Scheduled) == OofStatus::Disabled,
        oofform::audience_after(ExternalAudience::Nobody) == ExternalAudience::ContactsOnly,
        oofform::audience_after(ExternalAudience::ContactsOnly) == ExternalAudience::All,
        oofform::audience_after(ExternalAudience::All) == ExternalAudience::Nobody,
{
}

/// A contact is shown by their name and address, or by the address alone where
/// there is no name.
pub proof fn contacts_are_shown(name: Seq<char>, address: Seq<char>)
    requires
        name.len() > 0,
        !text::is_white_space(name[0]),
        !text::is_white_space(name.last()),
    ensures
        eventform::contact_row(name, address) == name + " <"@ + address + ">"@,
        eventform::contact_row(Seq::empty(), address) == address,
        eventform::field_row(name, true) == name + "_"@,
        eventform::field_row(name, false) == name,
{
    text::lemma_trim_none(name);
    text::lemma_trim_none(Seq::<char>::empty());
}

/// The menu's items are the replies, the settings and the end, in this order; the
/// settings show what is on.
pub proof fn the_menu_shows_its_items(bs: backstage::Backstage, threaded: bool, notify: bool)
    requires
        bs.sel == 1,
    ensures
        backstage::item_at(0) == backstage::Item::AutoReplies,
        backstage::item_at(1) == backstage::Item::Settings,
        backstage::item_at(2) == backstage::Item::Exit,
        threaded ==> backstage::content_of(bs, threaded, notify)[2] == "  "@ + "[x]"@ + " "@
            + "Threaded conversation view"@,
        !threaded ==> backstage::content_of(bs, threaded, notify)[2] == "  "@ + "[ ]"@ + " "@
            + "Threaded conversation view"@,
        notify ==> backstage::content_of(bs, threaded, notify)[3] == "  "@ + "[x]"@ + " "@
            + "Reminder desktop notifications"@,
        !notify ==> backstage::content_of(bs, threaded, notify)[3] == "  "@ + "[ ]"@ + " "@
            + "Reminder desktop notifications"@,
{
}

// ---------------------------------------------------------------------------
// The ribbon
// ---------------------------------------------------------------------------

/// Each button does what it is named for.
pub proof fn buttons_do_what_they_name()
    ensures
        keys::act_command(Act::Compose) == Some(Command::Mail(MailCommand::ComposeNew)),
        keys::act_command(Act::Reply) == Some(Command::Mail(MailCommand::Reply(false))),
        keys::act_command(Act::ReplyAll) == Some(Command::Mail(MailCommand::Reply(true))),
        keys::act_command(Act::Forward) == Some(Command::Mail(MailCommand::Forward)),
        keys::act_command(Act::Delete) == Some(Command::Mail(MailCommand::Delete)),
        keys::act_command(Act::Flag) == Some(Command::Mail(MailCommand::ToggleFlag)),
        keys::act_command(Act::MarkRead) == Some(Command::Mail(MailCommand::MarkRead(true))),
        keys::act_command(Act::MarkUnread) == Some(Command::Mail(MailCommand::MarkRead(false))),
        keys::act_command(Act::Move) == Some(Command::Mail(MailCommand::PickFolder)),
        keys::act_command(Act::Categorize) == Some(
            Command::Mail(MailCommand::PickCategories(PickerMode::Assign)),
        ),
        keys::act_command(Act::Find) == Some(Command::Mail(MailCommand::StartSearch)),
        keys::act_command(Act::NewEvent) == Some(Command::Calendar(CalendarCommand::NewEvent)),
        keys::act_command(Act::EditEvent) == Some(Command::Calendar(CalendarCommand::EditEvent)),
        keys::act_command(Act::DeleteEvent) == Some(
            Command::Calendar(CalendarCommand::DeleteEvent),
        ),
        keys::act_command(Act::RsvpAccept) == Some(
            Command::Calendar(CalendarCommand::Rsvp(RsvpKind::Accept)),
        ),
        keys::act_command(Act::RsvpDecline) == Some(
            Command::Calendar(CalendarCommand::Rsvp(RsvpKind::Decline)),
        ),
        keys::act_command(Act::RsvpTentative) == Some(
            Command::Calendar(CalendarCommand::Rsvp(RsvpKind::Tentative)),
        ),
        keys::act_command(Act::Threaded) == Some(Command::Mail(MailCommand::ToggleThreaded)),
        keys::act_command(Act::CategoryFilter) == Some(
            Command::Mail(MailCommand::PickCategories(PickerMode::Filter)),
        ),
        keys::act_command(Act::Help) == Some(Command::Overlay(OverlayCommand::OpenHelp)),
{
}

/// The first tab opens the menu, every other shows buttons of its own; over the
/// calendar the home tab is about events.
pub proof fn tabs_show_their_buttons(calendar: bool)
    ensures
        ribbon::groups_of(0, calendar).len() == 0,
        !ribbon::has_body(0),
        forall|t: int| 1 <= t < 6 ==> #[trigger] ribbon::has_body(t),
        ribbon::groups_of(1, true)[0].2[0] == ribbon::button(
            "New",
            3,
            Act::NewEvent,
            "New event (c)",
        ),
        ribbon::groups_of(1, false)[0].2[0] == ribbon::button(
            "New",
            3,
            Act::Compose,
            "New message (c)",
        ),
        ribbon::groups_of(2, calendar).len() == 1,
        ribbon::groups_of(3, calendar).len() == 1,
        ribbon::groups_of(4, calendar).len() == 1,
        ribbon::groups_of(5, calendar).len() == 1,
{
}

/// F9 brings the focus to the tab that is shown, and takes it away again.
pub proof fn the_ribbon_takes_the_focus(a: App)
    requires
        a.ribbon_focus == ribbon::Focus::Off,
    ensures
        overlays::ribbon_toggled(a).ribbon_open,
        overlays::ribbon_toggled(a).ribbon_focus == ribbon::Focus::Tab(a.ribbon_tab),
        overlays::ribbon_toggled(overlays::ribbon_toggled(a)).ribbon_focus == ribbon::Focus::Off,
        !overlays::ribbon_toggled(overlays::ribbon_toggled(a)).ribbon_open,
{
}

// ---------------------------------------------------------------------------
// Places on the screen
// ---------------------------------------------------------------------------

/// The reminder in front is shown, with the number of those behind it.
pub proof fn the_banner_shows_the_first(a: String, b: String, c: String)
    ensures
        screen::banner_of(seq![a]) == a@ + Seq::<char>::empty() + "   [Esc to dismiss]"@,
        screen::banner_of(seq![a, b]) == a@ + ("  (+"@ + text::integer(1) + " more)"@)
            + "   [Esc to dismiss]"@,
        screen::banner_of(seq![a, b, c]) == a@ + ("  (+"@ + text::integer(2) + " more)"@)
            + "   [Esc to dismiss]"@,
{
}

/// A share of a length is the nearest whole number of columns or rows.
pub proof fn shares_are_rounded(length: int, percent: int)
    requires
        0 <= length,
        0 <= percent <= 100,
    ensures
        -50 <= 100 * layout::share(length, percent) - length * percent <= 50,
        layout::share(length, 0) == 0,
        layout::share(length, 100) == length,
{
    let p = length * percent;
    assert(100 * ((p + 50) / 100) <= p + 50 && p + 50 < 100 * ((p + 50) / 100) + 100);
}

/// The first rows, or columns, of an area and the rest of it are the whole of it.
pub proof fn parts_are_the_whole(a: Area, n: int)
    requires
        a.wf(),
        0 <= n,
    ensures
        ({
            let (x, y) = layout::parted(a, true, n);
            &&& x.height + y.height == a.height && x.y == a.y && y.y == x.y + x.height
            &&& x.width == a.width && y.width == a.width && x.x == a.x && y.x == a.x
            &&& n <= a.height ==> x.height == n
            &&& n > a.height ==> y.height == 0
        }),
        ({
            let (x, y) = layout::parted(a, false, n);
            &&& x.width + y.width == a.width && x.x == a.x && y.x == x.x + x.width
            &&& x.height == a.height && y.height == a.height && x.y == a.y && y.y == a.y
            &&& n <= a.width ==> x.width == n
        }),
        ({
            let (x, y) = layout::last_parted(a);
            &&& a.height > 0 ==> y.height == 1 && y.y == a.y + a.height - 1
            &&& x.height + y.height == a.height
        }),
{
}

/// The pane with the focus has a border of its own colour.
pub proof fn the_focus_is_shown()
    ensures
        style::border_of(true).fg == Some(Color::Cyan),
        style::border_of(false).fg == Some(Color::DarkGray),
{
}

/// As many columns are filled as fit: what is kept fits, and one more would not.
pub proof fn as_much_as_fits_is_kept(w: Seq<usize>, room: int)
    ensures
        width::fitting(w, room) <= w.len(),
        room >= 0 ==> sum(w.take(width::fitting(w, room) as int)) <= room,
        width::fitting(w, room) < w.len() && room >= 0 ==> sum(
            w.take(width::fitting(w, room) as int + 1),
        ) > room,
    decreases w.len(),
{
    let n = width::fitting(w, room) as int;
    if w.len() == 0 || w[0] > room {
        assert(w.take(0).len() == 0);
        if w.len() > 0 {
            assert(sum(w.take(1).skip(1)) == 0);
            assert(w.take(1)[0] == w[0]);
            assert(sum(w.take(1)) == w[0]);
        }
    } else {
        as_much_as_fits_is_kept(w.skip(1), room - w[0]);
        assert(w.take(n).skip(1) =~= w.skip(1).take(n - 1));
        assert(w.take(n)[0] == w[0]);
        if n < w.len() {
            assert(w.take(n + 1).skip(1) =~= w.skip(1).take(n));
            assert(w.take(n + 1)[0] == w[0]);
            assert(sum(w.take(n + 1)) == w[0] + sum(w.skip(1).take(n)));
        }
    }
}

/// Widths together.
pub open spec fn sum(w: Seq<usize>) -> int
    decreases w.len(),
{
    if w.len() == 0 {
        0
    } else {
        w[0] + sum(w.skip(1))
    }
}

}
