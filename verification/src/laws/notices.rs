//! What the user is told, and what is kept of what came in.

use crate::app::attendees;
use crate::app::calendar as meetings;
use crate::app::categories;
use crate::app::forms;
use crate::app::overlays;
use crate::app::reminders;
use crate::app::sync;
use crate::app::{Action, App, Clock, KeyCode, RsvpField, RsvpPrompt};
use crate::datetime;
use crate::laws::agenda::reminders_go_by_the_start;
use crate::model;
use crate::model::{EventRow, ExternalAudience, OofStatus, RsvpKind, SyncCommand, SyncEvent};
use crate::text;
use crate::ui::agenda;
use crate::ui::backstage;
use crate::ui::backstage::{Backstage, Item};
use crate::ui::calendar;
use crate::ui::categorypicker::{CategoryPicker, PickerMode};
use crate::ui::folders as tree;
use crate::ui::foldertree::VisibleFolder;
use crate::ui::freebusy;
use crate::ui::freebusy::FreeBusyView;
use crate::ui::linkprompt;
use crate::ui::linkprompt::LinkPrompt;
use crate::ui::oofform::OofField;
use crate::ui::rail;
use crate::ui::reading::StyledSpan;
use crate::ui::style::Color;
use vstd::prelude::*;

verus! {

/// A reminder says how many whole minutes are left, at least one, and at what time
/// of the day the event starts; from the start on it says that it starts now.
pub proof fn reminders_say_how_long(
    e: EventRow,
    now: int,
    offset: int,
    y: int,
    m: int,
    d: int,
    h: int,
    mi: int,
    se: int,
    n: int,
)
    requires
        calendar::is_date(y, m, d),
        0 <= y <= 9999,
        0 <= h < 24,
        0 <= mi < 60,
        0 <= se < 60,
        e.start_utc@ == calendar::iso_stamp(y, m, d, h, mi, se),
    ensures
        ({
            let left = calendar::day_number(y, m, d) * 86400 + h * 3600 + mi * 60 + se - now;
            let at = agenda::local_time_of_day(e.start_utc@, offset);
            &&& left <= 0 ==> reminders::banner(e, now, offset) == "\u{23f0} "@ + e.subject@ + " "@
                + "starts now"@
            &&& 0 < left < 60 ==> reminders::banner(e, now, offset) == "\u{23f0} "@ + e.subject@
                + " "@ + ("starts in "@ + text::integer(1) + " min ("@ + at + ")"@)
            &&& 1 <= n && 60 * n <= left < 60 * n + 60 ==> reminders::banner(e, now, offset)
                == "\u{23f0} "@ + e.subject@ + " "@ + ("starts in "@ + text::integer(n) + " min ("@
                + at + ")"@)
        }),
{
    reminders_go_by_the_start(y, m, d, h, mi, se);
    let left = calendar::day_number(y, m, d) * 86400 + h * 3600 + mi * 60 + se - now;
    if 60 * n <= left < 60 * n + 60 {
        assert(left / 60 == n);
    }
}

/// A named attendee stands in front of the address, which stands in pointed
/// brackets.
pub proof fn named_attendees_are_taken(name: Seq<char>, addr: Seq<char>)
    requires
        attendees::is_plain((name, addr)),
    ensures
        attendees::attendees_in(name + " <"@ + addr + ">"@) == seq![(name, addr)],
{
    let v = seq![(name, addr)];
    assert(attendees::is_plain(v[0]));
    attendees::attendees_round_trip(v);
    reveal_with_fuel(attendees::list_of, 2);
}

/// Two named attendees are parted by a semicolon.
pub proof fn attendees_are_listed_by_name(
    a: attendees::Pair,
    b: attendees::Pair,
)
    requires
        attendees::is_plain(a),
        attendees::is_plain(b),
    ensures
        attendees::list_of(seq![a, b], 2) == a.0 + " <"@ + a.1 + ">"@ + "; "@ + (b.0 + " <"@ + b.1
            + ">"@),
        attendees::attendees_in(
            a.0 + " <"@ + a.1 + ">"@ + "; "@ + (b.0 + " <"@ + b.1 + ">"@),
        ) == seq![a, b],
{
    let v = seq![a, b];
    assert(attendees::is_plain(v[0]) && attendees::is_plain(v[1]));
    attendees::attendees_round_trip(v);
    reveal_with_fuel(attendees::list_of, 3);
}

/// The place of an image is the first that bears its id.
proof fn lemma_image_at(v: Seq<(String, Vec<u8>)>, id: Seq<char>)
    ensures
        0 <= sync::image_at(v, id) <= v.len(),
        sync::image_at(v, id) < v.len() ==> v[sync::image_at(v, id)].0@ == id,
        forall|j: int| 0 <= j < sync::image_at(v, id) ==> (#[trigger] v[j]).0@ != id,
    decreases v.len(),
{
    if v.len() > 0 && v[0].0@ != id {
        lemma_image_at(v.skip(1), id);
        assert forall|j: int| 0 <= j < sync::image_at(v, id) implies (#[trigger] v[j]).0@ != id by {
            if j > 0 {
                assert(v.skip(1)[j - 1] == v[j]);
            }
        }
    }
}

/// An image of the open message is kept under its id, in place of an older one;
/// the others stay. One of another message is not kept.
pub proof fn images_are_kept_by_their_id(
    pre: App,
    post: App,
    id: String,
    cid: String,
    bytes: Vec<u8>,
    offset: int,
)
    requires
        sync::synced(
            pre,
            post,
            SyncEvent::InlineImageReady { message_id: id, content_id: cid, bytes },
            offset,
        ),
    ensures
        pre.selected_msg is None ==> post == pre,
        pre.selected_msg matches Some(s) ==> s@ != id@ ==> post == pre,
        pre.selected_msg matches Some(s) ==> s@ == id@ ==> {
            let v = pre.inline_images@;
            let w = post.inline_images@;
            &&& post == (App { inline_images: post.inline_images, ..pre })
            &&& exists|i: int| 0 <= i < w.len() && (#[trigger] w[i]).0@ == cid@ && w[i].1 == bytes
            &&& forall|j: int|
                0 <= j < v.len() && (#[trigger] v[j]).0@ != cid@ ==> j < w.len() && w[j] == v[j]
            &&& w.len() == v.len() <==> exists|j: int|
                0 <= j < v.len() && (#[trigger] v[j]).0@ == cid@
        },
{
    let v = pre.inline_images@;
    let w = post.inline_images@;
    lemma_image_at(v, cid@);
    let i = sync::image_at(v, cid@);
    if pre.selected_msg matches Some(s) && s@ == id@ {
        assert(w[i].0@ == cid@ && w[i].1 == bytes);
    }
}

/// Saved replies are said to be saved, and their form closes; a message that was
/// sent changes nothing that is shown.
pub proof fn what_was_done_is_said(pre: App, post: App, evt: SyncEvent, offset: int)
    requires
        sync::synced(pre, post, evt, offset),
    ensures
        evt is AutomaticRepliesUpdated ==> post.oof_form is None && model::text_of(
            post.attachment_notice,
        ) == Some("Automatic replies updated"@),
        evt is Sent ==> post == pre,
{
}

/// A schedule whose start or end cannot be read is refused, and the form says
/// which; nothing goes out.
pub proof fn unreadable_windows_are_refused(pre: App, post: App, clock: Clock, start: Seq<char>)
    requires
        forms::oof_saved(pre, post, clock),
        pre.oof_form matches Some(f) && f.status == OofStatus::Scheduled,
    ensures
        datetime::start_of(pre.oof_form->0.start@, clock.now, clock.offset as int) is None ==> {
            &&& post.actions == pre.actions
            &&& post.oof_form matches Some(g) && model::text_of(g.error) == Some(
                "Invalid start time"@,
            )
        },
        datetime::start_of(pre.oof_form->0.start@, clock.now, clock.offset as int) == Some(start)
            && datetime::end_of(
            pre.oof_form->0.end@,
            start,
            clock.now,
            clock.offset as int,
        ) is None ==> {
            &&& post.actions == pre.actions
            &&& post.oof_form matches Some(g) && model::text_of(g.error) == Some(
                "Invalid end time"@,
            )
        },
{
}

/// While an answer or the replies are on their way, that is said.
pub proof fn what_is_under_way_is_said(pre: App, post: App, kind: RsvpKind, clock: Clock)
    ensures
        meetings::meeting_answered(pre, post, kind) && pre.open_invite() is Some ==> model::text_of(
            post.attachment_notice,
        ) == Some("Responding\u{2026}"@),
        meetings::meeting_answered(pre, post, kind) && pre.open_invite() is None ==> post == pre,
        forms::oof_saved(pre, post, clock) && pre.oof_form is Some && pre.oof_form->0.status
            != OofStatus::Scheduled ==> model::text_of(post.attachment_notice) == Some(
            "Saving\u{2026}"@,
        ),
{
}

/// The parts of a link are shown by their names.
pub proof fn parts_are_shown_by_name(p: LinkPrompt, width: int, i: int)
    requires
        0 <= i < linkprompt::url_parts(p.url@).len(),
        p.parsed,
    ensures
        linkprompt::shown_rows(p, width).len() == linkprompt::url_parts(p.url@).len(),
        linkprompt::shown_rows(p, width)[i] == "  "@ + linkprompt::url_parts(p.url@)[i].0 + ": "@
            + linkprompt::url_parts(p.url@)[i].1,
{
}

/// A label stands in the middle of its column; where that cannot be, one column
/// further to the left.
pub proof fn labels_stand_in_the_middle(label: Seq<char>, w: int, inner: int, left: int)
    requires
        0 <= w <= inner,
        0 <= left,
        inner - w == 2 * left || inner - w == 2 * left + 1,
    ensures
        rail::in_the_middle(label, w, inner) == text::spaces(left) + label + text::spaces(
            inner - w - left,
        ),
{
}

/// The menu says what its items are for.
pub proof fn the_menu_explains_its_items(bs: Backstage, threaded: bool, notify: bool)
    ensures
        backstage::item_at(bs.sel as int) == Item::AutoReplies ==> backstage::content_of(
            bs,
            threaded,
            notify,
        ) == seq!["Automatic Replies (Out-of-Office)"@, ""@, "Enter to open the editor."@],
        backstage::item_at(bs.sel as int) == Item::Exit ==> backstage::content_of(
            bs,
            threaded,
            notify,
        ) == seq!["Exit lookxy"@, ""@, "Enter to quit."@],
        backstage::item_label(Item::AutoReplies) == "Automatic Replies"@,
        backstage::item_label(Item::Settings) == "Settings"@,
        backstage::item_label(Item::Exit) == "Exit"@,
{
}

/// Without its filter the list is read anew, in conversations where they are
/// turned on; a list without one stays as it is.
pub proof fn lists_without_a_filter_are_read_anew(pre: App, post: App, folder: String)
    requires
        categories::category_filter_cleared(pre, post),
        pre.selected_folder == Some(folder),
    ensures
        pre.category_filter is None ==> post == pre,
        pre.category_filter is Some ==> post.category_filter is None && post.actions@
            == pre.actions@.push(
            if pre.threaded {
                Action::ReadConversations { folder, limit: 200 }
            } else {
                Action::ReadMessages { folder, limit: 200 }
            },
        ),
{
}

// ---------------------------------------------------------------------------
// Prompts and pickers
// ---------------------------------------------------------------------------

/// Esc and Left lead from the settings back to the menu, which stays open, with
/// the cursor where it was.
pub proof fn settings_lead_back_to_the_menu(pre: App, post: App, bs: Backstage, code: KeyCode)
    requires
        pre.backstage == Some(bs),
        bs.in_settings,
        code == KeyCode::Esc || code == KeyCode::Left,
        overlays::backstage_keyed(pre, post, code),
    ensures
        post.backstage matches Some(b) && !b.in_settings && b.sel == bs.sel && b.settings_sel
            == bs.settings_sel,
        post.threaded == pre.threaded,
        post.reminders_notify == pre.reminders_notify,
{
}

/// The menu moves by one line, as far as its first and last item.
pub proof fn the_menu_is_gone_through(pre: App, post: App, bs: Backstage, code: KeyCode)
    requires
        pre.backstage == Some(bs),
        !bs.in_settings,
        bs.sel < 3,
        overlays::backstage_keyed(pre, post, code),
    ensures
        code == KeyCode::Up ==> (post.backstage matches Some(b) && !b.in_settings && b.sel == (
        if bs.sel > 0 {
            bs.sel - 1
        } else {
            0
        })),
        code == KeyCode::Down ==> (post.backstage matches Some(b) && !b.in_settings && b.sel == (
        if bs.sel < 2 {
            bs.sel + 1
        } else {
            2
        })),
        code == KeyCode::Esc ==> post.backstage is None && post.quit == pre.quit,
{
}

/// Tab leads from the proposed start to the end, from there to the comment, and
/// back; where no time can be proposed, the comment keeps the focus.
pub proof fn answers_are_filled_in_order(pre: App, post: App, p: RsvpPrompt)
    requires
        meetings::rsvp_cycled(pre, post),
        pre.rsvp_prompt == Some(p),
    ensures
        p.kind@ == "declined"@ || p.kind@ == "tentativelyAccepted"@ ==> (
        post.rsvp_prompt matches Some(q) && {
            &&& p.focus == RsvpField::ProposedStart ==> q.focus == RsvpField::ProposedEnd
            &&& p.focus == RsvpField::ProposedEnd ==> q.focus == RsvpField::Comment
            &&& p.focus == RsvpField::Comment ==> q.focus == RsvpField::ProposedStart
        }),
        p.kind@ == "accepted"@ ==> (post.rsvp_prompt matches Some(q) && q.focus
            == RsvpField::Comment),
{
    reveal_strlit("accepted");
    reveal_strlit("declined");
    reveal_strlit("tentativelyAccepted");
    assert("accepted"@.len() == 8 && "declined"@.len() == 8 && "tentativelyAccepted"@.len() == 19);
    assert("accepted"@[0] == 'a' && "declined"@[0] == 'd');
}

/// The form for the replies opens empty, turned off and meant for everybody, and
/// asks for what is set.
pub proof fn replies_open_empty(pre: App, post: App)
    requires
        forms::oof_opened(pre, post),
    ensures
        post.oof_form matches Some(f) && {
            &&& f.loading
            &&& f.status == OofStatus::Disabled
            &&& f.audience == ExternalAudience::All
            &&& f.start@.len() == 0 && f.end@.len() == 0
            &&& f.internal@.len() == 0 && f.external@.len() == 0
            &&& f.focus == OofField::Status
            &&& f.error is None
        },
        post.actions@ == pre.actions@.push(Action::Send(SyncCommand::FetchAutomaticReplies)),
{
}

/// A link that is opened has a web scheme, no control character and at most 2048
/// bytes.
pub proof fn links_that_are_opened_are_plain(s: Seq<char>, i: int)
    ensures
        linkprompt::is_safe(s) ==> 0 < s.len() && vstd::utf8::encode_utf8(s).len() <= 2048,
        linkprompt::is_safe(s) && 0 <= i < s.len() ==> 0x20 <= s[i] as int && s[i] as int != 0x7f,
        vstd::utf8::encode_utf8(s).len() > 2048 ==> !linkprompt::is_safe(s),
        0 < s.len() && vstd::utf8::encode_utf8(s).len() <= 2048 && linkprompt::has_web_scheme(s)
            && (forall|j: int| 0 <= j < s.len() ==> #[trigger] s[j] as int > 0x7f || 0x20 <= (
        s[j] as int) < 0x7f) ==> linkprompt::is_safe(s),
{
}

/// The picker opens at its first category and moves by one line, as far as the
/// last.
pub proof fn categories_are_gone_through(pre: App, mid: App, post: App, mode: PickerMode)
    requires
        categories::category_picker_opened(pre, mid, mode),
        mode == PickerMode::Filter,
        categories::category_picker_moved(mid, post, 1) || categories::category_picker_moved(
            mid,
            post,
            -1,
        ),
    ensures
        mid.category_picker matches Some(p) && p.index == 0,
        post.category_picker matches Some(q) && {
            &&& q.items == mid.category_picker->0.items
            &&& categories::category_picker_moved(mid, post, -1) ==> q.index == 0
            &&& categories::category_picker_moved(mid, post, 1) ==> q.index == (
            if q.items@.len() > 1 {
                1int
            } else {
                0
            })
        },
{
    let p = mid.category_picker->0;
    assert(p.items@.len() == p.items.len());
}

/// At its last category the picker stays where it is.
pub proof fn the_picker_ends_at_the_last_category(pre: App, post: App, p: CategoryPicker)
    requires
        pre.category_picker == Some(p),
        p.index + 1 == p.items@.len(),
        categories::category_picker_moved(pre, post, 1),
    ensures
        post.category_picker == Some(p),
{
    assert(p.items@.len() == p.items.len());
}

/// The grid has a row of hours, one for each who was asked, and one for all; with
/// nobody asked it says so, and while it waits that is all it says.
pub proof fn the_grid_has_a_row_for_each(v: FreeBusyView, i: int)
    ensures
        v.loading ==> freebusy::grid(v) == seq!["loading\u{2026}"@],
        !v.loading && v.entries@.len() == 0 ==> freebusy::grid(v).len() == 3 && freebusy::grid(
            v,
        )[2] == "(no attendees)"@,
        !v.loading && 0 <= i < v.entries@.len() ==> freebusy::grid(v).len() == v.entries@.len() + 2
            && freebusy::grid(v)[i + 1] == freebusy::entry_row(
            v.entries@[i],
            v.slot_count as nat,
        ),
        !v.loading ==> freebusy::grid(v)[v.entries@.len() as int + 1].take(12) == "free?       "@,
{
    reveal_strlit("free?       ");
    reveal_strlit("free?");
    let g = freebusy::grid(v);
    if !v.loading {
        let row = freebusy::free_row(v.entries@, v.slot_count as nat);
        assert(g[v.entries@.len() as int + 1] == row);
        assert(row.take(12) =~= freebusy::label("free?"@));
        assert(freebusy::label("free?"@) =~= "free?       "@);
    }
}

/// In the text of an event, links are cyan, and nothing else is coloured.
pub proof fn links_of_events_are_cyan(s: StyledSpan)
    ensures
        s.link is Some ==> agenda::detail_style(s).fg == Some(Color::Cyan),
        s.link is None ==> agenda::detail_style(s).fg is None,
        agenda::detail_style(s).bold == s.bold,
{
}

/// Unread counts are bold and blue.
pub proof fn unread_counts_stand_out(v: VisibleFolder, width: int)
    requires
        v.row.unread_count > 0,
    ensures
        tree::row_of(v, width).len() == 2,
        tree::row_of(v, width)[1].text == text::integer(v.row.unread_count as int),
        tree::row_of(v, width)[1].style.fg == Some(Color::Blue),
        tree::row_of(v, width)[1].style.bold,
        !tree::row_of(v, width)[0].style.bold,
{
}

}
