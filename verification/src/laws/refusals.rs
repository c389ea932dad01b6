//! What is refused and what is replaced, and what the tools ask for.

use crate::app::calendar as meetings;
use crate::app::events;
use crate::app::names;
use crate::app::reading;
use crate::app::{Action, App, Clock};
use crate::datetime;
use crate::mcp;
use crate::model;
use crate::model::{AttachmentMeta, ImageSource, SyncCommand};
use crate::text;
use crate::ui::agenda;
use crate::ui::eventform::EventForm;
use vstd::prelude::*;

verus! {

/// An event whose times cannot be read is not saved: the form stays as it was
/// typed, and says what cannot be read.
pub proof fn unreadable_events_are_refused(
    pre: App,
    post: App,
    clock: Clock,
    f: EventForm,
    start: Seq<char>,
)
    requires
        events::event_saved(pre, post, clock),
        pre.event_form == Some(f),
    ensures
        ({
            let said = post.event_form matches Some(g) && g.title == f.title && g.start == f.start
                && g.end == f.end && post.actions == pre.actions;
            let at = datetime::start_of(f.start@, clock.now, clock.offset as int);
            &&& f.all_day && datetime::local_of(f.start@, clock.now) is None ==> said
                && model::text_of(post.event_form->0.error) == Some("Invalid date"@)
            &&& !f.all_day && at is None ==> said && model::text_of(post.event_form->0.error)
                == Some("Invalid start time"@)
            &&& !f.all_day && at == Some(start) && datetime::end_of(
                f.end@,
                start,
                clock.now,
                clock.offset as int,
            ) is None ==> said && model::text_of(post.event_form->0.error) == Some(
                "Invalid end time"@,
            )
        }),
{
}

/// An end of the repeats that cannot be read is refused, and so is one before the
/// start.
pub proof fn unreadable_repeats_are_refused(
    f: EventForm,
    start: Seq<char>,
    clock: Clock,
    n: int,
)
    requires
        f.repeat is Some,
        f.editing_id is None,
        text::parse_unsigned(text::trim(f.interval@), u32::MAX as int) == Some(n),
        n >= 1,
        text::trim(f.until@).len() > 0,
    ensures
        datetime::start_of(text::trim(f.until@), clock.now, clock.offset as int) is None
            ==> events::repeats_of(f, start, clock) == Err::<Option<events::Repeats>, Seq<char>>(
            "Invalid until date"@,
        ),
        datetime::start_of(text::trim(f.until@), clock.now, clock.offset as int) is Some
            && !text::text_le(events::date_of(start), text::trim(f.until@)) ==> events::repeats_of(
            f,
            start,
            clock,
        ) == Err::<Option<events::Repeats>, Seq<char>>("Until is before start"@),
{
}

/// One event out of a series is neither changed nor deleted: that is said, and
/// nothing else happens. Any other is read to be changed, or asked about before
/// it is deleted.
pub proof fn series_are_left_alone(pre: App, post: App, id: String)
    requires
        pre.event_id() == Some(id),
        agenda::event_at(pre.agenda@, id@) < pre.agenda@.len(),
    ensures
        ({
            let e = pre.agenda@[agenda::event_at(pre.agenda@, id@)];
            &&& events::edit_begun(pre, post) && e.series_master_id is Some ==> post.actions
                == pre.actions && post.event_form == pre.event_form && model::text_of(
                post.error_notice,
            ) == Some("Recurring events can't be edited here."@)
            &&& events::edit_begun(pre, post) && e.series_master_id is None ==> post.actions@
                == pre.actions@.push(Action::ReadEvent { id })
            &&& meetings::event_deletion_begun(pre, post) && e.series_master_id is Some
                ==> post.actions == pre.actions && post.confirm == pre.confirm && model::text_of(
                post.error_notice,
            ) == Some("Recurring events can't be deleted here."@)
            &&& meetings::event_deletion_begun(pre, post) && e.series_master_id is None
                ==> post.actions == pre.actions && (post.confirm matches Some(m) && m.prompt@
                == "Delete event '"@ + e.subject@ + "'?"@)
        }),
{
}

/// Control characters are those below the space, and those from 0x7f to 0x9f; a
/// file's name holds none of them.
pub proof fn control_characters_are_replaced(c: char)
    ensures
        (c as int) < 0x20 || 0x7f <= c as int <= 0x9f ==> names::cleaned(c) == '_',
        0x20 <= c as int && !(0x7f <= c as int <= 0x9f) && c != '/' && c != '\\' && c != ':' && c
            != '%' ==> names::cleaned(c) == c,
{
}

/// A name of which nothing is left becomes `attachment`.
pub proof fn empty_names_are_replaced()
    ensures
        names::safe_name(Seq::empty()) == "attachment"@,
        names::safe_name("."@) == "attachment"@,
        names::safe_name(" "@) == "attachment"@,
{
    reveal_strlit(".");
    reveal_strlit(" ");
    let e = Seq::<char>::empty();
    reveal_with_fuel(names::without_dots, 3);
    assert(e.map_values(|c: char| names::cleaned(c)) =~= e);
    text::lemma_trim_none(e);
    let d = "."@;
    assert(d =~= seq!['.']);
    assert(d.map_values(|c: char| names::cleaned(c)) =~= d);
    assert(d.skip(1) =~= e);
    assert(names::without_dots(d) =~= d);
    text::lemma_trim_none(d);
    let s = " "@;
    assert(s =~= seq![' ']);
    assert(s.map_values(|c: char| names::cleaned(c)) =~= s);
    assert(s.skip(1) =~= e);
    assert(names::without_dots(s) =~= s);
    assert(text::trim(s).len() == 0) by {
        reveal_with_fuel(text::trim_start, 3);
        reveal_with_fuel(text::trim_end, 3);
        assert(text::is_white_space(' '));
    }
}

/// The attachments of a message whose images are wanted are fetched once.
pub proof fn attachments_are_fetched_once(
    pre: App,
    mid: App,
    post: App,
    id: String,
    sources: Seq<ImageSource>,
)
    requires
        reading::images_fetched(pre, mid, id, sources, Seq::<AttachmentMeta>::empty()),
        reading::images_fetched(mid, post, id, sources, Seq::<AttachmentMeta>::empty()),
        !pre.inline_attachments_requested,
        reading::some_cid(sources),
    ensures
        mid.actions@ == pre.actions@.push(
            Action::Send(SyncCommand::FetchAttachments { message_id: id }),
        ),
        post == mid,
{
}

/// Every tool that changes a message or reads one needs its id; marking and
/// flagging need what to set, moving needs where to.
pub proof fn tools_need_what_they_act_on(i: int)
    requires
        0 <= i < 14,
    ensures
        ({
            let t = mcp::tool_at(i);
            let (name, needed) = (t.0@, t.3);
            &&& name == "lookxy_read"@ || name == "lookxy_delete"@ || name == "lookxy_attachments"@
                ==> needed == seq!["id"]
            &&& name == "lookxy_mark"@ ==> needed == seq!["id", "read"]
            &&& name == "lookxy_flag"@ ==> needed == seq!["id", "flagged"]
            &&& name == "lookxy_move"@ ==> needed == seq!["id", "dest"]
            &&& name == "lookxy_save_attachment"@ ==> needed == seq!["id", "attachment"]
            &&& name == "lookxy_search"@ ==> needed == seq!["query"]
            &&& i == 0 ==> name == "lookxy_list"@
            &&& i == 1 ==> name == "lookxy_status"@
            &&& i == 2 ==> name == "lookxy_folders"@
            &&& i == 3 ==> name == "lookxy_messages"@
            &&& i == 4 ==> name == "lookxy_read"@
            &&& i == 5 ==> name == "lookxy_search"@
            &&& i == 6 ==> name == "lookxy_mark"@
            &&& i == 7 ==> name == "lookxy_flag"@
            &&& i == 8 ==> name == "lookxy_move"@
            &&& i == 9 ==> name == "lookxy_delete"@
            &&& i == 10 ==> name == "lookxy_attachments"@
            &&& i == 11 ==> name == "lookxy_save_attachment"@
            &&& i == 12 ==> name == "lookxy_select"@
            &&& i == 13 ==> name == "lookxy_refresh"@
        }),
{
    reveal_strlit("lookxy_list");
    reveal_strlit("lookxy_status");
    reveal_strlit("lookxy_folders");
    reveal_strlit("lookxy_messages");
    reveal_strlit("lookxy_read");
    reveal_strlit("lookxy_search");
    reveal_strlit("lookxy_mark");
    reveal_strlit("lookxy_flag");
    reveal_strlit("lookxy_move");
    reveal_strlit("lookxy_delete");
    reveal_strlit("lookxy_attachments");
    reveal_strlit("lookxy_save_attachment");
    reveal_strlit("lookxy_select");
    reveal_strlit("lookxy_refresh");
    assert("lookxy_list"@.len() == 11 && "lookxy_status"@.len() == 13 && "lookxy_folders"@.len()
        == 14 && "lookxy_messages"@.len() == 15 && "lookxy_read"@.len() == 11
        && "lookxy_search"@.len() == 13 && "lookxy_mark"@.len() == 11 && "lookxy_flag"@.len() == 11
        && "lookxy_move"@.len() == 11 && "lookxy_delete"@.len() == 13
        && "lookxy_attachments"@.len() == 18 && "lookxy_save_attachment"@.len() == 22
        && "lookxy_select"@.len() == 13 && "lookxy_refresh"@.len() == 14);
    assert("lookxy_list"@[7] == 'l' && "lookxy_read"@[7] == 'r' && "lookxy_mark"@[8] == 'a'
        && "lookxy_mark"@[7] == 'm' && "lookxy_flag"@[7] == 'f' && "lookxy_move"@[7] == 'm'
        && "lookxy_move"@[8] == 'o');
    assert("lookxy_status"@[8] == 't' && "lookxy_search"@[8] == 'e' && "lookxy_search"@[9] == 'a'
        && "lookxy_delete"@[7] == 'd' && "lookxy_select"@[8] == 'e' && "lookxy_select"@[9] == 'l'
        && "lookxy_search"@[7] == 's' && "lookxy_status"@[7] == 's' && "lookxy_select"@[7] == 's');
}

}
