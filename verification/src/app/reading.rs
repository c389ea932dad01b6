//! The opened message: its body, the images in it, and how far it is scrolled.

use crate::app;
use crate::app::{Action, App, ThreadView};
use crate::model;
use crate::model::{AttachmentMeta, Body, ImageSource, MessageRow, SyncCommand};
use crate::text;
use crate::ui::reading::BodyLink;
use vstd::prelude::*;

verus! {

// ---------------------------------------------------------------------------
// The opened message
// ---------------------------------------------------------------------------

/// The position of the first message with this id, or the length where there is
/// none.
pub open spec fn message_at(v: Seq<MessageRow>, id: Seq<char>) -> int
    decreases v.len(),
{
    if v.len() == 0 || v[0].id@ == id {
        0
    } else {
        1 + message_at(v.skip(1), id)
    }
}

/// The position of the first conversation that holds a message with this id, or
/// the length where none does.
pub open spec fn thread_with(v: Seq<ThreadView>, id: Seq<char>) -> int
    decreases v.len(),
{
    if v.len() == 0 || message_at(v[0].thread.messages@, id) < v[0].thread.messages@.len() {
        0
    } else {
        1 + thread_with(v.skip(1), id)
    }
}

/// The message with this id, in the list or else in a conversation.
pub open spec fn loaded_row(
    messages: Seq<MessageRow>,
    threads: Seq<ThreadView>,
    id: Seq<char>,
) -> Option<MessageRow> {
    let i = message_at(messages, id);
    let t = thread_with(threads, id);
    if i < messages.len() {
        Some(messages[i])
    } else if t < threads.len() {
        let msgs = threads[t].thread.messages@;
        Some(msgs[message_at(msgs, id)])
    } else {
        None
    }
}

impl App {
    /// The opened message's row, where it is loaded.
    pub open spec fn open_row(self) -> Option<MessageRow> {
        match self.selected_msg {
            Some(id) => loaded_row(self.messages@, self.threads@, id@),
            None => None,
        }
    }
}

pub fn find_message(v: &Vec<MessageRow>, id: &String) -> (r: usize)
    ensures
        r == message_at(v@, id@),
        r <= v@.len(),
{
    let mut i: usize = 0;
    assert(v@.skip(0) =~= v@);
    while i < v.len()
        invariant
            i <= v@.len(),
            message_at(v@, id@) == i + message_at(v@.skip(i as int), id@),
        decreases v@.len() - i,
    {
        if v[i].id == *id {
            return i;
        }
        assert(v@.skip(i as int).skip(1) =~= v@.skip(i + 1));
        i += 1;
    }
    i
}

fn find_thread(v: &Vec<ThreadView>, id: &String) -> (r: usize)
    ensures
        r == thread_with(v@, id@),
        r <= v@.len(),
        r < v@.len() ==> message_at(v@[r as int].thread.messages@, id@)
            < v@[r as int].thread.messages@.len(),
{
    let mut i: usize = 0;
    assert(v@.skip(0) =~= v@);
    while i < v.len()
        invariant
            i <= v@.len(),
            thread_with(v@, id@) == i + thread_with(v@.skip(i as int), id@),
        decreases v@.len() - i,
    {
        let at = find_message(&v[i].thread.messages, id);
        if at < v[i].thread.messages.len() {
            return i;
        }
        assert(v@.skip(i as int).skip(1) =~= v@.skip(i + 1));
        i += 1;
    }
    i
}

/// The message with this id, in the list or else in a conversation.
pub fn find_loaded<'a>(
    messages: &'a Vec<MessageRow>,
    threads: &'a Vec<ThreadView>,
    id: &String,
) -> (r: Option<&'a MessageRow>)
    ensures
        match r {
            Some(m) => loaded_row(messages@, threads@, id@) == Some(*m),
            None => loaded_row(messages@, threads@, id@) is None,
        },
{
    let i = find_message(messages, id);
    if i < messages.len() {
        return Some(&messages[i]);
    }
    let t = find_thread(threads, id);
    if t < threads.len() {
        let m = find_message(&threads[t].thread.messages, id);
        return Some(&threads[t].thread.messages[m]);
    }
    None
}

// ---------------------------------------------------------------------------
// What the methods change
// ---------------------------------------------------------------------------

/// What a body came to be.
#[derive(Debug, PartialEq, Eq)]
pub enum BodyRead {
    Found(Body),
    /// The store does not hold it.
    Missing,
    /// The store could not be read.
    Failed,
}

pub open spec fn is_html(b: Body) -> bool {
    text::ascii_lowercase(b.content_type@) == "html"@
}

/// A message is opened: the reader goes to its top, what belonged to the
/// message before is forgotten, and its body is asked for.
pub open spec fn message_opened(pre: App, post: App, id: String) -> bool {
    &&& post == (App {
        selected_msg: Some(id),
        reading_scroll: 0,
        inline_images: post.inline_images,
        requested_inline: post.requested_inline,
        inline_attachments_requested: false,
        focused_link: None,
        body_links: post.body_links,
        actions: post.actions,
        ..pre
    })
    &&& post.inline_images@.len() == 0
    &&& post.requested_inline@.len() == 0
    &&& post.body_links@.len() == 0
    &&& post.actions@ =~= pre.actions@ + seq![Action::ClearImages, Action::ReadBody { id }]
}

/// The opened message's body is asked for; without one there is no body.
pub open spec fn body_asked(pre: App, post: App) -> bool {
    match pre.selected_msg {
        Some(id) => app::emitted(pre, post, seq![Action::ReadBody { id }]),
        None => post == (App { body: None, body_loading: false, ..pre }),
    }
}

/// The images of the opened message are asked for, if its body is HTML.
pub open spec fn images_asked(pre: App, post: App) -> bool {
    match (pre.selected_msg, pre.body) {
        (Some(id), Some(b)) => if is_html(b) {
            app::emitted(pre, post, seq![Action::ReadInlineImages { id, html: b.content }])
        } else {
            post == pre
        },
        _ => post == pre,
    }
}

/// A content id without white space around it, and without the angle brackets
/// it may stand in.
pub open spec fn cid_core(s: Seq<char>) -> Seq<char> {
    let t = text::trim(s);
    let u = if t.len() > 0 && t[0] == '<' {
        t.skip(1)
    } else {
        t
    };
    if u.len() > 0 && u.last() == '>' {
        u.drop_last()
    } else {
        u
    }
}

/// The attachment holds the content that `cid` names.
pub open spec fn answers(a: AttachmentMeta, cid: Seq<char>) -> bool {
    match a.content_id {
        Some(stored) => cid_core(stored@) == cid_core(cid),
        None => false,
    }
}

/// The position of the first attachment that holds what `cid` names, or the
/// length where none does.
pub open spec fn attachment_for(metas: Seq<AttachmentMeta>, cid: Seq<char>) -> int
    decreases metas.len(),
{
    if metas.len() == 0 || answers(metas[0], cid) {
        0
    } else {
        1 + attachment_for(metas.skip(1), cid)
    }
}

/// Of the first `n` images: each that an attachment holds, and that was not
/// asked for before, is asked for. Gives what has been asked for by then, and
/// the commands.
pub open spec fn fetches(
    id: String,
    sources: Seq<ImageSource>,
    n: int,
    metas: Seq<AttachmentMeta>,
    requested: Seq<String>,
) -> (Seq<String>, Seq<Action>)
    decreases n,
{
    if n <= 0 {
        (requested, Seq::empty())
    } else {
        let (r, acts) = fetches(id, sources, n - 1, metas, requested);
        match sources[n - 1] {
            ImageSource::Cid(c) => {
                let k = attachment_for(metas, c@);
                if model::texts(r).contains(c@) || k >= metas.len() {
                    (r, acts)
                } else {
                    (
                        r.push(c),
                        acts.push(
                            Action::Send(
                                SyncCommand::FetchInlineImage {
                                    message_id: id,
                                    attachment_id: metas[k].id,
                                    content_id: c,
                                },
                            ),
                        ),
                    )
                }
            },
            _ => (r, acts),
        }
    }
}

pub open spec fn some_cid(sources: Seq<ImageSource>) -> bool {
    exists|i: int| 0 <= i < sources.len() && #[trigger] sources[i] is Cid
}

/// The images of a message are fetched, once each; where nothing is known of
/// its attachments yet, those are, once.
pub open spec fn images_fetched(
    pre: App,
    post: App,
    id: String,
    sources: Seq<ImageSource>,
    metas: Seq<AttachmentMeta>,
) -> bool {
    if !some_cid(sources) {
        post == pre
    } else if metas.len() == 0 {
        if pre.inline_attachments_requested {
            post == pre
        } else {
            &&& post == (App {
                inline_attachments_requested: true,
                actions: post.actions,
                ..pre
            })
            &&& post.actions@ =~= pre.actions@ + seq![
                Action::Send(SyncCommand::FetchAttachments { message_id: id }),
            ]
        }
    } else {
        let (r, acts) = fetches(
            id,
            sources,
            sources.len() as int,
            metas,
            pre.requested_inline@,
        );
        &&& post == (App {
            requested_inline: post.requested_inline,
            actions: post.actions,
            ..pre
        })
        &&& post.requested_inline@ =~= r
        &&& post.actions@ =~= pre.actions@ + acts
    }
}

/// What was read of a body is shown, and the images in it are asked for; one
/// that is missing is fetched.
pub open spec fn body_shown(pre: App, post: App, id: String, found: BodyRead) -> bool {
    match found {
        BodyRead::Found(b) => {
            let shown = App { body: Some(b), body_loading: false, ..pre };
            if is_html(b) {
                images_asked(shown, post)
            } else {
                post == shown
            }
        },
        BodyRead::Missing => app::emitted(
            App { body: None, body_loading: true, ..pre },
            post,
            seq![Action::Send(SyncCommand::FetchBody { id })],
        ),
        BodyRead::Failed => post == (App { body: None, body_loading: false, ..pre }),
    }
}

/// Whether a body is HTML.
pub fn html(b: &Body) -> (r: bool)
    ensures
        r == is_html(*b),
{
    let v = text::chars_of(b.content_type.as_str());
    let lower = text::lowercase(v.as_slice());
    let want = text::chars_of("html");
    text::same_chars(lower.as_slice(), want.as_slice())
}

/// Normalizes a content id for comparison: surrounding white space is trimmed,
/// then one leading `<` and one trailing `>` are stripped.
pub fn normalize_cid(s: &str) -> (r: String)
    ensures
        r@ == cid_core(s@),
{
    let t = text::trim_str(s);
    let mut from: usize = 0;
    let mut to: usize = t.len();
    if t.len() > 0 && t[0] == '<' {
        from = 1;
    }
    if to > from && t[to - 1] == '>' {
        to = to - 1;
    }
    let mid = vstd::slice::slice_subrange(t.as_slice(), from, to);
    proof {
        let u = if from == 1 {
            t@.skip(1)
        } else {
            t@
        };
        assert(u =~= t@.skip(from as int));
        assert(mid@ =~= cid_core(s@));
    }
    text::string_of(mid)
}

fn find_attachment(metas: &Vec<AttachmentMeta>, cid: &String) -> (r: usize)
    ensures
        r == attachment_for(metas@, cid@),
        r <= metas@.len(),
{
    let want = normalize_cid(cid.as_str());
    let mut i: usize = 0;
    assert(metas@.skip(0) =~= metas@);
    while i < metas.len()
        invariant
            i <= metas@.len(),
            want@ == cid_core(cid@),
            attachment_for(metas@, cid@) == i + attachment_for(metas@.skip(i as int), cid@),
        decreases metas@.len() - i,
    {
        let hit = match &metas[i].content_id {
            Some(stored) => normalize_cid(stored.as_str()) == want,
            None => false,
        };
        if hit {
            return i;
        }
        assert(metas@.skip(i as int).skip(1) =~= metas@.skip(i + 1));
        i += 1;
    }
    i
}

fn any_cid(sources: &Vec<ImageSource>) -> (r: bool)
    ensures
        r == some_cid(sources@),
{
    let mut i: usize = 0;
    while i < sources.len()
        invariant
            i <= sources@.len(),
            forall|k: int| 0 <= k < i ==> !(#[trigger] sources@[k] is Cid),
        decreases sources@.len() - i,
    {
        if let ImageSource::Cid(_) = &sources[i] {
            return true;
        }
        i += 1;
    }
    false
}

impl App {
    /// The opened message's row, in the flat list or else in the conversations.
    pub fn selected_message_row(&self) -> (r: Option<&MessageRow>)
        ensures
            match r {
                Some(m) => self.open_row() == Some(*m),
                None => self.open_row() is None,
            },
    {
        match &self.selected_msg {
            Some(id) => find_loaded(&self.messages, &self.threads, id),
            None => None,
        }
    }

    /// Opens a message in the reading pane.
    pub fn open_message(&mut self, id: &String)
        ensures
            message_opened(*old(self), *final(self), *id),
            old(self).rows_in_step() ==> final(self).rows_in_step(),
    {
        self.selected_msg = Some(id.clone());
        self.reading_scroll = 0;
        self.inline_images = Vec::new();
        self.requested_inline = Vec::new();
        self.inline_attachments_requested = false;
        self.focused_link = None;
        self.body_links = Vec::new();
        self.emit(Action::ClearImages);
        self.reload_body();
    }

    /// Asks for the opened message's body again.
    pub fn reload_body(&mut self)
        ensures
            body_asked(*old(self), *final(self)),
            old(self).rows_in_step() ==> final(self).rows_in_step(),
    {
        match &self.selected_msg {
            Some(m) => {
                let id = m.clone();
                self.emit(Action::ReadBody { id });
            },
            None => {
                self.body = None;
                self.body_loading = false;
            },
        }
    }

    /// What was read of a body. One that the store holds is shown at once;
    /// otherwise it is fetched, and a placeholder is shown meanwhile.
    pub fn body_loaded(&mut self, id: String, found: BodyRead)
        ensures
            body_shown(*old(self), *final(self), id, found),
            old(self).rows_in_step() ==> final(self).rows_in_step(),
    {
        match found {
            BodyRead::Found(b) => {
                let scan = html(&b);
                self.body = Some(b);
                self.body_loading = false;
                if scan {
                    self.request_inline_images();
                }
            },
            BodyRead::Missing => {
                self.body = None;
                self.body_loading = true;
                self.send(SyncCommand::FetchBody { id });
            },
            BodyRead::Failed => {
                self.body = None;
                self.body_loading = false;
            },
        }
    }

    /// Asks for the images of the opened HTML message.
    pub fn request_inline_images(&mut self)
        ensures
            images_asked(*old(self), *final(self)),
            old(self).rows_in_step() ==> final(self).rows_in_step(),
    {
        let id = match &self.selected_msg {
            Some(id) => id.clone(),
            None => {
                return;
            },
        };
        let content = match &self.body {
            Some(b) => {
                if !html(b) {
                    return;
                }
                b.content.clone()
            },
            None => {
                return;
            },
        };
        self.emit(Action::ReadInlineImages { id, html: content });
    }

    /// The images of message `id`, and what is known of its attachments: each
    /// image that an attachment holds is fetched, once. Where nothing is known
    /// of the attachments yet, they are fetched, once.
    pub fn inline_images_found(
        &mut self,
        id: String,
        sources: &Vec<ImageSource>,
        metas: &Vec<AttachmentMeta>,
    )
        ensures
            images_fetched(*old(self), *final(self), id, sources@, metas@),
            old(self).rows_in_step() ==> final(self).rows_in_step(),
    {
        if !any_cid(sources) {
            return;
        }
        if metas.len() == 0 {
            if !self.inline_attachments_requested {
                self.inline_attachments_requested = true;
                self.send(SyncCommand::FetchAttachments { message_id: id });
            }
            return;
        }
        let mut i: usize = 0;
        let ghost pre = *self;
        assert(self.actions@ =~= pre.actions@ + Seq::<Action>::empty());
        while i < sources.len()
            invariant
                i <= sources@.len(),
                *self == (App {
                    requested_inline: self.requested_inline,
                    actions: self.actions,
                    ..pre
                }),
                ({
                    let (r, acts) = fetches(id, sources@, i as int, metas@, pre.requested_inline@);
                    &&& self.requested_inline@ == r
                    &&& self.actions@ == pre.actions@ + acts
                }),
            decreases sources@.len() - i,
        {
            if let ImageSource::Cid(c) = &sources[i] {
                let k = find_attachment(metas, c);
                if !model::contains_text(&self.requested_inline, c) && k < metas.len() {
                    self.requested_inline.push(c.clone());
                    let ghost acts = fetches(
                        id,
                        sources@,
                        i as int,
                        metas@,
                        pre.requested_inline@,
                    ).1;
                    let cmd = SyncCommand::FetchInlineImage {
                        message_id: id.clone(),
                        attachment_id: metas[k].id.clone(),
                        content_id: c.clone(),
                    };
                    self.send(cmd);
                    assert(self.actions@ =~= pre.actions@ + acts.push(Action::Send(cmd)));
                }
            }
            i += 1;
        }
    }
}

/// Once the images of a message have been looked for, looking again asks for
/// nothing more.
pub proof fn images_are_fetched_once(
    pre: App,
    mid: App,
    post: App,
    id: String,
    sources: Seq<ImageSource>,
    metas: Seq<AttachmentMeta>,
)
    requires
        images_fetched(pre, mid, id, sources, metas),
        images_fetched(mid, post, id, sources, metas),
    ensures
        post.actions@ == mid.actions@,
        post.requested_inline@ == mid.requested_inline@,
        post.inline_attachments_requested == mid.inline_attachments_requested,
{
    if some_cid(sources) && metas.len() > 0 {
        let n = sources.len() as int;
        let r = fetches(id, sources, n, metas, pre.requested_inline@).0;
        lemma_fetches_cover(id, sources, n, metas, pre.requested_inline@, r);
        lemma_fetches_nothing(id, sources, n, metas, r);
        assert(mid.requested_inline@ == r);
    }
}

/// The image source is settled: nothing more is to be asked for it.
spec fn settled(s: ImageSource, metas: Seq<AttachmentMeta>, requested: Seq<String>) -> bool {
    match s {
        ImageSource::Cid(c) => model::texts(requested).contains(c@) || attachment_for(metas, c@)
            >= metas.len(),
        _ => true,
    }
}

proof fn lemma_contains_push(v: Seq<String>, x: String, t: Seq<char>)
    ensures
        model::texts(v).contains(t) ==> model::texts(v.push(x)).contains(t),
        model::texts(v.push(x)).contains(x@),
{
    model::lemma_texts_push(v, x);
    let a = model::texts(v);
    if a.contains(t) {
        let i = choose|i: int| 0 <= i < a.len() && a[i] == t;
        assert(a.push(x@)[i] == t);
    }
    assert(a.push(x@)[a.len() as int] == x@);
}

/// After `n` images, each of them is settled by `r`.
proof fn lemma_fetches_cover(
    id: String,
    sources: Seq<ImageSource>,
    n: int,
    metas: Seq<AttachmentMeta>,
    requested: Seq<String>,
    r: Seq<String>,
)
    requires
        0 <= n <= sources.len(),
        r == fetches(id, sources, n, metas, requested).0,
    ensures
        forall|i: int| 0 <= i < n ==> settled(#[trigger] sources[i], metas, r),
    decreases n,
{
    if n > 0 {
        let before = fetches(id, sources, n - 1, metas, requested).0;
        lemma_fetches_cover(id, sources, n - 1, metas, requested, before);
        assert forall|i: int| 0 <= i < n implies settled(#[trigger] sources[i], metas, r) by {
            if let ImageSource::Cid(c) = sources[i] {
                if r != before {
                    lemma_contains_push(before, r.last(), c@);
                    assert(r =~= before.push(r.last()));
                }
            }
        }
    }
}

/// Where every image is settled nothing is asked for.
proof fn lemma_fetches_nothing(
    id: String,
    sources: Seq<ImageSource>,
    n: int,
    metas: Seq<AttachmentMeta>,
    r: Seq<String>,
)
    requires
        0 <= n <= sources.len(),
        forall|i: int| 0 <= i < n ==> settled(#[trigger] sources[i], metas, r),
    ensures
        fetches(id, sources, n, metas, r).0 == r,
        fetches(id, sources, n, metas, r).1.len() == 0,
    decreases n,
{
    if n > 0 {
        lemma_fetches_nothing(id, sources, n - 1, metas, r);
        assert(settled(sources[n - 1], metas, r));
    }
}

// ---------------------------------------------------------------------------
// Scrolling
// ---------------------------------------------------------------------------

impl App {
    /// The furthest the body can be scrolled.
    pub open spec fn max_scroll(self) -> int {
        if self.reading_content_rows > self.reading_viewport {
            self.reading_content_rows - self.reading_viewport
        } else {
            0
        }
    }
}

/// The body is scrolled by `delta` rows, no further than its ends.
pub open spec fn scrolled_by(pre: App, post: App, delta: int) -> bool {
    let at = pre.reading_scroll + delta;
    post == (App {
        reading_scroll: (if at < 0 {
            0
        } else if at > pre.max_scroll() {
            pre.max_scroll()
        } else {
            at
        }) as usize,
        ..pre
    })
}

/// Scrolling never leaves the body: the first row shown is one from which the
/// pane can be filled, or the top.
pub proof fn scrolling_stays_in_the_body(pre: App, post: App, delta: int)
    requires
        scrolled_by(pre, post, delta),
    ensures
        0 <= post.reading_scroll <= post.max_scroll(),
{
}

impl App {
    fn reading_max_scroll(&self) -> (r: usize)
        ensures
            r == self.max_scroll(),
    {
        if self.reading_content_rows > self.reading_viewport {
            self.reading_content_rows - self.reading_viewport
        } else {
            0
        }
    }

    fn scroll(&mut self, delta: i128)
        requires
            i128::MIN <= old(self).reading_scroll + delta <= i128::MAX,
        ensures
            scrolled_by(*old(self), *final(self), delta as int),
    {
        let max = self.reading_max_scroll();
        let at: i128 = self.reading_scroll as i128 + delta;
        self.reading_scroll = if at < 0 {
            0
        } else if at > max as i128 {
            max
        } else {
            at as usize
        };
    }

    /// Scrolls the reading pane by `delta` rows.
    pub fn reading_scroll_by(&mut self, delta: isize)
        ensures
            scrolled_by(*old(self), *final(self), delta as int),
            final(self).reading_scroll <= final(self).max_scroll(),
            old(self).rows_in_step() ==> final(self).rows_in_step(),
    {
        self.scroll(delta as i128);
    }

    /// Scrolls the reading pane by one viewport, and at least by one row.
    pub fn reading_scroll_page(&mut self, dir: isize)
        ensures
            scrolled_by(
                *old(self),
                *final(self),
                dir * (if old(self).reading_viewport > 1 {
                    old(self).reading_viewport as int
                } else {
                    1
                }),
            ),
            final(self).reading_scroll <= final(self).max_scroll(),
            old(self).rows_in_step() ==> final(self).rows_in_step(),
    {
        let page: i128 = if self.reading_viewport > 1 {
            self.reading_viewport as i128
        } else {
            1
        };
        proof {
            let d = dir as int;
            let p = page as int;
            assert(-0x8000_0000_0000_0000 * 0xffff_ffff_ffff_ffff <= d * p <= 0x7fff_ffff_ffff_ffff
                * 0xffff_ffff_ffff_ffff) by (nonlinear_arith)
                requires
                    -0x8000_0000_0000_0000 <= d <= 0x7fff_ffff_ffff_ffff,
                    1 <= p <= 0xffff_ffff_ffff_ffff,
            ;
        }
        self.scroll(dir as i128 * page);
    }

    /// Goes to the top of the body.
    pub fn reading_scroll_home(&mut self)
        ensures
            *final(self) == (App { reading_scroll: 0, ..*old(self) }),
            old(self).rows_in_step() ==> final(self).rows_in_step(),
    {
        self.reading_scroll = 0;
    }

    /// Goes to the bottom of the body.
    pub fn reading_scroll_end(&mut self)
        ensures
            *final(self) == (App { reading_scroll: old(self).max_scroll() as usize, ..*old(self) }),
            old(self).rows_in_step() ==> final(self).rows_in_step(),
    {
        self.reading_scroll = self.reading_max_scroll();
    }
}

/// The body has been laid out in `rows` rows, of which `viewport` fit: the links
/// are those of the layout, and the scroll stays within it.
pub open spec fn laid_out(
    pre: App,
    post: App,
    links: Vec<BodyLink>,
    rows: usize,
    viewport: usize,
) -> bool {
    let room = if rows > viewport {
        rows - viewport
    } else {
        0
    };
    post == (App {
        body_links: links,
        reading_content_rows: rows,
        reading_viewport: viewport,
        reading_scroll: (if pre.reading_scroll > room {
            room
        } else {
            pre.reading_scroll as int
        }) as usize,
        ..pre
    })
}

impl App {
    /// Where the focused link leads.
    pub open spec fn link_target(self) -> Option<String> {
        match self.focused_link {
            Some(i) => if i < self.body_links@.len() {
                Some(self.body_links@[i as int].url)
            } else {
                None
            },
            None => None,
        }
    }

    /// Where the focused link leads, if one is focused.
    pub fn focused_url(&self) -> (r: Option<String>)
        ensures
            r == self.link_target(),
    {
        match self.focused_link {
            Some(i) => {
                if i < self.body_links.len() {
                    Some(self.body_links[i].url.clone())
                } else {
                    None
                }
            },
            None => None,
        }
    }

    /// The body has been laid out.
    pub fn body_laid_out(&mut self, links: Vec<BodyLink>, rows: usize, viewport: usize)
        ensures
            laid_out(*old(self), *final(self), links, rows, viewport),
            final(self).reading_scroll <= final(self).max_scroll(),
            old(self).rows_in_step() ==> final(self).rows_in_step(),
    {
        let room: usize = if rows > viewport {
            rows - viewport
        } else {
            0
        };
        self.body_links = links;
        self.reading_content_rows = rows;
        self.reading_viewport = viewport;
        if self.reading_scroll > room {
            self.reading_scroll = room;
        }
    }
}

}
