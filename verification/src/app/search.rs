//! The search prompt and its results.

use crate::app;
use crate::app::{Action, App, SearchState};
use crate::model::MessageRow;
use crate::text;
use crate::ui;
use vstd::prelude::*;

verus! {

impl App {
    /// The messages the list shows: the results of a search, or else those of
    /// the folder.
    pub open spec fn shown_messages(self) -> Seq<MessageRow> {
        match self.search {
            Some(s) => match s.results {
                Some(r) => r@,
                None => self.messages@,
            },
            None => self.messages@,
        }
    }
}

/// The query as typed holds `t`.
pub open spec fn query_set(pre: App, post: App, s: SearchState, t: Seq<char>) -> bool {
    &&& post == (App { search: post.search, ..pre })
    &&& post.search matches Some(q) && q == (SearchState { query: q.query, ..s }) && q.query@ == t
}

pub open spec fn query_typed(pre: App, post: App, t: Seq<char>) -> bool {
    match pre.search {
        Some(s) => query_set(pre, post, s, s.query@ + t),
        None => post == pre,
    }
}

pub open spec fn query_backspaced(pre: App, post: App) -> bool {
    match pre.search {
        Some(s) => query_set(pre, post, s, text::shortened(s.query@)),
        None => post == pre,
    }
}

pub open spec fn search_started(pre: App, post: App) -> bool {
    &&& post == (App { search: post.search, msg_index: 0, ..pre })
    &&& post.search matches Some(s) && s.query@.len() == 0 && s.results is None
}

pub open spec fn search_asked(pre: App, post: App) -> bool {
    match pre.search {
        Some(s) => app::emitted(
            pre,
            post,
            seq![Action::Search { query: s.query, limit: 200 }],
        ),
        None => post == pre,
    }
}

pub open spec fn search_moved(pre: App, post: App, delta: int) -> bool {
    let n = pre.shown_messages().len() as int;
    post == if n == 0 {
        pre
    } else {
        App { msg_index: ui::wrap_index(pre.msg_index as int, delta, n) as usize, ..pre }
    }
}

pub open spec fn search_cancelled(pre: App, post: App) -> bool {
    post == (App {
        search: None,
        msg_index: ui::into_range(pre.msg_index as int, pre.messages@.len() as int) as usize,
        ..pre
    })
}

impl App {
    /// Opens the search prompt, empty.
    pub fn start_search(&mut self)
        ensures
            search_started(*old(self), *final(self)),
            old(self).rows_in_step() ==> final(self).rows_in_step(),
    {
        self.search = Some(SearchState { query: String::new(), results: None });
        self.msg_index = 0;
    }

    /// Appends to the query; nothing if the prompt is not open.
    pub fn type_query(&mut self, s: &str)
        ensures
            query_typed(*old(self), *final(self), s@),
            old(self).rows_in_step() ==> final(self).rows_in_step(),
    {
        if let Some(search) = &mut self.search {
            search.query.append(s);
        }
    }

    /// Removes the query's last character.
    pub fn backspace_query(&mut self)
        ensures
            query_backspaced(*old(self), *final(self)),
            old(self).rows_in_step() ==> final(self).rows_in_step(),
    {
        if let Some(search) = &mut self.search {
            search.query = text::without_last(search.query.as_str());
        }
    }

    /// Runs the query.
    pub fn submit_search(&mut self)
        ensures
            search_asked(*old(self), *final(self)),
            old(self).rows_in_step() ==> final(self).rows_in_step(),
    {
        let query = match &self.search {
            Some(s) => s.query.clone(),
            None => {
                return;
            },
        };
        self.emit(Action::Search { query, limit: app::SEARCH_PAGE_SIZE });
    }

    /// The results of a search; the cursor stays among what is shown.
    pub fn search_loaded(&mut self, results: Vec<MessageRow>)
        ensures
            ({
                let shown = match old(self).search {
                    Some(s) => App {
                        search: Some(SearchState { results: Some(results), ..s }),
                        ..*old(self)
                    },
                    None => *old(self),
                };
                *final(self) == (App {
                    msg_index: ui::into_range(
                        old(self).msg_index as int,
                        shown.shown_messages().len() as int,
                    ) as usize,
                    ..shown
                })
            }),
            old(self).rows_in_step() ==> final(self).rows_in_step(),
    {
        if let Some(search) = &mut self.search {
            search.results = Some(results);
        }
        let n = self.visible_message_count();
        self.msg_index = ui::in_range(self.msg_index, n);
    }

    /// Moves the cursor within what is shown, wrapping.
    pub fn move_search_selection(&mut self, delta: isize)
        ensures
            search_moved(*old(self), *final(self), delta as int),
            old(self).rows_in_step() ==> final(self).rows_in_step(),
    {
        let n = self.visible_message_count();
        if n == 0 {
            return;
        }
        self.msg_index = ui::wrapped(self.msg_index, delta, n);
    }

    /// Closes the search and returns to the folder.
    pub fn cancel_search(&mut self)
        ensures
            search_cancelled(*old(self), *final(self)),
            old(self).rows_in_step() ==> final(self).rows_in_step(),
    {
        self.search = None;
        self.msg_index = ui::in_range(self.msg_index, self.messages.len());
    }

    /// The messages the list shows.
    pub fn visible_messages(&self) -> (r: &Vec<MessageRow>)
        ensures
            r@ == self.shown_messages(),
    {
        match &self.search {
            Some(s) => match &s.results {
                Some(r) => r,
                None => &self.messages,
            },
            None => &self.messages,
        }
    }

    /// How many messages the list shows.
    pub fn visible_message_count(&self) -> (r: usize)
        ensures
            r == self.shown_messages().len(),
    {
        self.visible_messages().len()
    }
}

// ---------------------------------------------------------------------------
// Laws
// ---------------------------------------------------------------------------


/// Once a search is closed, the folder's messages are listed as before, and the
/// cursor is among them.
pub proof fn closing_a_search_restores_the_list(pre: App, post: App)
    requires
        search_cancelled(pre, post),
    ensures
        post.shown_messages() == pre.messages@,
        post.messages == pre.messages,
        pre.messages@.len() > 0 ==> post.msg_index < post.messages@.len(),
{
}

}
