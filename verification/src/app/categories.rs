//! Categories: choosing those of a message, and filtering the list by one.

use crate::app;
use crate::app::folders;
use crate::app::reading;
use crate::app::triage;
use crate::app::{Action, App};
use crate::model;
use crate::model::{MasterCategory, SyncCommand};
use crate::ui;
use crate::ui::categories;
use crate::ui::categorypicker::{CategoryItem, CategoryPicker, PickerMode};
use vstd::prelude::*;

verus! {

/// The names of the master categories.
pub open spec fn master_names(v: Seq<MasterCategory>) -> Seq<Seq<char>> {
    v.map_values(|c: MasterCategory| c.display_name@)
}

/// The names offered: the master categories, then each of the first `n` that
/// the message carries and that is not among them.
pub open spec fn offered(names: Seq<Seq<char>>, current: Seq<Seq<char>>, n: int) -> Seq<Seq<char>>
    decreases n,
{
    if n <= 0 {
        names
    } else {
        let before = offered(names, current, n - 1);
        if before.contains(current[n - 1]) {
            before
        } else {
            before.push(current[n - 1])
        }
    }
}

/// An item offers a category, in its color, chosen if the message carries it.
pub open spec fn offers(
    it: CategoryItem,
    master: Seq<MasterCategory>,
    name: Seq<char>,
    current: Seq<Seq<char>>,
) -> bool {
    &&& it.name@ == name
    &&& categories::is_color_of(master, name, it.color)
    &&& it.selected == current.contains(name)
}

/// The picker is open on these categories.
pub open spec fn picker_shows(
    p: CategoryPicker,
    mode: PickerMode,
    message_id: Option<String>,
    master: Seq<MasterCategory>,
    current: Seq<Seq<char>>,
) -> bool {
    let names = offered(master_names(master), current, current.len() as int);
    &&& p.mode == mode
    &&& p.message_id == message_id
    &&& p.index == 0
    &&& p.items@.len() == names.len()
    &&& forall|i: int|
        0 <= i < names.len() ==> offers(#[trigger] p.items@[i], master, names[i], current)
}

/// The categories of the message under the cursor, as it is loaded.
pub open spec fn carried(a: App, id: Seq<char>) -> Seq<Seq<char>> {
    match reading::loaded_row(a.messages@, a.threads@, id) {
        Some(m) => model::texts(m.categories@),
        None => Seq::empty(),
    }
}

/// The master categories are refreshed, and the picker opens: to choose those of
/// the message under the cursor, or to choose one to filter by.
pub open spec fn category_picker_opened(pre: App, post: App, mode: PickerMode) -> bool {
    &&& post == (App { category_picker: post.category_picker, actions: post.actions, ..pre })
    &&& post.actions@ =~= pre.actions@ + seq![Action::Send(SyncCommand::RefreshCategories)]
    &&& match mode {
        PickerMode::Assign => match pre.highlighted() {
            Some(m) => post.category_picker matches Some(p) && picker_shows(
                p,
                mode,
                Some(m.id),
                pre.master_categories@,
                carried(pre, m.id@),
            ),
            None => post.category_picker == pre.category_picker,
        },
        PickerMode::Filter => post.category_picker matches Some(p) && picker_shows(
            p,
            mode,
            None,
            pre.master_categories@,
            Seq::empty(),
        ),
    }
}

pub open spec fn category_picker_moved(pre: App, post: App, delta: int) -> bool {
    post == match pre.category_picker {
        Some(p) => if p.items@.len() == 0 {
            pre
        } else {
            App {
                category_picker: Some(
                    CategoryPicker {
                        index: ui::clamp_index(
                            p.index as int,
                            delta,
                            p.items@.len() as int,
                        ) as usize,
                        ..p
                    },
                ),
                ..pre
            }
        },
        None => pre,
    }
}

/// In Assign mode, the highlighted category is chosen or no longer chosen.
pub open spec fn category_toggled(pre: App, post: App) -> bool {
    match pre.category_picker {
        Some(p) => if p.mode == PickerMode::Assign && p.index < p.items@.len() {
            let it = p.items@[p.index as int];
            &&& post == (App { category_picker: post.category_picker, ..pre })
            &&& post.category_picker matches Some(q) && q == (CategoryPicker {
                items: q.items,
                ..p
            }) && q.items@ =~= p.items@.update(
                p.index as int,
                CategoryItem { selected: !it.selected, ..it },
            )
        } else {
            post == pre
        },
        None => post == pre,
    }
}

/// The names of the first `n` items that are chosen.
pub open spec fn chosen(v: Seq<CategoryItem>, n: int) -> Seq<String>
    decreases n,
{
    if n <= 0 {
        Seq::empty()
    } else if v[n - 1].selected {
        chosen(v, n - 1).push(v[n - 1].name)
    } else {
        chosen(v, n - 1)
    }
}

pub open spec fn set_categories(id: String, categories: Vec<String>) -> Action {
    Action::SetCategories { id, categories }
}

/// The categories are set, handed on, and the list asked for in between.
pub open spec fn categories_set(pre: App, post: App, id: String, names: Seq<String>) -> bool {
    exists|v: Vec<String>, w: Vec<String>|
        {
            &&& v@ == names
            &&& w@ == names
            &&& #[trigger] triage::asked_around(
                pre,
                post,
                seq![set_categories(id, v)],
                seq![Action::Send(SyncCommand::SetCategories { id, categories: w })],
            )
        }
}

/// Enter on the picker: the chosen categories become the message's, or the
/// highlighted one filters the list. The picker closes.
pub open spec fn category_picker_applied(pre: App, post: App) -> bool {
    let closed = App { category_picker: None, ..pre };
    match pre.category_picker {
        None => post == pre,
        Some(p) => match p.mode {
            PickerMode::Assign => match p.message_id {
                Some(id) => categories_set(
                    closed,
                    post,
                    id,
                    chosen(p.items@, p.items@.len() as int),
                ),
                None => post == closed,
            },
            PickerMode::Filter => folders::messages_asked(
                App {
                    category_filter: if p.index < p.items@.len() {
                        Some(p.items@[p.index as int].name)
                    } else {
                        pre.category_filter
                    },
                    ..closed
                },
                post,
            ),
        },
    }
}

/// The filter is lifted, and the whole list asked for.
pub open spec fn category_filter_cleared(pre: App, post: App) -> bool {
    if pre.category_filter is Some {
        folders::messages_asked(App { category_filter: None, ..pre }, post)
    } else {
        post == pre
    }
}

fn offered_names(master: &Vec<MasterCategory>, current: &Vec<String>) -> (r: Vec<String>)
    ensures
        model::texts(r@) == offered(
            master_names(master@),
            model::texts(current@),
            current@.len() as int,
        ),
{
    let ghost names = master_names(master@);
    let mut out: Vec<String> = Vec::new();
    let mut i: usize = 0;
    assert(model::texts(out@) =~= names.take(0));
    while i < master.len()
        invariant
            i <= master@.len(),
            names == master_names(master@),
            model::texts(out@) == names.take(i as int),
        decreases master@.len() - i,
    {
        let ghost before = out@;
        out.push(master[i].display_name.clone());
        proof {
            model::lemma_texts_push(before, out@.last());
            assert(names.take(i + 1) =~= names.take(i as int).push(names[i as int]));
        }
        i += 1;
    }
    assert(names.take(i as int) =~= names);
    let ghost all = model::texts(current@);
    let mut k: usize = 0;
    while k < current.len()
        invariant
            k <= current@.len(),
            all == model::texts(current@),
            model::texts(out@) == offered(names, all, k as int),
        decreases current@.len() - k,
    {
        assert(all[k as int] == current@[k as int]@);
        if !model::contains_text(&out, &current[k]) {
            let ghost before = out@;
            out.push(current[k].clone());
            proof {
                model::lemma_texts_push(before, out@.last());
            }
        }
        k += 1;
    }
    out
}

fn offered_items(master: &Vec<MasterCategory>, names: Vec<String>, current: &Vec<String>) -> (r: Vec<
    CategoryItem,
>)
    ensures
        r@.len() == names@.len(),
        forall|i: int|
            0 <= i < names@.len() ==> offers(
                #[trigger] r@[i],
                master@,
                names@[i]@,
                model::texts(current@),
            ),
{
    let mut out: Vec<CategoryItem> = Vec::new();
    let mut i: usize = 0;
    while i < names.len()
        invariant
            i <= names@.len(),
            out@.len() == i,
            forall|k: int|
                0 <= k < i ==> offers(
                    #[trigger] out@[k],
                    master@,
                    names@[k]@,
                    model::texts(current@),
                ),
        decreases names@.len() - i,
    {
        let color = categories::color_for(master, names[i].as_str());
        let selected = model::contains_text(current, &names[i]);
        out.push(CategoryItem { name: names[i].clone(), color, selected });
        i += 1;
    }
    out
}

fn chosen_names(v: &Vec<CategoryItem>) -> (r: Vec<String>)
    ensures
        r@ == chosen(v@, v@.len() as int),
{
    let mut out: Vec<String> = Vec::new();
    let mut i: usize = 0;
    while i < v.len()
        invariant
            i <= v@.len(),
            out@ == chosen(v@, i as int),
        decreases v@.len() - i,
    {
        if v[i].selected {
            out.push(v[i].name.clone());
        }
        i += 1;
    }
    out
}

impl App {
    /// Opens the category picker: to choose the highlighted message's
    /// categories, or one to filter by.
    pub fn open_category_picker(&mut self, mode: PickerMode)
        requires
            old(self).rows_in_step(),
        ensures
            category_picker_opened(*old(self), *final(self), mode),
            old(self).rows_in_step() ==> final(self).rows_in_step(),
    {
        let highlighted = self.highlighted_message_id();
        self.send(SyncCommand::RefreshCategories);
        let (message_id, current): (Option<String>, Vec<String>) = match mode {
            PickerMode::Assign => match highlighted {
                Some(id) => {
                    let cats: Vec<String> = match reading::find_loaded(
                        &self.messages,
                        &self.threads,
                        &id,
                    ) {
                        Some(m) => model::copy_texts(&m.categories),
                        None => Vec::new(),
                    };
                    assert(model::texts(cats@) =~= carried(*old(self), id@));
                    (Some(id), cats)
                },
                None => {
                    return;
                },
            },
            PickerMode::Filter => {
                let none: Vec<String> = Vec::new();
                assert(model::texts(none@) =~= Seq::empty());
                (None, none)
            },
        };
        let names = offered_names(&self.master_categories, &current);
        let ghost shown = names@;
        let items = offered_items(&self.master_categories, names, &current);
        assert(forall|i: int| 0 <= i < shown.len() ==> model::texts(shown)[i] == (#[trigger] shown[i])@);
        self.category_picker = Some(CategoryPicker { mode, message_id, items, index: 0 });
        proof {
            let all = offered(
                master_names(old(self).master_categories@),
                model::texts(current@),
                current@.len() as int,
            );
            assert(model::texts(shown) == all);
            assert(model::texts(current@).len() == current@.len());
            assert forall|i: int| 0 <= i < all.len() implies offers(
                #[trigger] items@[i],
                old(self).master_categories@,
                all[i],
                model::texts(current@),
            ) by {
                assert(all[i] == shown[i]@);
            }
        }
    }

    /// Moves the picker's cursor, held between the first and the last item.
    pub fn category_picker_select(&mut self, delta: isize)
        ensures
            category_picker_moved(*old(self), *final(self), delta as int),
            old(self).rows_in_step() ==> final(self).rows_in_step(),
    {
        if let Some(p) = &mut self.category_picker {
            let n = p.items.len();
            if n > 0 {
                p.index = ui::clamped(p.index, delta, n);
            }
        }
    }

    /// Chooses the highlighted category for the message, or no longer.
    pub fn category_picker_toggle(&mut self)
        ensures
            category_toggled(*old(self), *final(self)),
            old(self).rows_in_step() ==> final(self).rows_in_step(),
    {
        if let Some(p) = &mut self.category_picker {
            if p.mode == PickerMode::Assign && p.index < p.items.len() {
                let i = p.index;
                let it = &mut p.items[i];
                it.selected = !it.selected;
            }
        }
    }

    /// Applies the picker, and closes it.
    pub fn apply_category_picker(&mut self)
        ensures
            category_picker_applied(*old(self), *final(self)),
            old(self).rows_in_step() ==> final(self).rows_in_step(),
    {
        let p = match self.category_picker.take() {
            Some(p) => p,
            None => {
                return;
            },
        };
        let ghost closed = *self;
        match p.mode {
            PickerMode::Assign => {
                let id = match p.message_id {
                    Some(id) => id,
                    None => {
                        return;
                    },
                };
                let names = chosen_names(&p.items);
                let copy = model::copy_texts(&names);
                let ghost (v, w) = (names, copy);
                self.emit(Action::SetCategories { id: id.clone(), categories: names });
                let ghost a = *self;
                self.reload_messages();
                let ghost b = *self;
                self.send(SyncCommand::SetCategories { id, categories: copy });
                proof {
                    assert(app::emitted(closed, a, seq![set_categories(id, v)]));
                    assert(folders::messages_asked(a, b));
                    assert(triage::asked_around(
                        closed,
                        *self,
                        seq![set_categories(id, v)],
                        seq![Action::Send(SyncCommand::SetCategories { id, categories: w })],
                    ));
                }
            },
            PickerMode::Filter => {
                if p.index < p.items.len() {
                    self.category_filter = Some(p.items[p.index].name.clone());
                }
                self.reload_messages();
            },
        }
    }

    /// Lifts the category filter.
    pub fn clear_category_filter(&mut self)
        ensures
            category_filter_cleared(*old(self), *final(self)),
            old(self).rows_in_step() ==> final(self).rows_in_step(),
    {
        if self.category_filter.is_some() {
            self.category_filter = None;
            self.reload_messages();
        }
    }
}

/// Choosing a category twice changes nothing.
pub proof fn toggling_twice_changes_nothing(pre: App, mid: App, post: App)
    requires
        category_toggled(pre, mid),
        category_toggled(mid, post),
    ensures
        match (pre.category_picker, post.category_picker) {
            (Some(p), Some(q)) => q.items@ == p.items@,
            (None, None) => true,
            _ => false,
        },
{
    if let Some(p) = pre.category_picker {
        if p.mode == PickerMode::Assign && p.index < p.items@.len() {
            let q = post.category_picker.unwrap();
            assert(q.items@ =~= p.items@);
        }
    }
}

}
