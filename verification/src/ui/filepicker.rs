//! A filesystem-browser popup for choosing a file to attach: `..` goes up,
//! Enter on a directory descends, Enter on a file selects it.

use crate::text;
use crate::ui;
use vstd::prelude::*;

verus! {

/// One row in the file picker: a directory (including the synthetic `..`) or a
/// file.
#[derive(Debug, PartialEq, Eq)]
pub struct FileEntry {
    pub name: String,
    pub path: String,
    pub is_dir: bool,
    pub size: u64,
}

/// The open file picker: the directory being browsed, its entries, and the
/// cursor.
#[derive(Debug, PartialEq, Eq)]
pub struct FilePicker {
    pub dir: String,
    pub entries: Vec<FileEntry>,
    pub index: usize,
}

/// What Enter on the selected entry came to.
#[derive(Debug, PartialEq, Eq)]
pub enum Entered {
    /// There was no entry.
    Nothing,
    /// A directory, to be listed next.
    Directory(String),
    /// A file, chosen.
    File(String),
}

/// How many of the sorted entries stand before a new one: those whose name
/// does not come after it.
pub open spec fn place(v: Seq<FileEntry>, name: Seq<char>) -> nat
    decreases v.len(),
{
    if v.len() == 0 || !text::text_le(v[0].name@, name) {
        0
    } else {
        1 + place(v.skip(1), name)
    }
}

/// The entries sorted by name, those with one name in the order they came.
pub open spec fn by_name(v: Seq<FileEntry>) -> Seq<FileEntry>
    decreases v.len(),
{
    if v.len() == 0 {
        v
    } else {
        let s = by_name(v.drop_last());
        s.insert(place(s, v.last().name@) as int, v.last())
    }
}

pub open spec fn is_by_name(v: Seq<FileEntry>) -> bool {
    forall|i: int, j: int|
        0 <= i <= j < v.len() ==> text::text_le((#[trigger] v[i]).name@, (#[trigger] v[j]).name@)
}

proof fn lemma_place(v: Seq<FileEntry>, name: Seq<char>)
    requires
        is_by_name(v),
    ensures
        place(v, name) <= v.len(),
        forall|i: int| 0 <= i < place(v, name) ==> text::text_le((#[trigger] v[i]).name@, name),
        forall|i: int| place(v, name) <= i < v.len() ==> !text::text_le((#[trigger] v[i]).name@, name),
    decreases v.len(),
{
    if v.len() > 0 {
        let w = v.skip(1);
        assert forall|i: int, j: int| 0 <= i <= j < w.len() implies text::text_le(
            (#[trigger] w[i]).name@,
            (#[trigger] w[j]).name@,
        ) by {
            assert(w[i] == v[i + 1] && w[j] == v[j + 1]);
        }
        if text::text_le(v[0].name@, name) {
            lemma_place(w, name);
            assert forall|i: int| 0 <= i < place(v, name) implies text::text_le(
                (#[trigger] v[i]).name@,
                name,
            ) by {
                if i > 0 {
                    assert(v[i] == w[i - 1]);
                }
            }
            assert forall|i: int| place(v, name) <= i < v.len() implies !text::text_le(
                (#[trigger] v[i]).name@,
                name,
            ) by {
                assert(v[i] == w[i - 1]);
            }
        } else {
            assert forall|i: int| 0 <= i < v.len() implies !text::text_le(
                (#[trigger] v[i]).name@,
                name,
            ) by {
                assert(text::text_le(v[0].name@, v[i].name@));
                if text::text_le(v[i].name@, name) {
                    text::text_le_is_transitive(v[0].name@, v[i].name@, name);
                }
            }
        }
    }
}

/// Sorting by name gives the same entries, in the order of their names.
pub proof fn sorting_sorts(v: Seq<FileEntry>)
    ensures
        is_by_name(by_name(v)),
        by_name(v).to_multiset() == v.to_multiset(),
        by_name(v).len() == v.len(),
    decreases v.len(),
{
    if v.len() > 0 {
        let s = by_name(v.drop_last());
        let x = v.last();
        sorting_sorts(v.drop_last());
        lemma_place(s, x.name@);
        let k = place(s, x.name@) as int;
        let t = s.insert(k, x);
        assert forall|i: int, j: int| 0 <= i <= j < t.len() implies text::text_le(
            (#[trigger] t[i]).name@,
            (#[trigger] t[j]).name@,
        ) by {
            let a = if i < k {
                i
            } else {
                i - 1
            };
            let b = if j < k {
                j
            } else {
                j - 1
            };
            if i == k && j == k {
                text::text_le_is_total(x.name@, x.name@);
            } else if i == k {
                assert(t[j] == s[b]);
                text::text_le_is_total(s[b].name@, x.name@);
            } else if j == k {
                assert(t[i] == s[a]);
            } else {
                assert(t[i] == s[a] && t[j] == s[b]);
            }
        }
        assert(v =~= v.drop_last().push(x));
        broadcast use vstd::seq_lib::group_to_multiset_ensures;
        assert(t.to_multiset() =~= s.to_multiset().insert(x));
        assert(v.to_multiset() =~= v.drop_last().to_multiset().insert(x));
    }
}

fn insert_by_name(v: &mut Vec<FileEntry>, e: FileEntry)
    requires
        place(old(v)@, e.name@) <= old(v)@.len(),
    ensures
        final(v)@ == old(v)@.insert(place(old(v)@, e.name@) as int, e),
{
    let mut i: usize = 0;
    assert(v@.skip(0) =~= v@);
    while i < v.len() && text::le_text(v[i].name.as_str(), e.name.as_str())
        invariant
            i <= v@.len(),
            place(v@, e.name@) == i + place(v@.skip(i as int), e.name@),
        decreases v@.len() - i,
    {
        assert(v@.skip(i as int).skip(1) =~= v@.skip(i as int + 1));
        i += 1;
    }
    assert(v@.skip(i as int).len() == v@.len() - i);
    v.insert(i, e);
}

// ---------------------------------------------------------------------------
// Listing
// ---------------------------------------------------------------------------

pub open spec fn only(v: Seq<FileEntry>, dirs: bool) -> Seq<FileEntry> {
    v.filter(|e: FileEntry| e.is_dir == dirs)
}

/// Directories by name, then files by name.
pub open spec fn arranged(found: Seq<FileEntry>) -> Seq<FileEntry> {
    by_name(only(found, true)) + by_name(only(found, false))
}

/// The entry that goes up to `parent`.
pub open spec fn is_up(e: FileEntry, parent: Seq<char>) -> bool {
    e.name@ == ".."@ && e.path@ == parent && e.is_dir && e.size == 0
}

/// `shown` lists a directory that holds `found`, with `..` first where it has
/// a parent.
pub open spec fn is_listing(
    shown: Seq<FileEntry>,
    parent: Option<String>,
    found: Seq<FileEntry>,
) -> bool {
    match parent {
        Some(p) => shown.len() > 0 && is_up(shown[0], p@) && shown.skip(1) == arranged(found),
        None => shown == arranged(found),
    }
}

/// Arranges what a directory holds: a synthetic `..` (its parent) first when
/// there is one, then subdirectories (sorted by name), then files (sorted by
/// name).
pub fn listing(parent: Option<String>, found: Vec<FileEntry>) -> (r: Vec<FileEntry>)
    ensures
        is_listing(r@, parent, found@),
{
    let ghost all = found@;
    let mut dirs: Vec<FileEntry> = Vec::new();
    let mut files: Vec<FileEntry> = Vec::new();
    let mut rest: Vec<FileEntry> = found;
    let ghost is_d = |e: FileEntry| e.is_dir == true;
    let ghost is_f = |e: FileEntry| e.is_dir == false;
    let ghost mut i: int = 0;
    assert(all.take(0).filter(is_d) =~= Seq::empty());
    assert(all.take(0).filter(is_f) =~= Seq::empty());
    while rest.len() > 0
        invariant
            0 <= i <= all.len(),
            rest@ == all.skip(i),
            is_d == (|e: FileEntry| e.is_dir == true),
            is_f == (|e: FileEntry| e.is_dir == false),
            dirs@ == by_name(all.take(i).filter(is_d)),
            files@ == by_name(all.take(i).filter(is_f)),
        decreases rest@.len(),
    {
        let e = rest.remove(0);
        proof {
            assert(e == all[i]);
            assert(all.take(i + 1) =~= all.take(i).push(e));
            crate::model::lemma_filter_push(all.take(i), e, is_d);
            crate::model::lemma_filter_push(all.take(i), e, is_f);
            sorting_sorts(all.take(i).filter(is_d));
            sorting_sorts(all.take(i).filter(is_f));
            lemma_place(dirs@, e.name@);
            lemma_place(files@, e.name@);
            assert(all.take(i).filter(is_d).push(e).drop_last() =~= all.take(i).filter(is_d));
            assert(all.take(i).filter(is_f).push(e).drop_last() =~= all.take(i).filter(is_f));
        }
        if e.is_dir {
            insert_by_name(&mut dirs, e);
        } else {
            insert_by_name(&mut files, e);
        }
        proof {
            i = i + 1;
            assert(rest@ =~= all.skip(i));
        }
    }
    assert(all.take(i) =~= all);
    let mut out: Vec<FileEntry> = Vec::new();
    let ghost up = parent is Some;
    let ghost top = parent;
    match parent {
        Some(p) => {
            out.push(FileEntry { name: "..".to_string(), path: p, is_dir: true, size: 0 });
        },
        None => {},
    }
    let ghost head = out@;
    let ghost ds = dirs@;
    let ghost fs = files@;
    out.append(&mut dirs);
    out.append(&mut files);
    proof {
        assert(out@ =~= head + (ds + fs));
        if up {
            assert(out@.skip(1) =~= ds + fs);
        } else {
            assert(out@ =~= ds + fs);
        }
    }
    out
}

impl FilePicker {
    /// Opens the picker on `dir`, listing what it holds.
    pub fn open(dir: String, parent: Option<String>, found: Vec<FileEntry>) -> (r: FilePicker)
        ensures
            r.dir == dir,
            r.index == 0,
            is_listing(r.entries@, parent, found@),
    {
        let entries = listing(parent, found);
        FilePicker { dir, entries, index: 0 }
    }

    /// Moves the cursor, clamped to the entry list.
    pub fn move_selection(&mut self, delta: isize)
        ensures
            *final(self) == (FilePicker {
                index: (if old(self).entries@.len() == 0 {
                    old(self).index as int
                } else {
                    ui::clamp_index(
                        old(self).index as int,
                        delta as int,
                        old(self).entries@.len() as int,
                    )
                }) as usize,
                ..*old(self)
            }),
    {
        if self.entries.len() == 0 {
            return;
        }
        self.index = ui::clamped(self.index, delta, self.entries.len());
    }

    /// Enter on the selected entry: a directory is to be listed next, a file is
    /// chosen, and on an empty list there is nothing.
    pub fn enter(&self) -> (r: Entered)
        ensures
            r == (if self.index < self.entries@.len() {
                let e = self.entries@[self.index as int];
                if e.is_dir {
                    Entered::Directory(e.path)
                } else {
                    Entered::File(e.path)
                }
            } else {
                Entered::Nothing
            }),
    {
        if self.index < self.entries.len() {
            let e = &self.entries[self.index];
            if e.is_dir {
                Entered::Directory(e.path.clone())
            } else {
                Entered::File(e.path.clone())
            }
        } else {
            Entered::Nothing
        }
    }
}

/// `name/` for a directory, `name  N B` for a file.
pub open spec fn entry_row(e: FileEntry) -> Seq<char> {
    if e.is_dir {
        e.name@ + "/"@
    } else {
        e.name@ + "  "@ + text::integer(e.size as int) + " B"@
    }
}

/// One row of the popup.
pub fn entry_text(e: &FileEntry) -> (r: String)
    ensures
        r@ == entry_row(*e),
{
    let mut s: String = e.name.clone();
    if e.is_dir {
        s.append("/");
    } else {
        s.append("  ");
        text::push_integer(&mut s, e.size as i128);
        s.append(" B");
    }
    s
}

}
