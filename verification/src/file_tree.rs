//! A rooted directory navigator: deterministic listings and navigation
//! clamped to a fixed root.
//!
//! The filesystem itself is a collaborator: callers read a directory and
//! hand its raw entries in; every decision made on them is verified here.

use vstd::prelude::*;

use crate::text::{is_prefix, lemma_lex_le_total, lemma_lex_le_trans, lex_le, name_le,
    starts_with_str};

verus! {

broadcast use vstd::seq_lib::to_multiset_insert, vstd::seq_lib::to_multiset_remove,
    vstd::seq_lib::to_multiset_len;

/// One raw directory entry as the filesystem collaborator reports it.
#[derive(Clone, Debug, PartialEq, Eq)]
pub struct DirEntryInfo {
    pub name: String,
    pub path: String,
    pub is_file: bool,
    pub is_dir: bool,
}

/// The mathematical content of a raw directory entry.
pub struct EntryView {
    pub name: Seq<char>,
    pub path: Seq<char>,
    pub is_file: bool,
    pub is_dir: bool,
}

impl View for DirEntryInfo {
    type V = EntryView;

    open spec fn view(&self) -> EntryView {
        EntryView { name: self.name@, path: self.path@, is_file: self.is_file, is_dir: self.is_dir }
    }
}

/// One entry of a listing: the synthetic "go up" control, a directory, or
/// a file. Names are never empty for real filesystem entries; the control
/// entry's name is the conventional "..".
#[derive(Clone, Debug, PartialEq, Eq)]
pub enum FileTreeItem {
    Control { name: String, path: String },
    Directory { name: String, path: String },
    File { name: String, path: String },
}

/// The mathematical content of one listing entry.
pub enum ItemView {
    Control { name: Seq<char>, path: Seq<char> },
    Directory { name: Seq<char>, path: Seq<char> },
    File { name: Seq<char>, path: Seq<char> },
}

impl View for FileTreeItem {
    type V = ItemView;

    open spec fn view(&self) -> ItemView {
        match self {
            FileTreeItem::Control { name, path } => ItemView::Control {
                name: name@,
                path: path@,
            },
            FileTreeItem::Directory { name, path } => ItemView::Directory {
                name: name@,
                path: path@,
            },
            FileTreeItem::File { name, path } => ItemView::File { name: name@, path: path@ },
        }
    }
}

/// The display name of a listing entry.
pub open spec fn item_name(v: ItemView) -> Seq<char> {
    match v {
        ItemView::Control { name, .. } => name,
        ItemView::Directory { name, .. } => name,
        ItemView::File { name, .. } => name,
    }
}

/// The navigable path of a listing entry.
pub open spec fn item_path(v: ItemView) -> Seq<char> {
    match v {
        ItemView::Control { path, .. } => path,
        ItemView::Directory { path, .. } => path,
        ItemView::File { path, .. } => path,
    }
}

pub open spec fn views_of(s: Seq<FileTreeItem>) -> Seq<ItemView> {
    s.map_values(|x: FileTreeItem| x@)
}

pub open spec fn entry_views(s: Seq<DirEntryInfo>) -> Seq<EntryView> {
    s.map_values(|e: DirEntryInfo| e@)
}

/// The file entries of a raw listing, in their reported order.
pub open spec fn file_items(es: Seq<EntryView>) -> Seq<ItemView>
    decreases es.len(),
{
    if es.len() == 0 {
        Seq::empty()
    } else {
        file_items(es.drop_last()) + (if es.last().is_file {
            seq![ItemView::File { name: es.last().name, path: es.last().path }]
        } else {
            Seq::empty()
        })
    }
}

/// The directory entries of a raw listing, in their reported order.
pub open spec fn dir_items(es: Seq<EntryView>) -> Seq<ItemView>
    decreases es.len(),
{
    if es.len() == 0 {
        Seq::empty()
    } else {
        dir_items(es.drop_last()) + (if es.last().is_dir {
            seq![ItemView::Directory { name: es.last().name, path: es.last().path }]
        } else {
            Seq::empty()
        })
    }
}

/// Entries stand in ascending name order.
pub open spec fn items_sorted(s: Seq<ItemView>) -> bool {
    forall|i: int, j: int|
        0 <= i < j < s.len() ==> lex_le(item_name(#[trigger] s[i]), item_name(#[trigger] s[j]))
}

/// `items` is the listing of the raw entries `es` with back path `back`:
/// one "go up" control first, then the files sorted by name, then the
/// directories sorted by name.
pub open spec fn is_listing(items: Seq<ItemView>, es: Seq<EntryView>, back: Seq<char>) -> bool {
    let nf = file_items(es).len() as int;
    let nd = dir_items(es).len() as int;
    &&& items.len() == 1 + nf + nd
    &&& items[0] == (ItemView::Control { name: ".."@, path: back })
    &&& items.subrange(1, 1 + nf).to_multiset() == file_items(es).to_multiset()
    &&& items_sorted(items.subrange(1, 1 + nf))
    &&& items.subrange(1 + nf, items.len() as int).to_multiset() == dir_items(es).to_multiset()
    &&& items_sorted(items.subrange(1 + nf, items.len() as int))
}

impl FileTreeItem {
    /// The entry's display name.
    pub fn get_name(&self) -> (r: String)
        ensures
            r@ == item_name(self@),
    {
        match self {
            FileTreeItem::Control { name, .. } => name.clone(),
            FileTreeItem::Directory { name, .. } => name.clone(),
            FileTreeItem::File { name, .. } => name.clone(),
        }
    }

    /// The entry's navigable path.
    pub fn get_path(&self) -> (r: String)
        ensures
            r@ == item_path(self@),
    {
        match self {
            FileTreeItem::Control { path, .. } => path.clone(),
            FileTreeItem::Directory { path, .. } => path.clone(),
            FileTreeItem::File { path, .. } => path.clone(),
        }
    }

    fn name_ref(&self) -> (r: &String)
        ensures
            r@ == item_name(self@),
    {
        match self {
            FileTreeItem::Control { name, .. } => name,
            FileTreeItem::Directory { name, .. } => name,
            FileTreeItem::File { name, .. } => name,
        }
    }
}

fn collect_file_items(entries: &Vec<DirEntryInfo>) -> (r: Vec<FileTreeItem>)
    ensures
        views_of(r@) == file_items(entry_views(entries@)),
{
    let n = entries.len();
    let mut out: Vec<FileTreeItem> = Vec::new();
    let mut i: usize = 0;
    proof {
        assert(entry_views(entries@.take(0)) =~= Seq::<EntryView>::empty());
        assert(views_of(out@) =~= file_items(entry_views(entries@.take(0))));
    }
    while i < n
        invariant
            i <= n,
            n == entries@.len(),
            views_of(out@) == file_items(entry_views(entries@.take(i as int))),
        decreases n - i,
    {
        proof {
            let evs = entry_views(entries@.take(i as int + 1));
            assert(evs.drop_last() =~= entry_views(entries@.take(i as int)));
            assert(evs.last() == entries@[i as int]@);
        }
        if entries[i].is_file {
            let item = FileTreeItem::File {
                name: entries[i].name.clone(),
                path: entries[i].path.clone(),
            };
            proof {
                assert(views_of(out@.push(item)) =~= views_of(out@).push(item@));
                assert(views_of(out@).push(item@) =~= file_items(
                    entry_views(entries@.take(i as int + 1)),
                ));
            }
            out.push(item);
        } else {
            proof {
                assert(views_of(out@) =~= file_items(entry_views(entries@.take(i as int + 1))));
            }
        }
        i = i + 1;
    }
    proof {
        assert(entries@.take(n as int) =~= entries@);
    }
    out
}

fn collect_dir_items(entries: &Vec<DirEntryInfo>) -> (r: Vec<FileTreeItem>)
    ensures
        views_of(r@) == dir_items(entry_views(entries@)),
{
    let n = entries.len();
    let mut out: Vec<FileTreeItem> = Vec::new();
    let mut i: usize = 0;
    proof {
        assert(entry_views(entries@.take(0)) =~= Seq::<EntryView>::empty());
        assert(views_of(out@) =~= dir_items(entry_views(entries@.take(0))));
    }
    while i < n
        invariant
            i <= n,
            n == entries@.len(),
            views_of(out@) == dir_items(entry_views(entries@.take(i as int))),
        decreases n - i,
    {
        proof {
            let evs = entry_views(entries@.take(i as int + 1));
            assert(evs.drop_last() =~= entry_views(entries@.take(i as int)));
            assert(evs.last() == entries@[i as int]@);
        }
        if entries[i].is_dir {
            let item = FileTreeItem::Directory {
                name: entries[i].name.clone(),
                path: entries[i].path.clone(),
            };
            proof {
                assert(views_of(out@.push(item)) =~= views_of(out@).push(item@));
                assert(views_of(out@).push(item@) =~= dir_items(
                    entry_views(entries@.take(i as int + 1)),
                ));
            }
            out.push(item);
        } else {
            proof {
                assert(views_of(out@) =~= dir_items(entry_views(entries@.take(i as int + 1))));
            }
        }
        i = i + 1;
    }
    proof {
        assert(entries@.take(n as int) =~= entries@);
    }
    out
}

/// Partial sortedness used inside the insertion sort: the first `i + 1`
/// entries are in order, except that the entry at `j` may still be out of
/// place with respect to its predecessors.
spec fn sorted_except(s: Seq<ItemView>, i: int, j: int) -> bool {
    forall|p: int, q: int|
        0 <= p < q <= i && q != j ==> lex_le(item_name(#[trigger] s[p]), item_name(
            #[trigger] s[q],
        ))
}

fn sort_items(v: &mut Vec<FileTreeItem>)
    ensures
        views_of(final(v)@).to_multiset() == views_of(old(v)@).to_multiset(),
        items_sorted(views_of(final(v)@)),
{
    let n = v.len();
    if n == 0 {
        return;
    }
    let mut i: usize = 1;
    while i < n
        invariant
            1 <= i <= n,
            n == v@.len(),
            views_of(v@).to_multiset() == views_of(old(v)@).to_multiset(),
            items_sorted(views_of(v@).take(i as int)),
        decreases n - i,
    {
        let mut j: usize = i;
        proof {
            let sv = views_of(v@);
            let t = sv.take(i as int);
            assert forall|p: int, q: int|
                0 <= p < q <= i as int && q != j as int implies lex_le(
                item_name(#[trigger] sv[p]),
                item_name(#[trigger] sv[q]),
            ) by {
                assert(t[p] == sv[p] && t[q] == sv[q]);
                assert(lex_le(item_name(t[p]), item_name(t[q])));
            }
        }
        while j > 0 && !name_le(v[j - 1].name_ref().as_str(), v[j].name_ref().as_str())
            invariant
                0 <= j <= i < n,
                n == v@.len(),
                views_of(v@).to_multiset() == views_of(old(v)@).to_multiset(),
                sorted_except(views_of(v@), i as int, j as int),
                forall|q: int|
                    j < q <= i ==> lex_le(item_name(views_of(v@)[j as int]), item_name(
                        #[trigger] views_of(v@)[q],
                    )),
            decreases j,
        {
            let ghost sv = views_of(v@);
            let ghost a = sv[j as int - 1];
            let ghost b = sv[j as int];
            proof {
                lemma_lex_le_total(item_name(a), item_name(b));
            }
            let moved = v.remove(j);
            v.insert(j - 1, moved);
            proof {
                let nv = views_of(v@);
                assert(nv =~= sv.update(j as int - 1, b).update(j as int, a));
                assert(nv.to_multiset() == sv.to_multiset()) by {
                    assert(nv =~= sv.remove(j as int - 1).insert(j as int - 1, b).remove(
                        j as int,
                    ).insert(j as int, a)) by {
                        assert(nv =~= sv.update(j as int - 1, b).update(j as int, a));
                        vstd::seq_lib::lemma_update_is_remove_insert(sv, j as int - 1, b);
                        vstd::seq_lib::lemma_update_is_remove_insert(
                            sv.update(j as int - 1, b),
                            j as int,
                            a,
                        );
                        assert(sv.update(j as int - 1, b).remove(j as int) =~= sv.remove(
                            j as int - 1,
                        ).insert(j as int - 1, b).remove(j as int));
                    }
                    assert(sv.remove(j as int - 1).insert(j as int - 1, b).to_multiset()
                        =~= sv.to_multiset().remove(a).insert(b));
                    assert(sv.remove(j as int - 1).insert(j as int - 1, b).remove(
                        j as int,
                    ).to_multiset() =~= sv.to_multiset().remove(a).insert(b).remove(b)) by {
                        assert(sv.remove(j as int - 1).insert(j as int - 1, b)[j as int] == b);
                    }
                    assert(sv.to_multiset().remove(a).insert(b).remove(b).insert(a)
                        =~= sv.to_multiset()) by {
                        assert(sv.to_multiset().contains(a)) by {
                            vstd::seq_lib::to_multiset_contains(sv, a);
                        }
                    }
                }
                assert forall|p: int, q: int|
                    0 <= p < q <= i as int && q != j as int - 1 implies lex_le(
                    item_name(#[trigger] nv[p]),
                    item_name(#[trigger] nv[q]),
                ) by {
                    assert(lex_le(item_name(b), item_name(a)));
                    if q == j {
                        if p == j - 1 {
                        } else {
                            assert(nv[p] == sv[p]);
                            assert(lex_le(item_name(sv[p]), item_name(sv[j as int - 1])));
                        }
                    } else {
                        if p == j - 1 {
                            assert(nv[p] == b && nv[q] == sv[q]);
                        } else if p == j {
                            assert(nv[p] == a && nv[q] == sv[q]);
                            assert(lex_le(item_name(sv[j as int - 1]), item_name(sv[q])));
                        } else {
                            assert(nv[p] == sv[p] && nv[q] == sv[q]);
                        }
                    }
                }
                assert forall|q: int| j as int - 1 < q <= i as int implies lex_le(
                    item_name(nv[j as int - 1]),
                    item_name(#[trigger] nv[q]),
                ) by {
                    assert(lex_le(item_name(b), item_name(a)));
                    if q == j {
                    } else {
                        assert(nv[q] == sv[q]);
                        assert(lex_le(item_name(sv[j as int]), item_name(sv[q])));
                    }
                }
            }
            j = j - 1;
        }
        proof {
            let sv = views_of(v@);
            assert forall|p: int, q: int| 0 <= p < q <= i as int implies lex_le(
                item_name(#[trigger] sv[p]),
                item_name(#[trigger] sv[q]),
            ) by {
                if q == j as int {
                    if j > 0 {
                        assert(lex_le(item_name(sv[j as int - 1]), item_name(sv[j as int])));
                        if p < j as int - 1 {
                            assert(lex_le(item_name(sv[p]), item_name(sv[j as int - 1])));
                            lemma_lex_le_trans(
                                item_name(sv[p]),
                                item_name(sv[j as int - 1]),
                                item_name(sv[j as int]),
                            );
                        }
                    }
                }
            }
            assert(items_sorted(views_of(v@).take(i as int + 1))) by {
                let t = views_of(v@).take(i as int + 1);
                assert forall|p: int, q: int| 0 <= p < q < t.len() implies lex_le(
                    item_name(#[trigger] t[p]),
                    item_name(#[trigger] t[q]),
                ) by {
                    assert(t[p] == views_of(v@)[p] && t[q] == views_of(v@)[q]);
                }
            }
        }
        i = i + 1;
    }
    proof {
        assert(views_of(v@).take(n as int) =~= views_of(v@));
    }
}

/// Builds the listing of `entries` with back path `back_path`: the "go up"
/// control first, then the files sorted by name, then the directories
/// sorted by name.
fn build_items(entries: &Vec<DirEntryInfo>, back_path: &String) -> (r: Vec<FileTreeItem>)
    ensures
        is_listing(views_of(r@), entry_views(entries@), back_path@),
{
    let mut files = collect_file_items(entries);
    sort_items(&mut files);
    let mut dirs = collect_dir_items(entries);
    sort_items(&mut dirs);
    let ghost fvs = views_of(files@);
    let ghost dvs = views_of(dirs@);
    let mut out: Vec<FileTreeItem> = Vec::new();
    out.push(FileTreeItem::Control { name: String::from_str(".."), path: back_path.clone() });
    out.append(&mut files);
    out.append(&mut dirs);
    proof {
        let es = entry_views(entries@);
        let nf = file_items(es).len() as int;
        let nd = dir_items(es).len() as int;
        let whole = views_of(out@);
        assert(fvs.to_multiset().len() == file_items(es).to_multiset().len());
        assert(dvs.to_multiset().len() == dir_items(es).to_multiset().len());
        assert(fvs.len() == nf);
        assert(dvs.len() == nd);
        assert(whole.len() == 1 + nf + nd);
        assert(whole[0] == (ItemView::Control { name: ".."@, path: back_path@ }));
        assert(whole.subrange(1, 1 + nf) =~= fvs);
        assert(whole.subrange(1 + nf, whole.len() as int) =~= dvs);
    }
    out
}

/// A path's text with any trailing `'/'` separators dropped.
pub open spec fn strip_trailing_seps(s: Seq<char>) -> Seq<char>
    decreases s.len(),
{
    if s.len() > 0 && s.last() == '/' {
        strip_trailing_seps(s.drop_last())
    } else {
        s
    }
}

/// The text before the last `'/'` of a path that ends in none, or nothing
/// when the path holds no separator.
pub open spec fn parent_of_trimmed(s: Seq<char>) -> Option<Seq<char>>
    decreases s.len(),
{
    if s.len() == 0 {
        Option::None
    } else if s.last() == '/' {
        Option::Some(s.drop_last())
    } else {
        parent_of_trimmed(s.drop_last())
    }
}

/// The parent of a path, read textually: trailing separators are dropped,
/// then everything before the last `'/'` is the parent; a path with no
/// separator left has none.
pub open spec fn parent_path(s: Seq<char>) -> Option<Seq<char>> {
    parent_of_trimmed(strip_trailing_seps(s))
}

/// The back path a navigation to `target` uses: the parent of `target`,
/// clamped to `root` where there is no parent or the parent would leave
/// `root`.
pub open spec fn nav_back_path(target: Seq<char>, root: Seq<char>) -> Seq<char> {
    match parent_path(target) {
        Option::Some(p) => if is_prefix(root, p) {
            p
        } else {
            root
        },
        Option::None => root,
    }
}

/// The index where a path's trailing separators start.
fn trim_seps(path: &str) -> (i: usize)
    ensures
        i <= path@.len(),
        path@.take(i as int) == strip_trailing_seps(path@),
{
    let mut i: usize = path.unicode_len();
    proof {
        assert(path@.take(i as int) =~= path@);
    }
    loop
        invariant
            i <= path@.len(),
            strip_trailing_seps(path@) == strip_trailing_seps(path@.take(i as int)),
        decreases i,
    {
        if i == 0 {
            proof {
                assert(path@.take(0).len() == 0);
            }
            return 0;
        }
        let c = path.get_char(i - 1);
        proof {
            let t = path@.take(i as int);
            assert(t.last() == path@[i as int - 1]);
            assert(t.drop_last() =~= path@.take(i as int - 1));
        }
        if c != '/' {
            return i;
        }
        i = i - 1;
    }
}

/// Computes the textual parent of a path.
fn parent_of(path: &str) -> (r: Option<String>)
    ensures
        match r {
            Option::Some(p) => parent_path(path@) == Option::Some(p@),
            Option::None => parent_path(path@) is None,
        },
{
    let end = trim_seps(path);
    let ghost trimmed = strip_trailing_seps(path@);
    let mut i: usize = end;
    loop
        invariant
            i <= path@.len(),
            trimmed == strip_trailing_seps(path@),
            parent_of_trimmed(trimmed) == parent_of_trimmed(path@.take(i as int)),
        decreases i,
    {
        if i == 0 {
            proof {
                assert(path@.take(0).len() == 0);
                assert(parent_path(path@) == parent_of_trimmed(trimmed));
            }
            return Option::None;
        }
        let c = path.get_char(i - 1);
        proof {
            let t = path@.take(i as int);
            assert(t.last() == path@[i as int - 1]);
            assert(t.drop_last() =~= path@.take(i as int - 1));
        }
        if c == '/' {
            let p = path.substring_char(0, i - 1);
            proof {
                assert(p@ =~= path@.take(i as int - 1));
                assert(parent_of_trimmed(path@.take(i as int)) == Option::Some(
                    path@.take(i as int - 1),
                ));
                assert(parent_path(path@) == parent_of_trimmed(trimmed));
            }
            return Option::Some(String::from_str(p));
        }
        i = i - 1;
    }
}

/// A navigator over one directory's listing, rooted at a fixed base path.
pub struct FileTree {
    root: String,
    items: Vec<FileTreeItem>,
}

/// The mathematical content of a navigator.
pub struct TreeView {
    pub root: Seq<char>,
    pub items: Seq<ItemView>,
}

impl View for FileTree {
    type V = TreeView;

    closed spec fn view(&self) -> TreeView {
        TreeView { root: self.root@, items: views_of(self.items@) }
    }
}

/// The names of the `File` entries of a listing, in listing order.
pub open spec fn file_names_of(items: Seq<ItemView>) -> Seq<Seq<char>>
    decreases items.len(),
{
    if items.len() == 0 {
        Seq::empty()
    } else {
        file_names_of(items.drop_last()) + (match items.last() {
            ItemView::File { name, .. } => seq![name],
            _ => Seq::empty(),
        })
    }
}

impl FileTree {
    /// Opens a navigator rooted at `path`, whose raw entries the caller
    /// has read; the listing's "go up" entry targets `path` itself, the
    /// root being its own upper bound.
    pub fn from_path(path: &String, entries: &Vec<DirEntryInfo>) -> (r: FileTree)
        ensures
            r@.root == path@,
            is_listing(r@.items, entry_views(entries@), path@),
    {
        let items = build_items(entries, path);
        FileTree { root: path.clone(), items }
    }

    /// Whether `path` lies under this navigator's root: the prefix check
    /// on the path's text that bounds every navigation.
    pub fn in_root(&self, path: &String) -> (r: bool)
        ensures
            r == is_prefix(self@.root, path@),
    {
        starts_with_str(path.as_str(), self.root.as_str())
    }

    /// Moves the listing to `target_path`, whose raw entries the caller
    /// has read and hands in; `None` stands for a failed read. A target
    /// outside the root, or a failed read, leaves the listing unchanged.
    pub fn navigate(&mut self, target_path: &String, listing: Option<&Vec<DirEntryInfo>>)
        ensures
            final(self)@.root == old(self)@.root,
            !is_prefix(old(self)@.root, target_path@) ==> final(self)@ == old(self)@,
            is_prefix(old(self)@.root, target_path@) && listing is None ==> final(self)@ == old(
                self,
            )@,
            is_prefix(old(self)@.root, target_path@) && listing is Some ==> is_listing(
                final(self)@.items,
                entry_views(listing.unwrap()@),
                nav_back_path(target_path@, old(self)@.root),
            ),
    {
        if !starts_with_str(target_path.as_str(), self.root.as_str()) {
            return;
        }
        match listing {
            Option::None => {},
            Option::Some(entries) => {
                let back = match parent_of(target_path.as_str()) {
                    Option::Some(p) => {
                        if starts_with_str(p.as_str(), self.root.as_str()) {
                            p
                        } else {
                            self.root.clone()
                        }
                    },
                    Option::None => self.root.clone(),
                };
                self.items = build_items(entries, &back);
            },
        }
    }

    /// The names of the files of the current listing, in listing order.
    pub fn get_file_names(&self) -> (r: Vec<String>)
        ensures
            r@.map_values(|s: String| s@) == file_names_of(self@.items),
    {
        let n = self.items.len();
        let mut out: Vec<String> = Vec::new();
        let mut i: usize = 0;
        proof {
            assert(views_of(self.items@.take(0)) =~= Seq::<ItemView>::empty());
            assert(out@.map_values(|s: String| s@) =~= file_names_of(
                views_of(self.items@.take(0)),
            ));
        }
        while i < n
            invariant
                i <= n,
                n == self.items@.len(),
                out@.map_values(|s: String| s@) == file_names_of(views_of(self.items@.take(i as int))),
            decreases n - i,
        {
            proof {
                let pv = views_of(self.items@.take(i as int + 1));
                assert(pv.drop_last() =~= views_of(self.items@.take(i as int)));
                assert(pv.last() == self.items@[i as int]@);
            }
            match &self.items[i] {
                FileTreeItem::File { name, .. } => {
                    let nm = name.clone();
                    proof {
                        assert(out@.push(nm).map_values(|s: String| s@) =~= out@.map_values(
                            |s: String| s@,
                        ).push(nm@));
                        assert(out@.map_values(|s: String| s@).push(nm@) =~= file_names_of(
                            views_of(self.items@.take(i as int + 1)),
                        ));
                    }
                    out.push(nm);
                },
                _ => {
                    proof {
                        assert(out@.map_values(|s: String| s@) =~= file_names_of(
                            views_of(self.items@.take(i as int + 1)),
                        ));
                    }
                },
            }
            i = i + 1;
        }
        proof {
            assert(self.items@.take(n as int) =~= self.items@);
        }
        out
    }

    /// The number of entries of the current listing.
    pub fn item_count(&self) -> (r: usize)
        ensures
            r == self@.items.len(),
    {
        self.items.len()
    }

    /// The listing entry at `i`.
    pub fn item_at(&self, i: usize) -> (r: &FileTreeItem)
        requires
            i < self@.items.len(),
        ensures
            r@ == self@.items[i as int],
    {
        &self.items[i]
    }
}

} // verus!
