use vstd::prelude::*;

use crate::error::Error;
use crate::pass::opt_text;
use crate::text::{copy_range, texts};

verus! {

broadcast use vstd::seq_lib::group_to_multiset_ensures;

// ---------------------------------------------------------------------------
// Which files are entries
// ---------------------------------------------------------------------------

/// A name that starts with `'.'`: skipped, and never descended into.
pub open spec fn is_hidden(name: Seq<char>) -> bool {
    name.len() > 0 && name[0] == '.'
}

/// The suffix of the files that hold entries.
pub open spec fn entry_suffix() -> Seq<char> {
    seq!['.', 'g', 'p', 'g']
}

/// Whether `s` ends with the entry suffix.
pub open spec fn has_entry_suffix(s: Seq<char>) -> bool {
    s.len() >= 4 && s.subrange(s.len() - 4, s.len() as int) == entry_suffix()
}

/// The path of `name` inside the directory at relative path `dir` (the root
/// is the empty path), segments joined with `'/'`.
pub open spec fn child_path(dir: Seq<char>, name: Seq<char>) -> Seq<char> {
    if dir.len() == 0 {
        name
    } else {
        dir + seq!['/'] + name
    }
}

/// One item of a directory as it was read: its final path segment and
/// whether it is a directory.
#[derive(Debug)]
pub struct DirItem {
    pub name: String,
    pub is_dir: bool,
}

/// Whether an item of directory `dir` is an entry.
pub open spec fn is_entry_item(dir: Seq<char>, item: DirItem) -> bool {
    !is_hidden(item.name@) && !item.is_dir && has_entry_suffix(child_path(dir, item.name@))
}

/// The identifier of an entry item: its relative path without the suffix.
pub open spec fn entry_id(dir: Seq<char>, item: DirItem) -> Seq<char> {
    let p = child_path(dir, item.name@);
    p.subrange(0, p.len() - 4)
}

/// The identifiers of the entries among `items` of directory `dir`, in order.
pub open spec fn scan_entries(dir: Seq<char>, items: Seq<DirItem>) -> Seq<Seq<char>>
    decreases items.len(),
{
    if items.len() == 0 {
        seq![]
    } else {
        let prev = scan_entries(dir, items.drop_last());
        if is_entry_item(dir, items.last()) {
            prev.push(entry_id(dir, items.last()))
        } else {
            prev
        }
    }
}

/// The relative paths of the subdirectories among `items` of directory `dir`
/// that are descended into, in order.
pub open spec fn scan_subdirs(dir: Seq<char>, items: Seq<DirItem>) -> Seq<Seq<char>>
    decreases items.len(),
{
    if items.len() == 0 {
        seq![]
    } else {
        let prev = scan_subdirs(dir, items.drop_last());
        if !is_hidden(items.last().name@) && items.last().is_dir {
            prev.push(child_path(dir, items.last().name@))
        } else {
            prev
        }
    }
}

proof fn lemma_scan_entries_members(dir: Seq<char>, items: Seq<DirItem>, x: Seq<char>)
    ensures
        scan_entries(dir, items).contains(x) <==> exists|i: int|
            0 <= i < items.len() && is_entry_item(dir, #[trigger] items[i]) && entry_id(dir, items[i])
                == x,
    decreases items.len(),
{
    if items.len() > 0 {
        let init = items.drop_last();
        let n = items.len() - 1;
        let s = scan_entries(dir, items);
        let t = scan_entries(dir, init);
        lemma_scan_entries_members(dir, init, x);
        if exists|i: int|
            0 <= i < items.len() && is_entry_item(dir, #[trigger] items[i]) && entry_id(dir, items[i])
                == x {
            let i = choose|i: int|
                0 <= i < items.len() && is_entry_item(dir, #[trigger] items[i]) && entry_id(
                    dir,
                    items[i],
                ) == x;
            if i < n {
                assert(init[i] == items[i]);
                assert(is_entry_item(dir, init[i]) && entry_id(dir, init[i]) == x);
                let j = choose|j: int| 0 <= j < t.len() && t[j] == x;
                assert(s[j] == x);
            } else {
                assert(s[t.len() as int] == x);
            }
        }
        if s.contains(x) {
            let j = choose|j: int| 0 <= j < s.len() && s[j] == x;
            if j < t.len() {
                assert(t[j] == x);
                assert(t.contains(x));
                let i = choose|i: int|
                    0 <= i < init.len() && is_entry_item(dir, #[trigger] init[i]) && entry_id(
                        dir,
                        init[i],
                    ) == x;
                assert(items[i] == init[i]);
                assert(is_entry_item(dir, items[i]) && entry_id(dir, items[i]) == x);
            } else {
                assert(is_entry_item(dir, items[n]) && entry_id(dir, items[n]) == x);
            }
        }
    }
}

proof fn lemma_scan_subdirs_members(dir: Seq<char>, items: Seq<DirItem>, x: Seq<char>)
    ensures
        scan_subdirs(dir, items).contains(x) <==> exists|i: int|
            0 <= i < items.len() && !is_hidden(#[trigger] items[i].name@) && items[i].is_dir
                && child_path(dir, items[i].name@) == x,
    decreases items.len(),
{
    if items.len() > 0 {
        let init = items.drop_last();
        let n = items.len() - 1;
        let s = scan_subdirs(dir, items);
        let t = scan_subdirs(dir, init);
        lemma_scan_subdirs_members(dir, init, x);
        if exists|i: int|
            0 <= i < items.len() && !is_hidden(#[trigger] items[i].name@) && items[i].is_dir
                && child_path(dir, items[i].name@) == x {
            let i = choose|i: int|
                0 <= i < items.len() && !is_hidden(#[trigger] items[i].name@) && items[i].is_dir
                    && child_path(dir, items[i].name@) == x;
            if i < n {
                assert(init[i] == items[i]);
                assert(!is_hidden(init[i].name@) && init[i].is_dir && child_path(dir, init[i].name@)
                    == x);
                let j = choose|j: int| 0 <= j < t.len() && t[j] == x;
                assert(s[j] == x);
            } else {
                assert(s[t.len() as int] == x);
            }
        }
        if s.contains(x) {
            let j = choose|j: int| 0 <= j < s.len() && s[j] == x;
            if j < t.len() {
                assert(t[j] == x);
                assert(t.contains(x));
                let i = choose|i: int|
                    0 <= i < init.len() && !is_hidden(#[trigger] init[i].name@) && init[i].is_dir
                        && child_path(dir, init[i].name@) == x;
                assert(items[i] == init[i]);
                assert(!is_hidden(items[i].name@) && items[i].is_dir && child_path(
                    dir,
                    items[i].name@,
                ) == x);
            } else {
                assert(!is_hidden(items[n].name@) && items[n].is_dir && child_path(
                    dir,
                    items[n].name@,
                ) == x);
            }
        }
    }
}

/// The listing law of one directory: an identifier is listed exactly when
/// some item is a visible file whose relative path (segments joined with
/// `'/'`) ends with the entry suffix, and it is that path without the suffix;
/// a subdirectory is descended into exactly when it is visible. So a hidden
/// item contributes nothing, neither itself nor anything below it.
pub proof fn lemma_directory_listing(dir: Seq<char>, items: Seq<DirItem>, x: Seq<char>)
    ensures
        scan_entries(dir, items).contains(x) <==> exists|i: int|
            0 <= i < items.len() && is_entry_item(dir, #[trigger] items[i]) && entry_id(dir, items[i])
                == x,
        scan_subdirs(dir, items).contains(x) <==> exists|i: int|
            0 <= i < items.len() && !is_hidden(#[trigger] items[i].name@) && items[i].is_dir
                && child_path(dir, items[i].name@) == x,
{
    lemma_scan_entries_members(dir, items, x);
    lemma_scan_subdirs_members(dir, items, x);
}

/// The relative path of `name` inside `dir`.
pub fn join_child_path(dir: &str, name: &str) -> (r: String)
    ensures
        r@ == child_path(dir@, name@),
{
    if dir.unicode_len() == 0 {
        name.to_owned()
    } else {
        let mut p = dir.to_owned();
        proof {
            reveal_strlit("/");
        }
        p.append("/");
        p.append(name);
        p
    }
}

/// Whether `s` ends with the entry suffix.
pub fn ends_with_entry_suffix(s: &str) -> (r: bool)
    ensures
        r == has_entry_suffix(s@),
{
    let n = s.unicode_len();
    if n < 4 {
        return false;
    }
    let r = s.get_char(n - 4) == '.' && s.get_char(n - 3) == 'g' && s.get_char(n - 2) == 'p'
        && s.get_char(n - 1) == 'g';
    assert(r == (s@.subrange(n - 4, n as int) =~= entry_suffix()));
    r
}

// ---------------------------------------------------------------------------
// Order
// ---------------------------------------------------------------------------

/// `a` is not after `b` in lexicographic order of code points, comparing
/// from position `i`.
pub open spec fn lex_le_from(a: Seq<char>, b: Seq<char>, i: int) -> bool
    decreases a.len() - i,
{
    if i < 0 || i >= a.len() {
        true
    } else if i >= b.len() {
        false
    } else if a[i] != b[i] {
        (a[i] as int) < (b[i] as int)
    } else {
        lex_le_from(a, b, i + 1)
    }
}

/// `a` is not after `b` in lexicographic order of code points (which is the
/// byte order of their UTF-8 encodings).
pub open spec fn lex_le(a: Seq<char>, b: Seq<char>) -> bool {
    lex_le_from(a, b, 0)
}

/// Each text is not after the next one.
pub open spec fn sorted(s: Seq<Seq<char>>) -> bool {
    forall|i: int| 0 <= i < s.len() - 1 ==> lex_le(#[trigger] s[i], s[i + 1])
}

proof fn lemma_lex_total(a: Seq<char>, b: Seq<char>, i: int)
    requires
        0 <= i,
    ensures
        lex_le_from(a, b, i) || lex_le_from(b, a, i),
    decreases a.len() - i,
{
    if i < a.len() && i < b.len() && a[i] == b[i] {
        lemma_lex_total(a, b, i + 1);
    } else if i < a.len() && i < b.len() {
        assert((a[i] as int) != (b[i] as int));
    }
}

/// Whether `a` is not after `b` in lexicographic order.
pub fn text_le(a: &str, b: &str) -> (r: bool)
    ensures
        r == lex_le(a@, b@),
{
    let na = a.unicode_len();
    let nb = b.unicode_len();
    let mut i: usize = 0;
    while i < na
        invariant
            na == a@.len(),
            nb == b@.len(),
            lex_le(a@, b@) == lex_le_from(a@, b@, i as int),
        decreases na - i,
    {
        if i >= nb {
            return false;
        }
        let ca = a.get_char(i);
        let cb = b.get_char(i);
        if ca != cb {
            return ca < cb;
        }
        i = i + 1;
    }
    true
}

/// The texts of `v` in lexicographic order.
pub fn sort_texts(v: Vec<String>) -> (r: Vec<String>)
    ensures
        sorted(texts(r@)),
        texts(r@).to_multiset() == texts(v@).to_multiset(),
{
    let mut out: Vec<String> = Vec::new();
    let n = v.len();
    let mut i: usize = 0;
    while i < n
        invariant
            n == v@.len(),
            i <= n,
            sorted(texts(out@)),
            texts(out@).to_multiset() == texts(v@).subrange(0, i as int).to_multiset(),
        decreases n - i,
    {
        let x = v[i].clone();
        let mut p: usize = out.len();
        while p > 0 && !text_le(out[p - 1].as_str(), x.as_str())
            invariant
                p <= out@.len(),
                forall|k: int| p <= k < out@.len() ==> !lex_le(#[trigger] texts(out@)[k], x@),
            decreases p,
        {
            p = p - 1;
        }
        let ghost before = texts(out@);
        proof {
            if p < before.len() {
                lemma_lex_total(before[p as int], x@, 0);
            }
        }
        out.insert(p, x);
        proof {
            assert(texts(out@) =~= before.insert(p as int, x@));
            assert(texts(v@).subrange(0, i + 1) =~= texts(v@).subrange(0, i as int).push(x@));
            assert forall|k: int| 0 <= k < texts(out@).len() - 1 implies lex_le(
                #[trigger] texts(out@)[k],
                texts(out@)[k + 1],
            ) by {
                if k < p - 1 {
                    assert(texts(out@)[k] == before[k]);
                    assert(texts(out@)[k + 1] == before[k + 1]);
                } else if k == p - 1 {
                } else if k == p {
                } else {
                    assert(texts(out@)[k] == before[k - 1]);
                    assert(texts(out@)[k + 1] == before[k]);
                }
            }
        }
        i = i + 1;
    }
    assert(texts(v@).subrange(0, n as int) =~= texts(v@));
    out
}

// ---------------------------------------------------------------------------
// Walking the store
// ---------------------------------------------------------------------------

/// The entries of a password store, in lexicographic order.
#[derive(Debug)]
pub struct PassStoreDirectory {
    pub entry_paths: Vec<String>,
}

/// The root of the store: the path given, else `.password-store` in the
/// home directory, else none.
pub open spec fn store_path_for(custom_path: Option<Seq<char>>, home: Option<Seq<char>>) -> Option<
    Seq<char>,
> {
    match custom_path {
        Some(p) => Some(p),
        None => match home {
            Some(h) => Some(h + "/.password-store"@),
            None => None,
        },
    }
}

impl PassStoreDirectory {
    /// The root of the store: `custom_path` when given, else
    /// `.password-store` in the `home` directory; fails with
    /// `ConfigurationError` when neither is known.
    pub fn calculate_pass_store_path(custom_path: &Option<String>, home: &Option<String>) -> (r:
        Result<String, Error>)
        ensures
            match store_path_for(opt_text(*custom_path), opt_text(*home)) {
                Some(p) => r matches Ok(s) && s@ == p,
                None => r == Err::<String, Error>(Error::ConfigurationError),
            },
    {
        match custom_path {
            Some(p) => Ok(p.clone()),
            None => match home {
                Some(h) => {
                    let mut p = h.clone();
                    p.append("/.password-store");
                    Ok(p)
                },
                None => Err(Error::ConfigurationError),
            },
        }
    }

    /// The store with the entries `entry_paths`, sorted.
    pub fn new(entry_paths: Vec<String>) -> (r: PassStoreDirectory)
        ensures
            sorted(texts(r.entry_paths@)),
            texts(r.entry_paths@).to_multiset() == texts(entry_paths@).to_multiset(),
    {
        PassStoreDirectory { entry_paths: sort_texts(entry_paths) }
    }
}

/// A walk over the directories of a store: the directories still to read
/// and the entries found so far. The driver reads each directory that
/// [`StoreScan::next_directory`] names and hands its items to
/// [`StoreScan::visit`].
#[derive(Debug)]
pub struct StoreScan {
    pending: Vec<String>,
    found: Vec<String>,
}

impl StoreScan {
    /// The relative paths of the directories still to read.
    pub closed spec fn pending(&self) -> Seq<Seq<char>> {
        texts(self.pending@)
    }

    /// The identifiers of the entries found so far.
    pub closed spec fn found(&self) -> Seq<Seq<char>> {
        texts(self.found@)
    }

    /// A walk that starts at the root of the store.
    pub fn new() -> (r: StoreScan)
        ensures
            r.pending() == seq![Seq::<char>::empty()],
            r.found().len() == 0,
    {
        let mut pending: Vec<String> = Vec::new();
        pending.push(String::new());
        let r = StoreScan { pending, found: Vec::new() };
        assert(r.pending() =~= seq![Seq::<char>::empty()]);
        assert(r.found() =~= seq![]);
        r
    }

    /// The next directory to read, if any, which is then no longer pending.
    pub fn next_directory(&mut self) -> (r: Option<String>)
        ensures
            old(self).pending().len() == 0 ==> r is None && final(self).pending() == old(
                self,
            ).pending(),
            old(self).pending().len() > 0 ==> (r matches Some(d) && d@ == old(self).pending().last()
                && final(self).pending() == old(self).pending().drop_last()),
            final(self).found() == old(self).found(),
    {
        let r = self.pending.pop();
        proof {
            if old(self).pending@.len() > 0 {
                assert(texts(self.pending@) =~= texts(old(self).pending@).drop_last());
            }
        }
        r
    }

    /// Takes the items of directory `dir`: keeps the identifiers of its
    /// entries and schedules its subdirectories; hidden items are skipped.
    pub fn visit(&mut self, dir: &str, items: &Vec<DirItem>)
        ensures
            final(self).found() == old(self).found() + scan_entries(dir@, items@),
            final(self).pending() == old(self).pending() + scan_subdirs(dir@, items@),
    {
        let n = items.len();
        let mut i: usize = 0;
        while i < n
            invariant
                n == items@.len(),
                i <= n,
                texts(self.found@) == old(self).found() + scan_entries(
                    dir@,
                    items@.subrange(0, i as int),
                ),
                texts(self.pending@) == old(self).pending() + scan_subdirs(
                    dir@,
                    items@.subrange(0, i as int),
                ),
            decreases n - i,
        {
            let item = &items[i];
            let ghost sub = items@.subrange(0, i + 1);
            assert(sub.drop_last() =~= items@.subrange(0, i as int));
            assert(sub.last() == items@[i as int]);
            let hidden = item.name.unicode_len() > 0 && item.name.as_str().get_char(0) == '.';
            if !hidden {
                let path = join_child_path(dir, item.name.as_str());
                if item.is_dir {
                    assert(texts(self.pending@.push(path)) =~= texts(self.pending@).push(path@));
                    self.pending.push(path);
                } else if ends_with_entry_suffix(path.as_str()) {
                    let len = path.unicode_len();
                    let id = copy_range(path.as_str(), 0, len - 4);
                    assert(texts(self.found@.push(id)) =~= texts(self.found@).push(id@));
                    self.found.push(id);
                }
            }
            i = i + 1;
        }
        assert(items@.subrange(0, n as int) =~= items@);
    }

    /// The store with every entry found, sorted.
    pub fn finish(self) -> (r: PassStoreDirectory)
        ensures
            sorted(texts(r.entry_paths@)),
            texts(r.entry_paths@).to_multiset() == self.found().to_multiset(),
    {
        PassStoreDirectory::new(self.found)
    }
}

} // verus!
