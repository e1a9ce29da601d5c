//! The paginated listing pipeline: one listing of a directory, cut into pages that
//! are handed out one at a time, each then enriched with per-entry metadata.

use crate::client::{
    entry_from_meta, entry_of, list_error, ClientError, EntryKind, EntryMeta, ListFailure,
    StatEntry, StatView,
};
use crate::url_path::{dir_form, UrlDirPath};
use vstd::prelude::*;

verus! {

/// Page size when the caller asks for no pagination.
pub const DEFAULT_LIST_LIMIT: usize = 10;

/// One entry of a raw directory listing.
#[derive(Debug, Clone)]
pub struct ListedEntry {
    /// Full path, used to fetch the entry's metadata.
    pub path: String,
    /// Last segment, shown as the item's name.
    pub name: String,
}

impl View for ListedEntry {
    type V = (Seq<char>, Seq<char>);

    open spec fn view(&self) -> (Seq<char>, Seq<char>) {
        (self.path@, self.name@)
    }
}

impl ListedEntry {
    /// A copy of this entry.
    pub fn duplicate(&self) -> (r: ListedEntry)
        ensures
            r@ == self@,
    {
        ListedEntry { path: self.path.clone(), name: self.name.clone() }
    }
}

/// The plain values of listed entries.
pub open spec fn entry_views(es: Seq<ListedEntry>) -> Seq<(Seq<char>, Seq<char>)> {
    es.map_values(|e: ListedEntry| e@)
}

/// Number of pages of size `size` that `len` entries fill.
pub open spec fn page_count(len: nat, size: nat) -> nat {
    if size == 0 {
        0
    } else {
        ((len + size - 1) as int / size as int) as nat
    }
}

/// Number of batches a listing of `len` entries yields: every page when the caller
/// gave a page size, else at most one page of the default size.
pub open spec fn batch_count(len: nat, limit: Option<usize>) -> nat {
    match limit {
        Some(size) => page_count(len, size as nat),
        None => if len == 0 {
            0
        } else {
            1
        },
    }
}

/// Page `k`: the entries from `k * size` up to `(k + 1) * size`, or to the end.
pub open spec fn page<T>(entries: Seq<T>, size: nat, k: nat) -> Seq<T> {
    let start: int = (k * size) as int;
    let end: int = if (k + 1) * size <= entries.len() {
        ((k + 1) * size) as int
    } else {
        entries.len() as int
    };
    entries.subrange(start, end)
}

proof fn lemma_page_count(len: int, size: int)
    requires
        0 < size,
        0 <= len,
    ensures
        len == 0 ==> page_count(len as nat, size as nat) == 0,
        len > 0 ==> (len - 1) / size + 1 == page_count(len as nat, size as nat),
{
    if len == 0 {
        vstd::arithmetic::div_mod::lemma_fundamental_div_mod_converse(size - 1, size, 0, size - 1);
    } else {
        let q = (len - 1) / size;
        let r = (len - 1) % size;
        vstd::arithmetic::div_mod::lemma_fundamental_div_mod(len - 1, size);
        assert((q + 1) * size == size * q + size) by (nonlinear_arith);
        vstd::arithmetic::div_mod::lemma_fundamental_div_mod_converse(len + size - 1, size, q + 1, r);
    }
}

proof fn lemma_page_start(len: int, size: int, k: int)
    requires
        0 < size,
        0 <= k,
        0 <= len,
        k < page_count(len as nat, size as nat),
    ensures
        k * size < len,
        (k + 1) * size == k * size + size,
{
    let x = len + size - 1;
    let q = x / size;
    vstd::arithmetic::div_mod::lemma_fundamental_div_mod(x, size);
    let r = x % size;
    assert(k < q);
    assert(k * size < len) by (nonlinear_arith)
        requires
            size * q + r == x,
            x == len + size - 1,
            0 <= r < size,
            k + 1 <= q,
            size > 0,
    {
        assert((k + 1) * size <= q * size);
    }
    assert((k + 1) * size == k * size + size) by (nonlinear_arith);
}

/// A lazy, forward-only sequence of listing pages.
pub struct ListingPipeline {
    path: String,
    entries: Vec<ListedEntry>,
    size: usize,
    batches: usize,
    next: usize,
}

impl ListingPipeline {
    /// The listed entries, in the order the backend returned them.
    pub closed spec fn entries(&self) -> Seq<(Seq<char>, Seq<char>)> {
        entry_views(self.entries@)
    }

    /// The page size.
    pub closed spec fn size(&self) -> nat {
        self.size as nat
    }

    /// How many batches the pipeline yields in all.
    pub closed spec fn batches(&self) -> nat {
        self.batches as nat
    }

    /// How many batches were handed out so far.
    pub closed spec fn handed_out(&self) -> nat {
        self.next as nat
    }

    /// The listed directory, in absolute directory form.
    pub closed spec fn dir(&self) -> Seq<char> {
        self.path@
    }

    pub closed spec fn wf(&self) -> bool {
        &&& self.size > 0
        &&& self.next <= self.batches
        &&& self.batches <= page_count(self.entries@.len(), self.size as nat)
    }

    /// Starts a listing of `path` from the backend's answer `listed`. With `limit` the
    /// entries are cut into pages of that size, all of which are handed out; without
    /// it only the first page of the default size is. A refused listing fails here,
    /// before any page exists.
    pub fn new(path: &UrlDirPath, limit: Option<usize>, listed: Result<
        Vec<ListedEntry>,
        ListFailure,
    >) -> (r: Result<ListingPipeline, ClientError>)
        requires
            listed is Ok ==> limit != Some(0usize),
        ensures
            listed == Err::<Vec<ListedEntry>, ListFailure>(ListFailure::NotADirectory) ==> (r matches Err(
                ClientError::ListNotDirectory(p),
            ) && p@ == dir_form(path@)),
            listed matches Err(ListFailure::Other(m)) ==> r == Err::<ListingPipeline, ClientError>(
                ClientError::Unhandled(m),
            ),
            listed matches Ok(es) ==> (r matches Ok(pl) && {
                &&& pl.wf()
                &&& pl.entries() == entry_views(es@)
                &&& pl.dir() == dir_form(path@)
                &&& pl.size() == (match limit {
                    Some(n) => n,
                    None => DEFAULT_LIST_LIMIT,
                }) as nat
                &&& pl.batches() == batch_count(es@.len(), limit)
                &&& pl.handed_out() == 0
            }),
    {
        let dir = path.to_string();
        match listed {
            Err(failure) => Err(list_error(dir.as_str(), failure)),
            Ok(entries) => {
                let size = match limit {
                    Some(n) => n,
                    None => DEFAULT_LIST_LIMIT,
                };
                let len = entries.len();
                let pages = if len == 0 {
                    0
                } else {
                    (len - 1) / size + 1
                };
                proof {
                    lemma_page_count(len as int, size as int);
                }
                let batches = match limit {
                    Some(_) => pages,
                    None => if len == 0 {
                        0
                    } else {
                        1
                    },
                };
                Ok(ListingPipeline { path: dir, entries, size, batches, next: 0 })
            },
        }
    }

    /// The listed directory.
    pub fn path(&self) -> (r: &str)
        ensures
            r@ == self.dir(),
    {
        self.path.as_str()
    }

    /// Hands out the next page, in order, or `None` once all batches were handed out.
    pub fn next_batch(&mut self) -> (r: Option<Vec<ListedEntry>>)
        requires
            old(self).wf(),
        ensures
            final(self).wf(),
            final(self).entries() == old(self).entries(),
            final(self).size() == old(self).size(),
            final(self).batches() == old(self).batches(),
            final(self).dir() == old(self).dir(),
            old(self).handed_out() < old(self).batches() ==> (r matches Some(b) && entry_views(b@) == page(
                old(self).entries(),
                old(self).size(),
                old(self).handed_out(),
            ) && final(self).handed_out() == old(self).handed_out() + 1),
            old(self).handed_out() >= old(self).batches() ==> r is None && final(self).handed_out()
                == old(self).handed_out(),
    {
        if self.next >= self.batches {
            return None;
        }
        let k = self.next;
        let len = self.entries.len();
        let size = self.size;
        proof {
            lemma_page_start(len as int, size as int, k as int);
        }
        let start = k * size;
        let end = if size <= len - start {
            start + size
        } else {
            len
        };
        let mut out: Vec<ListedEntry> = Vec::new();
        let mut i = start;
        assert(entry_views(out@) =~= entry_views(self.entries@).subrange(start as int, start as int));
        while i < end
            invariant
                start <= i <= end <= len,
                len == self.entries@.len(),
                entry_views(out@) == entry_views(self.entries@).subrange(start as int, i as int),
            decreases end - i,
        {
            let e = self.entries[i].duplicate();
            let ghost before = out@;
            out.push(e);
            proof {
                assert(entry_views(out@) =~= entry_views(before).push(e@));
                assert(entry_views(self.entries@).subrange(start as int, i + 1) =~= entry_views(
                    self.entries@,
                ).subrange(start as int, i as int).push(e@));
            }
            i = i + 1;
        }
        self.next = k + 1;
        assert(page(entry_views(self.entries@), size as nat, k as nat) =~= entry_views(self.entries@).subrange(start as int, end as int));
        Some(out)
    }
}

/// The items of one page once each entry's metadata was fetched, in entry order:
/// entries whose fetch failed, or whose kind is unknown, are left out.
pub open spec fn resolved(batch: Seq<(Seq<char>, Seq<char>)>, stats: Seq<Result<EntryMeta, String>>) -> Seq<StatView>
    decreases batch.len(),
{
    if batch.len() == 0 || stats.len() == 0 {
        seq![]
    } else {
        let prev = resolved(batch.drop_last(), stats.drop_last());
        match stats.last() {
            Ok(m) => if m.kind == EntryKind::Unknown {
                prev
            } else {
                prev.push(entry_of(batch.last().1, m))
            },
            Err(_) => prev,
        }
    }
}

/// The causes of the failed fetches, in entry order.
pub open spec fn fetch_failures(stats: Seq<Result<EntryMeta, String>>) -> Seq<Seq<char>>
    decreases stats.len(),
{
    if stats.len() == 0 {
        seq![]
    } else {
        let prev = fetch_failures(stats.drop_last());
        match stats.last() {
            Ok(_) => prev,
            Err(c) => prev.push(c@),
        }
    }
}

/// A page of listing items, with the causes of the fetches that failed.
pub struct ResolvedBatch {
    pub entries: Vec<StatEntry>,
    pub failures: Vec<String>,
}

/// Turns a page and the metadata fetched for each of its entries, in the same order,
/// into listing items named by the entries' last segments; an entry of unknown kind is
/// dropped. With `drop_failed`, a failed fetch drops its entry and is reported among
/// the failures; without it, the first failed fetch fails the whole page with its cause.
pub fn resolve_batch(
    batch: &Vec<ListedEntry>,
    stats: &Vec<Result<EntryMeta, String>>,
    drop_failed: bool,
) -> (r: Result<ResolvedBatch, String>)
    requires
        batch@.len() == stats@.len(),
    ensures
        (drop_failed || fetch_failures(stats@).len() == 0) ==> (r matches Ok(b) && b.entries@.map_values(
            |e: StatEntry| e@,
        ) == resolved(entry_views(batch@), stats@) && b.failures@.map_values(|c: String| c@)
            == fetch_failures(stats@)),
        (!drop_failed && fetch_failures(stats@).len() > 0) ==> (r matches Err(c) && c@
            == fetch_failures(stats@)[0]),
{
    let mut entries: Vec<StatEntry> = Vec::new();
    let mut failures: Vec<String> = Vec::new();
    let mut i: usize = 0;
    let ghost bv = entry_views(batch@);
    proof {
        assert(bv.subrange(0, 0).len() == 0);
        assert(stats@.subrange(0, 0).len() == 0);
        assert(entries@.map_values(|e: StatEntry| e@) =~= resolved(bv.subrange(0, 0), stats@.subrange(0, 0)));
        assert(failures@.map_values(|c: String| c@) =~= fetch_failures(stats@.subrange(0, 0)));
    }
    while i < batch.len()
        invariant
            i <= batch@.len() == stats@.len(),
            bv == entry_views(batch@),
            entries@.map_values(|e: StatEntry| e@) == resolved(bv.subrange(0, i as int), stats@.subrange(0, i as int)),
            failures@.map_values(|c: String| c@) == fetch_failures(stats@.subrange(0, i as int)),
        decreases batch@.len() - i,
    {
        let ghost b1 = bv.subrange(0, i + 1);
        let ghost s1 = stats@.subrange(0, i + 1);
        let ghost e0 = entries@.map_values(|e: StatEntry| e@);
        let ghost f0 = failures@.map_values(|c: String| c@);
        proof {
            assert(b1.drop_last() =~= bv.subrange(0, i as int));
            assert(s1.drop_last() =~= stats@.subrange(0, i as int));
            assert(b1.last() == batch@[i as int]@);
            assert(s1.last() == stats@[i as int]);
        }
        match &stats[i] {
            Ok(m) => {
                match entry_from_meta(batch[i].name.as_str(), m) {
                    Some(e) => {
                        entries.push(e);
                        assert(entries@.map_values(|e: StatEntry| e@) =~= e0.push(e@));
                    },
                    None => {},
                }
            },
            Err(c) => {
                failures.push(c.clone());
                assert(failures@.map_values(|c: String| c@) =~= f0.push(c@));
            },
        }
        i = i + 1;
    }
    proof {
        assert(bv.subrange(0, i as int) =~= bv);
        assert(stats@.subrange(0, i as int) =~= stats@);
    }
    if !drop_failed && failures.len() > 0 {
        return Err(failures[0].clone());
    }
    Ok(ResolvedBatch { entries, failures })
}

/// The first `k` pages, one after the other.
pub open spec fn first_pages<T>(entries: Seq<T>, size: nat, k: nat) -> Seq<T>
    decreases k,
{
    if k == 0 {
        seq![]
    } else {
        first_pages(entries, size, (k - 1) as nat) + page(entries, size, (k - 1) as nat)
    }
}

proof fn lemma_first_pages<T>(entries: Seq<T>, size: nat, k: nat)
    requires
        size > 0,
        k <= page_count(entries.len(), size),
    ensures
        first_pages(entries, size, k) == entries.subrange(
            0,
            if k * size <= entries.len() {
                (k * size) as int
            } else {
                entries.len() as int
            },
        ),
    decreases k,
{
    if k == 0 {
        assert(entries.subrange(0, 0) =~= Seq::<T>::empty());
    } else {
        let j = (k - 1) as nat;
        lemma_first_pages(entries, size, j);
        lemma_page_start(entries.len() as int, size as int, j as int);
        assert(j * size + size == k * size) by (nonlinear_arith)
            requires
                j + 1 == k,
        ;
        assert(first_pages(entries, size, k) =~= entries.subrange(
            0,
            if k * size <= entries.len() {
                (k * size) as int
            } else {
                entries.len() as int
            },
        ));
    }
}

/// Handing out every page of a listing, in order, gives back all the listed entries
/// in the order the backend returned them: no entry is lost, repeated or moved.
pub proof fn lemma_pages_cover_listing<T>(entries: Seq<T>, size: nat)
    requires
        size > 0,
    ensures
        first_pages(entries, size, page_count(entries.len(), size)) == entries,
{
    let len = entries.len() as int;
    let d = size as int;
    let q = page_count(entries.len(), size);
    lemma_first_pages(entries, size, q);
    let x = len + d - 1;
    vstd::arithmetic::div_mod::lemma_fundamental_div_mod(x, d);
    assert(q as int == x / d);
    let r = x % d;
    assert(q * size >= len) by (nonlinear_arith)
        requires
            d * (q as int) + r == x,
            x == len + d - 1,
            r < d,
            d == size,
    ;
    assert(entries.subrange(0, len) =~= entries);
}

/// Without pagination a listing yields at most one batch, and that batch is the
/// first entries, up to the default page size, in the order the backend returned them.
pub proof fn lemma_preview_is_first_page<T>(entries: Seq<T>)
    ensures
        batch_count(entries.len(), None) <= 1,
        entries.len() > 0 ==> batch_count(entries.len(), None) == 1,
        page(entries, DEFAULT_LIST_LIMIT as nat, 0) == entries.take(
            if entries.len() < DEFAULT_LIST_LIMIT {
                entries.len() as int
            } else {
                DEFAULT_LIST_LIMIT as int
            },
        ),
{
    assert(page(entries, DEFAULT_LIST_LIMIT as nat, 0) =~= entries.take(
        if entries.len() < DEFAULT_LIST_LIMIT {
            entries.len() as int
        } else {
            DEFAULT_LIST_LIMIT as int
        },
    ));
}

} // verus!
