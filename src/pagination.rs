//! Slicing a list of strings into a page, optionally split into chunks.

use vstd::prelude::*;

verus! {

/// Which part of a list to return: skip `offset` items, take at most
/// `limit`, and cut the result into pieces of `split` items.
pub struct Pagination {
    pub offset: u32,
    pub limit: Option<u32>,
    pub split: Option<u32>,
}

/// A page: the selected items, or those items cut into chunks.
#[derive(Debug, PartialEq, Eq)]
pub enum Page {
    Flat(Vec<String>),
    Chunked(Vec<Vec<String>>),
}

/// The offset used when a request names none.
pub fn default_offset() -> (r: u32)
    ensures
        r == 0,
{
    0
}

/// Index one past the last selected item.
pub open spec fn page_end(len: nat, offset: nat, limit: Option<u32>) -> nat {
    match limit {
        Some(l) => if offset + l < len { (offset + l) as nat } else { len },
        None => len,
    }
}

/// `s` cut into consecutive pieces of `size` items; the last may be shorter.
pub open spec fn chunks<T>(s: Seq<T>, size: nat) -> Seq<Seq<T>>
    decreases s.len(),
{
    if s.len() == 0 || size == 0 {
        Seq::empty()
    } else if s.len() <= size {
        seq![s]
    } else {
        seq![s.take(size as int)] + chunks(s.skip(size as int), size)
    }
}

/// Copies `items[from..to]` into a new list.
fn copy_range(items: &Vec<String>, from: usize, to: usize) -> (r: Vec<String>)
    requires
        from <= to <= items@.len(),
    ensures
        r@ == items@.subrange(from as int, to as int),
{
    let mut r: Vec<String> = Vec::new();
    let mut k: usize = from;
    while k < to
        invariant
            from <= k <= to,
            to <= items@.len(),
            r@ == items@.subrange(from as int, k as int),
        decreases to - k,
    {
        r.push(items[k].clone());
        assert(r@ =~= items@.subrange(from as int, k + 1));
        k = k + 1;
    }
    r
}

impl Pagination {
    /// The page of `contents` that this request selects.
    pub fn page(&self, contents: &Vec<String>) -> (r: Page)
        requires
            self.offset <= contents@.len(),
            self.split != Some(0u32),
        ensures
            ({
                let sel = contents@.subrange(
                    self.offset as int,
                    page_end(contents@.len(), self.offset as nat, self.limit) as int,
                );
                match self.split {
                    Some(s) => r matches Page::Chunked(v) && v@.map_values(|c: Vec<String>| c@)
                        == chunks(sel, s as nat),
                    None => r matches Page::Flat(v) && v@ == sel,
                }
            }),
    {
        let start = self.offset as usize;
        let len = contents.len();
        let end: usize = match self.limit {
            Some(l) => if (l as usize) < len - start {
                start + l as usize
            } else {
                len
            },
            None => len,
        };
        match self.split {
            None => Page::Flat(copy_range(contents, start, end)),
            Some(s) => {
                let size = s as usize;
                let ghost sel = contents@.subrange(start as int, end as int);
                let mut out: Vec<Vec<String>> = Vec::new();
                let mut p: usize = start;
                assert(contents@.subrange(start as int, end as int) =~= sel);
                while p < end
                    invariant
                        start <= p <= end,
                        end <= contents@.len(),
                        size > 0,
                        sel == contents@.subrange(start as int, end as int),
                        chunks(sel, size as nat) == out@.map_values(|c: Vec<String>| c@) + chunks(
                            contents@.subrange(p as int, end as int),
                            size as nat,
                        ),
                    decreases end - p,
                {
                    let q: usize = if size < end - p {
                        p + size
                    } else {
                        end
                    };
                    let piece = copy_range(contents, p, q);
                    let ghost rest = contents@.subrange(p as int, end as int);
                    proof {
                        if rest.len() <= size {
                            assert(rest =~= contents@.subrange(p as int, q as int));
                            assert(contents@.subrange(q as int, end as int) =~= Seq::<String>::empty());
                        } else {
                            assert(rest.take(size as int) =~= contents@.subrange(p as int, q as int));
                            assert(rest.skip(size as int) =~= contents@.subrange(q as int, end as int));
                        }
                    }
                    let ghost before = out@.map_values(|c: Vec<String>| c@);
                    out.push(piece);
                    assert(out@.map_values(|c: Vec<String>| c@) =~= before.push(piece@));
                    assert(chunks(sel, size as nat) =~= out@.map_values(|c: Vec<String>| c@) + chunks(
                        contents@.subrange(q as int, end as int),
                        size as nat,
                    ));
                    p = q;
                }
                assert(contents@.subrange(p as int, end as int) =~= Seq::<String>::empty());
                assert(out@.map_values(|c: Vec<String>| c@) + Seq::<Seq<String>>::empty()
                    =~= out@.map_values(|c: Vec<String>| c@));
                Page::Chunked(out)
            },
        }
    }
}

} // verus!
