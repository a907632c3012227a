//! Sprite-sheet metadata: named cells with their frame rectangles.
//!
//! A `Sheet` maps cell names (such as the animation frame names the
//! character produces) to `Cell` records.  It is plain data; decoding the
//! image and the JSON manifest that feed it is the embedding program's
//! business.  Lookups are specified by `spec_cell`, so callers can reason
//! about exactly which cell a name resolves to.

use vstd::prelude::*;
use vstd::string::StringSliceAdditionalSpecFns;

verus! {

/// Largest coordinate or extent a sheet cell may carry.  Keeping cells
/// bounded keeps every rectangle computation on them inside `i16`.
pub const MAX_CELL_EXTENT: i16 = 4096;

/// A rectangle inside the sprite-sheet image.
#[derive(Clone, Copy, Debug, PartialEq, Eq, Structural)]
pub struct SheetRect {
    pub x: i16,
    pub y: i16,
    pub w: i16,
    pub h: i16,
}

/// One named sprite: where it sits in the sheet image, and the offset of
/// the trimmed sprite inside its nominal box.
#[derive(Clone, Copy, Debug, PartialEq, Eq, Structural)]
pub struct Cell {
    pub frame: SheetRect,
    pub sprite_source_size: SheetRect,
}

pub open spec fn spec_rect_bounded(r: SheetRect) -> bool {
    &&& 0 <= r.x <= MAX_CELL_EXTENT
    &&& 0 <= r.y <= MAX_CELL_EXTENT
    &&& 0 <= r.w <= MAX_CELL_EXTENT
    &&& 0 <= r.h <= MAX_CELL_EXTENT
}

pub open spec fn spec_cell_bounded(c: Cell) -> bool {
    spec_rect_bounded(c.frame) && spec_rect_bounded(c.sprite_source_size)
}

/// First entry whose name matches, scanning from the front.
pub open spec fn spec_lookup(entries: Seq<(String, Cell)>, name: Seq<char>) -> Option<Cell>
    decreases entries.len(),
{
    if entries.len() == 0 {
        None
    } else if entries[0].0@ == name {
        Some(entries[0].1)
    } else {
        spec_lookup(entries.drop_first(), name)
    }
}

/// String equality, decided byte by byte.
fn str_eq(a: &str, b: &str) -> (r: bool)
    ensures
        r == (a@ == b@),
{
    let ab = a.as_bytes();
    let bb = b.as_bytes();
    if ab.len() != bb.len() {
        return false;
    }
    let mut i: usize = 0;
    while i < ab.len()
        invariant
            0 <= i <= ab@.len(),
            ab@.len() == bb@.len(),
            ab@ == a.spec_bytes(),
            bb@ == b.spec_bytes(),
            forall|j: int| 0 <= j < i ==> ab@[j] == bb@[j],
        decreases ab@.len() - i,
    {
        if ab[i] != bb[i] {
            return false;
        }
        i = i + 1;
    }
    proof {
        assert(a.spec_bytes() =~= b.spec_bytes());
        vstd::utf8::encode_utf8_decode_utf8(a@);
        vstd::utf8::encode_utf8_decode_utf8(b@);
    }
    true
}

/// A mapping from cell names to cells.  The most recently inserted entry
/// for a name wins, and every cell ever inserted is bounded.
#[derive(Clone, Debug)]
pub struct Sheet {
    entries: Vec<(String, Cell)>,
}

impl Sheet {
    /// The cell a name resolves to, if any.
    pub closed spec fn spec_cell(&self, name: Seq<char>) -> Option<Cell> {
        spec_lookup(self.entries@, name)
    }

    /// Every cell of the sheet is bounded by `MAX_CELL_EXTENT`.
    pub closed spec fn wf(&self) -> bool {
        forall|i: int|
            0 <= i < self.entries@.len() ==> spec_cell_bounded(#[trigger] self.entries@[i].1)
    }

    pub fn new() -> (r: Sheet)
        ensures
            r.wf(),
            forall|name: Seq<char>| r.spec_cell(name) is None,
    {
        Sheet { entries: Vec::new() }
    }

    /// Add one named cell; it shadows any earlier entry under the same name.
    pub fn insert(&mut self, name: String, cell: Cell)
        requires
            old(self).wf(),
            spec_cell_bounded(cell),
        ensures
            final(self).wf(),
            forall|n: Seq<char>|
                final(self).spec_cell(n) == if n == name@ {
                    Some(cell)
                } else {
                    old(self).spec_cell(n)
                },
    {
        self.entries.insert(0, (name, cell));
        proof {
            assert(forall|n: Seq<char>|
                self.entries@.drop_first() =~= old(self).entries@ ==> #[trigger] spec_lookup(
                    self.entries@.drop_first(),
                    n,
                ) == spec_lookup(old(self).entries@, n));
            assert(self.entries@.drop_first() =~= old(self).entries@);
        }
    }

    /// Look a name up.
    pub fn cell(&self, name: &str) -> (r: Option<&Cell>)
        ensures
            match r {
                Some(c) => self.spec_cell(name@) == Some(*c),
                None => self.spec_cell(name@) is None,
            },
    {
        let ghost full = self.entries@;
        proof {
            assert(self.entries@.skip(0) =~= self.entries@);
        }
        let mut i: usize = 0;
        while i < self.entries.len()
            invariant
                0 <= i <= self.entries@.len(),
                full == self.entries@,
                spec_lookup(full, name@) == spec_lookup(self.entries@.skip(i as int), name@),
            decreases self.entries@.len() - i,
        {
            let entry = &self.entries[i];
            if str_eq(entry.0.as_str(), name) {
                proof {
                    assert(self.entries@.skip(i as int)[0] == self.entries@[i as int]);
                }
                return Some(&self.entries[i].1);
            }
            proof {
                assert(self.entries@.skip(i as int).drop_first() =~= self.entries@.skip(
                    i as int + 1,
                ));
                assert(self.entries@.skip(i as int)[0] == self.entries@[i as int]);
            }
            i = i + 1;
        }
        proof {
            assert(self.entries@.skip(i as int).len() == 0);
        }
        None
    }

    /// The cell under `name`, with its boundedness, for callers that know
    /// the name resolves.
    pub proof fn lemma_cell_bounded(&self, name: Seq<char>)
        requires
            self.wf(),
            self.spec_cell(name) is Some,
        ensures
            spec_cell_bounded(self.spec_cell(name)->0),
    {
        lemma_lookup_bounded(self.entries@, name);
    }
}

proof fn lemma_lookup_bounded(entries: Seq<(String, Cell)>, name: Seq<char>)
    requires
        forall|i: int| 0 <= i < entries.len() ==> spec_cell_bounded(#[trigger] entries[i].1),
        spec_lookup(entries, name) is Some,
    ensures
        spec_cell_bounded(spec_lookup(entries, name)->0),
    decreases entries.len(),
{
    if entries.len() == 0 {
    } else if entries[0].0@ == name {
    } else {
        assert(forall|i: int|
            0 <= i < entries.drop_first().len() ==> spec_cell_bounded(
                #[trigger] entries.drop_first()[i].1,
            ));
        lemma_lookup_bounded(entries.drop_first(), name);
    }
}

} // verus!
