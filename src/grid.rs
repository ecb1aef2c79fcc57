//! One screen row: a column count, the cells written so far, and a template
//! cell that stands for every column beyond them.

use vstd::prelude::*;

use crate::cell::Flags;
use crate::index::Column;

verus! {

/// What a row needs from the cells it holds.
pub trait GridCell: Sized {
    /// The cell shows nothing.
    spec fn spec_is_empty(&self) -> bool;

    /// The attributes of the cell.
    spec fn spec_flags(&self) -> Flags;

    /// The cheap pre-check that runs before a full comparison.
    spec fn spec_fast_eq(&self, other: &Self) -> bool;

    fn is_empty(&self) -> (r: bool)
        ensures
            r == self.spec_is_empty(),
    ;

    fn flags(&self) -> (r: &Flags)
        ensures
            *r == self.spec_flags(),
    ;

    fn flags_mut(&mut self) -> (r: &mut Flags)
        ensures
            *r == old(self).spec_flags(),
            final(self).spec_flags() == *final(r),
    ;

    fn fast_eq(&self, other: &Self) -> (r: bool)
        ensures
            r == self.spec_fast_eq(other),
    ;
}

/// Length of `s` once its trailing empty cells are cut off.
pub open spec fn trimmed_len<T: GridCell>(s: Seq<T>) -> nat
    decreases s.len(),
{
    if s.len() == 0 {
        0
    } else if !s.last().spec_is_empty() {
        s.len()
    } else {
        trimmed_len(s.drop_last())
    }
}

/// `trimmed_len` is the end of the last non-empty cell.
pub proof fn lemma_trimmed_len<T: GridCell>(s: Seq<T>)
    ensures
        trimmed_len(s) <= s.len(),
        trimmed_len(s) > 0 ==> !s[trimmed_len(s) - 1].spec_is_empty(),
        forall|i: int| trimmed_len(s) <= i < s.len() ==> s[i].spec_is_empty(),
    decreases s.len(),
{
    if s.len() > 0 && s.last().spec_is_empty() {
        lemma_trimmed_len(s.drop_last());
        assert forall|i: int| trimmed_len(s) <= i < s.len() implies s[i].spec_is_empty() by {
            if i < s.len() - 1 {
                assert(s[i] == s.drop_last()[i]);
            }
        }
    }
}

/// Every cell of `s` is empty.
pub open spec fn all_empty<T: GridCell>(s: Seq<T>) -> bool {
    forall|i: int| 0 <= i < s.len() ==> #[trigger] s[i].spec_is_empty()
}

/// The index of the last cell of `v` that is not empty, plus one; zero when
/// there is none.
fn trimmed_end<T: GridCell>(v: &Vec<T>) -> (r: usize)
    ensures
        r == trimmed_len(v@),
{
    let mut i: usize = v.len();
    assert(v@.subrange(0, i as int) =~= v@);
    while i > 0 && v[i - 1].is_empty()
        invariant
            i <= v@.len(),
            trimmed_len(v@) == trimmed_len(v@.subrange(0, i as int)),
        decreases i,
    {
        assert(v@.subrange(0, i as int).drop_last() =~= v@.subrange(0, i - 1));
        i -= 1;
    }
    assert(v@.subrange(0, 0) =~= Seq::<T>::empty());
    i
}

/// A row of the grid.
#[derive(Debug, Clone, Default)]
pub struct Row<T> {
    inner: Vec<T>,
    columns: usize,
    template: T,
}

impl<T> Row<T> {
    /// The cells written so far.
    pub closed spec fn backing(&self) -> Seq<T> {
        self.inner@
    }

    /// The number of columns.
    pub closed spec fn columns(&self) -> nat {
        self.columns as nat
    }

    /// The cell that stands for every column beyond the backing cells.
    pub closed spec fn template(&self) -> T {
        self.template
    }

    /// The cell at column `i`: a backing cell, or the template beyond them.
    pub open spec fn cell_at(&self, i: int) -> T {
        if i < self.backing().len() {
            self.backing()[i]
        } else {
            self.template()
        }
    }

    /// The backing cells never go beyond the last column.
    pub open spec fn wf(&self) -> bool {
        self.backing().len() <= self.columns()
    }

    /// `self` has `columns` columns, these backing cells, and the template
    /// of `before`.
    pub open spec fn moved(&self, before: &Self, columns: nat, backing: Seq<T>) -> bool {
        &&& self.columns() == columns
        &&& self.backing() == backing
        &&& self.template() == before.template()
    }
}

impl<T> View for Row<T> {
    type V = Seq<T>;

    /// The cells of the row, one per column.
    open spec fn view(&self) -> Seq<T> {
        row_cells(self.columns(), self.backing(), self.template())
    }
}

/// The cells of a row of `columns` columns with these backing cells and
/// this template.
pub open spec fn row_cells<T>(columns: nat, backing: Seq<T>, template: T) -> Seq<T> {
    Seq::new(columns, |i: int| if i < backing.len() { backing[i] } else { template })
}

/// A row has one cell per column, however many of them are backing cells.
pub proof fn lemma_len_is_columns<T>(row: Row<T>)
    ensures
        row@.len() == row.columns(),
{
}

/// A row with no backing cell is empty, whatever its width.
pub proof fn lemma_implicit_row_is_empty<T: GridCell>(row: Row<T>)
    requires
        row.backing().len() == 0,
    ensures
        all_empty(row.backing()),
{
}

impl<T: Copy + GridCell> Row<T> {
    /// An empty row of `columns` columns.
    pub fn new(columns: Column, template: &T) -> (r: Row<T>)
        ensures
            r.columns() == columns.0,
            r.backing() == Seq::<T>::empty(),
            r.template() == *template,
            r.wf(),
    {
        Row { inner: Vec::with_capacity(columns.0), columns: columns.0, template: *template }
    }

    /// A row whose backing cells are `vec`.
    pub fn from_vec(vec: Vec<T>, template: &T, columns: Column) -> (r: Row<T>)
        requires
            vec@.len() <= columns.0,
        ensures
            r.columns() == columns.0,
            r.backing() == vec@,
            r.template() == *template,
            r.wf(),
    {
        Row { inner: vec, columns: columns.0, template: *template }
    }

    /// Sets the column count to `cols`. Backing cells beyond it are cut off;
    /// of those, the ones up to the last non-empty cell are handed back.
    pub fn shrink(&mut self, cols: Column) -> (r: Option<Vec<T>>)
        ensures
            old(self).backing().len() <= cols.0 ==> {
                &&& final(self).moved(old(self), cols.0 as nat, old(self).backing())
                &&& r.is_none()
            },
            old(self).backing().len() > cols.0 ==> {
                let cut = old(self).backing().subrange(cols.0 as int, old(self).backing().len() as int);
                &&& final(self).moved(old(self), cols.0 as nat, old(self).backing().subrange(0, cols.0 as int))
                &&& trimmed_len(cut) == 0 ==> r.is_none()
                &&& trimmed_len(cut) > 0 ==> r.is_some() && r.unwrap()@ == cut.subrange(0, trimmed_len(cut) as int)
            },
            final(self).wf(),
    {
        self.columns = cols.0;

        if self.inner.len() <= cols.0 {
            return None;
        }

        let mut new_row = self.inner.split_off(cols.0);
        let index = trimmed_end(&new_row);
        proof {
            lemma_trimmed_len(new_row@);
        }
        new_row.truncate(index);

        if new_row.len() == 0 {
            None
        } else {
            Some(new_row)
        }
    }

    /// Raises the column count to `cols`; the new columns show the template.
    pub fn grow(&mut self, cols: Column)
        ensures
            final(self).moved(old(self), cols.0 as nat, old(self).backing()),
            old(self).wf() && old(self).columns() <= cols.0 ==> final(self).wf(),
    {
        self.columns = cols.0;
    }

    /// Drops every backing cell and takes `template` as the new template.
    pub fn reset(&mut self, template: &T)
        ensures
            final(self).columns() == old(self).columns(),
            final(self).backing() == Seq::<T>::empty(),
            final(self).template() == *template,
            final(self).wf(),
    {
        self.template = *template;
        self.inner.clear();
    }

    /// Drops the backing cells from column `at` on and takes `template` as
    /// the new template.
    pub fn reset_from(&mut self, at: usize, template: &T)
        ensures
            final(self).columns() == old(self).columns(),
            final(self).backing() == if at < old(self).backing().len() {
                old(self).backing().subrange(0, at as int)
            } else {
                old(self).backing()
            },
            final(self).template() == *template,
            old(self).wf() ==> final(self).wf(),
    {
        self.template = *template;
        self.inner.truncate(at);
    }

    /// The cell in the last column; `None` for a row without columns.
    pub fn last(&self) -> (r: Option<&T>)
        ensures
            self.columns() == 0 ==> r.is_none(),
            self.columns() > 0 ==> r.is_some() && *r.unwrap() == self.cell_at(self.columns() - 1),
    {
        if self.columns == 0 {
            None
        } else if self.columns - 1 < self.inner.len() {
            Some(&self.inner[self.columns - 1])
        } else {
            Some(&self.template)
        }
    }

    /// Writes template cells into the backing up to `size` cells.
    fn fill(&mut self, size: usize)
        ensures
            final(self).columns() == old(self).columns(),
            final(self).template() == old(self).template(),
            old(self).backing().len() < size && size <= old(self).columns() ==> final(self).backing()
                == old(self).backing() + Seq::new(
                (size - old(self).backing().len()) as nat,
                |i: int| old(self).template(),
            ),
            !(old(self).backing().len() < size && size <= old(self).columns()) ==> final(self).backing()
                == old(self).backing(),
            final(self)@ == old(self)@,
            old(self).wf() ==> final(self).wf(),
    {
        if self.inner.len() < size && size <= self.columns {
            let ghost start = self.inner@;
            let mut i: usize = self.inner.len();
            while i < size
                invariant
                    start.len() <= i <= size,
                    size <= self.columns,
                    self.columns == old(self).columns,
                    self.template == old(self).template,
                    start == old(self).inner@,
                    self.inner@ == start + Seq::new((i - start.len()) as nat, |j: int| self.template),
                decreases size - i,
            {
                self.inner.push(self.template);
                i += 1;
                assert(self.inner@ =~= start + Seq::new((i - start.len()) as nat, |j: int| self.template));
            }
        }
        assert(self@ =~= old(self)@);
    }

    /// The cell at column `index`, for writing; the backing is filled with
    /// template cells up to it first.
    pub fn index_mut(&mut self, index: Column) -> (r: &mut T)
        requires
            index.0 < old(self).columns(),
        ensures
            *r == old(self)@[index.0 as int],
            final(self)@ == old(self)@.update(index.0 as int, *final(r)),
            final(self).columns() == old(self).columns(),
            final(self).template() == old(self).template(),
            final(self).backing().len() == if index.0 < old(self).backing().len() {
                old(self).backing().len() as int
            } else {
                index.0 + 1
            },
            old(self).wf() ==> final(self).wf(),
    {
        self.fill(index.0 + 1);
        proof {
            let filled = self.inner@;
            assert forall|v: T|
                #[trigger] row_cells(self.columns(), filled.update(index.0 as int, v), self.template())
                    == old(self)@.update(index.0 as int, v) by {
                assert(row_cells(self.columns(), filled.update(index.0 as int, v), self.template())
                    =~= old(self)@.update(index.0 as int, v));
            }
        }
        &mut self.inner[index.0]
    }

    /// The cell in the last column, for writing; the whole row is filled with
    /// template cells first.
    pub fn last_mut(&mut self) -> (r: Option<&mut T>)
        requires
            old(self).wf(),
        ensures
            old(self).columns() == 0 ==> r.is_none() && *final(self) == *old(self),
            old(self).columns() > 0 ==> {
                &&& r.is_some()
                &&& *r.unwrap() == old(self)@.last()
                &&& final(self)@ == old(self)@.update(old(self).columns() - 1, *final(r.unwrap()))
                &&& final(self).backing().len() == old(self).columns()
            },
            final(self).columns() == old(self).columns(),
            final(self).template() == old(self).template(),
            final(self).wf(),
    {
        if self.columns == 0 {
            return None;
        }
        Some(self.index_mut(Column(self.columns - 1)))
    }

    /// Every cell of the row, for writing; the whole row is filled with
    /// template cells first.
    pub fn iter_mut(&mut self) -> (r: &mut [T])
        requires
            old(self).wf(),
        ensures
            r@ == old(self)@,
            final(self).backing() == final(r)@,
            final(self).columns() == old(self).columns(),
            final(self).template() == old(self).template(),
    {
        self.fill(self.columns);
        assert(self.inner@ =~= old(self)@);
        self.inner.as_mut_slice()
    }

    /// Splits off the first `at` columns and hands them back; the row keeps
    /// the rest. A split point beyond the row is refused.
    pub fn front_split_off(&mut self, at: usize) -> (r: Result<Vec<T>, InvalidSplitPoint>)
        ensures
            at > old(self).columns() ==> r == Err::<Vec<T>, InvalidSplitPoint>(InvalidSplitPoint)
                && *final(self) == *old(self),
            at <= old(self).columns() ==> {
                &&& r.is_ok()
                &&& r.unwrap()@ == old(self)@.subrange(0, at as int)
                &&& final(self)@ == old(self)@.subrange(at as int, old(self).columns() as int)
                &&& final(self).moved(
                    old(self),
                    (old(self).columns() - at) as nat,
                    if at < old(self).backing().len() {
                        old(self).backing().subrange(at as int, old(self).backing().len() as int)
                    } else {
                        Seq::<T>::empty()
                    },
                )
            },
            old(self).wf() ==> final(self).wf(),
    {
        if at > self.columns {
            return Err(InvalidSplitPoint);
        }
        self.fill(at);

        self.columns -= at;

        let mut split = self.inner.split_off(at);
        std::mem::swap(&mut split, &mut self.inner);
        assert(split@ =~= old(self)@.subrange(0, at as int));
        assert(self@ =~= old(self)@.subrange(at as int, old(self).columns() as int));
        proof {
            if at >= old(self).backing().len() {
                assert(self.inner@ =~= Seq::<T>::empty());
            }
        }
        Ok(split)
    }
}

/// `Row::front_split_off` was asked to split beyond the end of the row.
#[derive(Debug, Clone, Copy, PartialEq, Eq, Structural)]
pub struct InvalidSplitPoint;

impl<T> Row<T> {
    /// Adds the cells of `vec` after the backing cells, emptying `vec`.
    pub fn append(&mut self, vec: &mut Vec<T>)
        requires
            old(self).backing().len() + old(vec)@.len() <= usize::MAX,
        ensures
            final(self).moved(
                old(self),
                vstd::math::max(
                    (old(self).backing().len() + old(vec)@.len()) as int,
                    old(self).columns() as int,
                ) as nat,
                old(self).backing() + old(vec)@,
            ),
            final(vec)@ == Seq::<T>::empty(),
            final(self).wf(),
    {
        self.inner.append(vec);
        self.columns = if self.inner.len() > self.columns {
            self.inner.len()
        } else {
            self.columns
        };
    }

    /// Puts the cells of `vec` before the backing cells.
    pub fn append_front(&mut self, vec: Vec<T>)
        requires
            old(self).backing().len() + vec@.len() <= usize::MAX,
        ensures
            final(self).moved(
                old(self),
                vstd::math::max(
                    (old(self).backing().len() + vec@.len()) as int,
                    old(self).columns() as int,
                ) as nat,
                vec@ + old(self).backing(),
            ),
            final(self).wf(),
    {
        let mut vec = vec;
        vec.append(&mut self.inner);
        self.inner = vec;
        self.columns = if self.inner.len() > self.columns {
            self.inner.len()
        } else {
            self.columns
        };
    }

    /// The backing cells.
    pub fn as_slice(&self) -> (r: &[T])
        ensures
            r@ == self.backing(),
    {
        self.inner.as_slice()
    }

    /// The cell that stands for every column beyond the backing cells.
    pub fn template_cell(&self) -> (r: &T)
        ensures
            *r == self.template(),
    {
        &self.template
    }

    /// The number of columns.
    pub fn len(&self) -> (r: usize)
        ensures
            r == self.columns(),
    {
        self.columns
    }

    /// The cell at column `index`: a backing cell, or the template beyond
    /// them.
    pub fn index(&self, index: Column) -> (r: &T)
        ensures
            *r == self.cell_at(index.0 as int),
    {
        if index.0 < self.inner.len() {
            &self.inner[index.0]
        } else {
            &self.template
        }
    }
}

impl<T: GridCell> Row<T> {
    /// The index of the last non-empty backing cell, plus one; zero when
    /// there is none.
    pub fn occupied(&self) -> (r: Column)
        ensures
            r.0 == trimmed_len(self.backing()),
            r.0 <= self.backing().len(),
            r.0 > 0 ==> !self.backing()[r.0 - 1].spec_is_empty(),
            forall|i: int| r.0 <= i < self.backing().len() ==> self.backing()[i].spec_is_empty(),
    {
        proof {
            lemma_trimmed_len(self.inner@);
        }
        Column(trimmed_end(&self.inner))
    }

    /// Every backing cell is empty.
    pub fn is_empty(&self) -> (r: bool)
        ensures
            r == all_empty(self.backing()),
    {
        let mut i: usize = 0;
        while i < self.inner.len()
            invariant
                i <= self.inner@.len(),
                forall|j: int| 0 <= j < i ==> #[trigger] self.inner@[j].spec_is_empty(),
            decreases self.inner@.len() - i,
        {
            if !self.inner[i].is_empty() {
                return false;
            }
            i += 1;
        }
        true
    }
}

} // verus!
