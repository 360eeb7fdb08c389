//! The layout strip (columns of windows, some of them stacks) and
//! directional navigation between windows and between displays.
use vstd::prelude::*;
use crate::commands::Direction;
use crate::geometry::IRect;
use crate::layout::WindowId;

verus! {

/// One column of the strip: a single window or a vertical stack.
#[derive(Clone, Debug)]
pub enum Column {
    Single(WindowId),
    Stack(Vec<WindowId>),
}

impl Column {
    /// The windows of the column, top to bottom.
    pub open spec fn ids(self) -> Seq<WindowId> {
        match self {
            Column::Single(e) => seq![e],
            Column::Stack(v) => v@,
        }
    }

    /// The topmost window of the column.
    pub fn top(&self) -> (r: Option<WindowId>)
        ensures
            r == spec_top(self.ids()),
    {
        match self {
            Column::Single(e) => Some(*e),
            Column::Stack(v) => if v.len() > 0 { Some(v[0]) } else { None },
        }
    }
}

impl Column {
    /// The window on row `row`, or the bottom one when the column is shorter.
    pub fn beside(&self, row: usize) -> (r: Option<WindowId>)
        ensures
            r == spec_beside(self.ids(), row as int),
    {
        match self {
            Column::Single(e) => Some(*e),
            Column::Stack(v) => if v.len() == 0 {
                None
            } else if row < v.len() {
                Some(v[row])
            } else {
                Some(v[v.len() - 1])
            },
        }
    }

    /// The row of `e` in the column (0 when absent).
    pub fn row_of(&self, e: WindowId) -> (r: usize)
        ensures
            r == spec_row(self.ids(), e),
    {
        match self {
            Column::Single(x) => {
                proof {
                    reveal_with_fuel(spec_position, 2);
                }
                0
            },
            Column::Stack(v) => match position_in(v, e) {
                Some(p) => p,
                None => 0,
            },
        }
    }
}

/// A horizontal strip of columns.
#[derive(Clone, Debug)]
pub struct LayoutStrip {
    columns: Vec<Column>,
}

/// Index of the first column, at or after `from`, containing `e`.
pub open spec fn spec_column_of(cols: Seq<Seq<WindowId>>, e: WindowId, from: int) -> Option<int>
    decreases cols.len() - from,
{
    if from < 0 || from >= cols.len() {
        None
    } else if cols[from].contains(e) {
        Some(from)
    } else {
        spec_column_of(cols, e, from + 1)
    }
}

/// Position of the first occurrence of `e` in `s`, at or after `from`.
pub open spec fn spec_position(s: Seq<WindowId>, e: WindowId, from: int) -> Option<int>
    decreases s.len() - from,
{
    if from < 0 || from >= s.len() {
        None
    } else if s[from] == e {
        Some(from)
    } else {
        spec_position(s, e, from + 1)
    }
}

/// The top window of a column.
pub open spec fn spec_top(c: Seq<WindowId>) -> Option<WindowId> {
    if c.len() > 0 { Some(c[0]) } else { None }
}

/// The window above `e` in its column.
pub open spec fn spec_above(c: Seq<WindowId>, e: WindowId) -> Option<WindowId> {
    match spec_position(c, e, 0) {
        Some(p) => if p > 0 { Some(c[p - 1]) } else { None },
        None => None,
    }
}

/// The window below `e` in its column.
pub open spec fn spec_below(c: Seq<WindowId>, e: WindowId) -> Option<WindowId> {
    match spec_position(c, e, 0) {
        Some(p) => if p < c.len() - 1 { Some(c[p + 1]) } else { None },
        None => None,
    }
}

/// The window of column `c` on row `row`, or its bottom window when the
/// column is shorter.
pub open spec fn spec_beside(c: Seq<WindowId>, row: int) -> Option<WindowId> {
    if c.len() == 0 {
        None
    } else if row < c.len() {
        Some(c[row])
    } else {
        Some(c.last())
    }
}

/// The row of `e` within column `c` (0 when absent).
pub open spec fn spec_row(c: Seq<WindowId>, e: WindowId) -> int {
    match spec_position(c, e, 0) {
        Some(p) => p,
        None => 0,
    }
}

/// The window reached from `e` by moving in `dir` within the strip.
///
/// West/East give the window on the same row of the neighbouring column
/// (its bottom one when it is shorter), North/South the neighbour within a
/// stack, First/Last the top of the first/last column; `None` when `e` is
/// not in the strip or no such window exists.
pub open spec fn spec_window_in_direction(dir: Direction, e: WindowId, cols: Seq<Seq<WindowId>>) -> Option<WindowId> {
    match spec_column_of(cols, e, 0) {
        None => None,
        Some(i) => match dir {
            Direction::West => if i > 0 { spec_beside(cols[i - 1], spec_row(cols[i], e)) } else { None },
            Direction::East => if i + 1 < cols.len() { spec_beside(cols[i + 1], spec_row(cols[i], e)) } else { None },
            Direction::First => spec_top(cols[0]),
            Direction::Last => spec_top(cols[cols.len() - 1]),
            Direction::North => spec_above(cols[i], e),
            Direction::South => spec_below(cols[i], e),
        },
    }
}

fn position_in(v: &Vec<WindowId>, e: WindowId) -> (r: Option<usize>)
    ensures
        match r {
            Some(p) => spec_position(v@, e, 0) == Some(p as int),
            None => spec_position(v@, e, 0) == None::<int>,
        },
{
    let mut i: usize = 0;
    while i < v.len()
        invariant
            i <= v@.len(),
            spec_position(v@, e, 0) == spec_position(v@, e, i as int),
        decreases v@.len() - i,
    {
        if v[i] == e {
            return Some(i);
        }
        i = i + 1;
    }
    None
}

fn column_contains(c: &Column, e: WindowId) -> (b: bool)
    ensures
        b == c.ids().contains(e),
{
    match c {
        Column::Single(x) => {
            assert(seq![*x][0] == *x);
            *x == e
        },
        Column::Stack(v) => {
            let p = position_in(v, e);
            proof {
                lemma_position_contains(v@, e, 0);
            }
            p.is_some()
        },
    }
}

/// `spec_position` finds `e` exactly when `e` occurs at or after `from`.
pub proof fn lemma_position_contains(s: Seq<WindowId>, e: WindowId, from: int)
    requires
        0 <= from,
    ensures
        spec_position(s, e, from) is Some <==> exists|j: int| from <= j < s.len() && s[j] == e,
        spec_position(s, e, from) matches Some(p) ==> from <= p < s.len() && s[p] == e,
    decreases s.len() - from,
{
    if from < s.len() && s[from] != e {
        lemma_position_contains(s, e, from + 1);
        if exists|j: int| from <= j < s.len() && s[j] == e {
            let j = choose|j: int| from <= j < s.len() && s[j] == e;
            assert(from + 1 <= j);
        }
    }
}

/// `spec_column_of` finds `e` exactly when some column at or after `from`
/// holds it.
pub proof fn lemma_column_of_contains(cols: Seq<Seq<WindowId>>, e: WindowId, from: int)
    requires
        0 <= from,
    ensures
        spec_column_of(cols, e, from) is Some <==> exists|j: int|
            from <= j < cols.len() && #[trigger] cols[j].contains(e),
        spec_column_of(cols, e, from) matches Some(i) ==> from <= i < cols.len()
            && cols[i].contains(e),
    decreases cols.len() - from,
{
    if from < cols.len() && !cols[from].contains(e) {
        lemma_column_of_contains(cols, e, from + 1);
        if exists|j: int| from <= j < cols.len() && #[trigger] cols[j].contains(e) {
            let j = choose|j: int| from <= j < cols.len() && #[trigger] cols[j].contains(e);
            assert(from + 1 <= j);
        }
    }
}

impl LayoutStrip {
    /// The columns of the strip, left to right, each top to bottom.
    pub closed spec fn spec_columns(&self) -> Seq<Seq<WindowId>> {
        self.columns@.map_values(|c: Column| c.ids())
    }

    /// Which columns are stacks (as opposed to single windows), left to
    /// right.
    pub closed spec fn spec_stacks(&self) -> Seq<bool> {
        self.columns@.map_values(|c: Column| c is Stack)
    }

    /// An empty strip.
    pub fn new() -> (s: LayoutStrip)
        ensures
            s.spec_columns().len() == 0,
            s.spec_stacks().len() == 0,
    {
        LayoutStrip { columns: Vec::new() }
    }

    /// Number of columns.
    pub fn len(&self) -> (n: usize)
        ensures
            n == self.spec_columns().len(),
    {
        self.columns.len()
    }

    /// The column at `index`, if any.
    pub fn get(&self, index: usize) -> (r: Option<&Column>)
        ensures
            index < self.spec_columns().len() ==> (r matches Some(c) && c.ids()
                == self.spec_columns()[index as int] && (c is Stack) == self.spec_stacks()[index as int]),
            index >= self.spec_columns().len() ==> r is None,
    {
        if index < self.columns.len() {
            Some(&self.columns[index])
        } else {
            None
        }
    }

    /// Appends `e` as a new single-window column at the right end.
    pub fn append(&mut self, e: WindowId)
        ensures
            final(self).spec_columns() == old(self).spec_columns().push(seq![e]),
            final(self).spec_stacks() == old(self).spec_stacks().push(false),
    {
        self.columns.push(Column::Single(e));
        assert(self.spec_columns() =~= old(self).spec_columns().push(seq![e]));
        assert(self.spec_stacks() =~= old(self).spec_stacks().push(false));
    }

    /// The index of the first column containing `e`.
    pub fn index_of(&self, e: WindowId) -> (r: Option<usize>)
        ensures
            match r {
                Some(i) => spec_column_of(self.spec_columns(), e, 0) == Some(i as int),
                None => spec_column_of(self.spec_columns(), e, 0) == None::<int>,
            },
    {
        let mut i: usize = 0;
        while i < self.columns.len()
            invariant
                i <= self.columns@.len(),
                spec_column_of(self.spec_columns(), e, 0) == spec_column_of(
                    self.spec_columns(),
                    e,
                    i as int,
                ),
            decreases self.columns@.len() - i,
        {
            if column_contains(&self.columns[i], e) {
                return Some(i);
            }
            i = i + 1;
        }
        None
    }

    /// Moves `e` onto the bottom of the stack in the column to its left.
    ///
    /// Fails (leaving the strip unchanged) when `e` is not in the strip or
    /// is in the leftmost column. The column `e` leaves is removed when it
    /// becomes empty.
    pub fn stack(&mut self, e: WindowId) -> (r: Result<(), ()>)
        ensures
            ({
                let cols = old(self).spec_columns();
                match spec_column_of(cols, e, 0) {
                    Some(i) => if i > 0 {
                        &&& r is Ok
                        &&& final(self).spec_columns() == spec_stacked(cols, e, i)
                        &&& final(self).spec_stacks() == spec_stacked_kinds(
                            old(self).spec_stacks(),
                            i,
                            spec_without(cols[i], e).len() == 0,
                        )
                    } else {
                        r is Err && final(self).spec_columns() == cols && final(self).spec_stacks()
                            == old(self).spec_stacks()
                    },
                    None => r is Err && final(self).spec_columns() == cols && final(self).spec_stacks()
                        == old(self).spec_stacks(),
                }
            }),
    {
        let idx = match self.index_of(e) {
            Some(i) => i,
            None => return Err(()),
        };
        proof {
            lemma_column_of_contains(self.spec_columns(), e, 0);
        }
        if idx == 0 {
            return Err(());
        }
        let ghost cols = self.spec_columns();
        assert(cols[idx as int] == self.columns@[idx as int].ids());
        assert(cols[idx as int - 1] == self.columns@[idx as int - 1].ids());
        let mut rest: Vec<WindowId> = Vec::new();
        match &self.columns[idx] {
            Column::Single(x) => {
                assert(cols[idx as int] == seq![*x]);
                proof {
                    lemma_column_of_contains(cols, e, 0);
                }
                assert(spec_without(seq![*x], e) =~= seq![]) by {
                    reveal_with_fuel(Seq::filter, 2);
                    assert(seq![*x].drop_last() =~= Seq::<WindowId>::empty());
                }
            },
            Column::Stack(v) => {
                let mut k: usize = 0;
                while k < v.len()
                    invariant
                        k <= v@.len(),
                        rest@ == spec_without(v@.take(k as int), e),
                    decreases v@.len() - k,
                {
                    assert(v@.take(k as int + 1).drop_last() == v@.take(k as int));
                    reveal_with_fuel(Seq::filter, 1);
                    if v[k] != e {
                        rest.push(v[k]);
                    }
                    k = k + 1;
                }
                assert(v@.take(v@.len() as int) == v@);
            },
        }
        assert(rest@ == spec_without(cols[idx as int], e));
        let ghost c0 = self.columns@;
        let ghost k0 = self.spec_stacks();
        let mut target: Vec<WindowId> = match &self.columns[idx - 1] {
            Column::Single(x) => {
                let mut t = Vec::new();
                t.push(*x);
                t
            },
            Column::Stack(v) => v.clone(),
        };
        assert(target@ =~= cols[idx - 1]);
        target.push(e);
        let ghost tv = target@;
        self.columns.set(idx - 1, Column::Stack(target));
        let ghost grown = cols.update(idx - 1, cols[idx - 1].push(e));
        assert(self.spec_columns() =~= grown) by {
            assert(self.columns@ == c0.update(idx - 1, Column::Stack(target)));
            assert forall|j: int| 0 <= j < grown.len() implies #[trigger] self.spec_columns()[j]
                == grown[j] by {
                if j != idx - 1 {
                    assert(self.columns@[j] == c0[j]);
                }
            }
        }
        let ghost kg = k0.update(idx - 1, true);
        assert(self.spec_stacks() =~= kg) by {
            assert forall|j: int| 0 <= j < kg.len() implies #[trigger] self.spec_stacks()[j] == kg[j] by {
                if j != idx - 1 {
                    assert(self.columns@[j] == c0[j]);
                }
            }
        }
        if rest.len() == 0 {
            self.columns.remove(idx);
            assert(self.spec_columns() =~= grown.remove(idx as int));
            assert(self.spec_stacks() =~= kg.remove(idx as int));
        } else {
            let ghost rv = rest@;
            self.columns.set(idx, Column::Stack(rest));
            assert(self.spec_columns() =~= grown.update(idx as int, rv));
            assert(self.spec_stacks() =~= kg.update(idx as int, true));
        }
        Ok(())
    }

    /// All windows of the strip, column by column, top to bottom.
    pub fn all_windows(&self) -> (r: Vec<WindowId>)
        ensures
            r@ == spec_flatten(self.spec_columns()),
    {
        let mut out: Vec<WindowId> = Vec::new();
        let mut i: usize = 0;
        let ghost cols = self.spec_columns();
        while i < self.columns.len()
            invariant
                i <= self.columns@.len(),
                cols == self.spec_columns(),
                out@ == spec_flatten(cols.take(i as int)),
            decreases self.columns@.len() - i,
        {
            assert(cols.take(i as int + 1).drop_last() == cols.take(i as int));
            assert(cols[i as int] == self.columns@[i as int].ids());
            match &self.columns[i] {
                Column::Single(x) => {
                    out.push(*x);
                    assert(out@ =~= spec_flatten(cols.take(i as int)) + seq![*x]);
                },
                Column::Stack(v) => {
                    let ghost before = out@;
                    let mut k: usize = 0;
                    while k < v.len()
                        invariant
                            k <= v@.len(),
                            out@ == before + v@.take(k as int),
                        decreases v@.len() - k,
                    {
                        assert(v@.take(k as int + 1) == v@.take(k as int).push(v@[k as int]));
                        out.push(v[k]);
                        k = k + 1;
                    }
                    assert(v@.take(v@.len() as int) == v@);
                },
            }
            i = i + 1;
        }
        assert(cols.take(cols.len() as int) == cols);
        out
    }
}

/// The windows of all columns, in order.
pub open spec fn spec_flatten(cols: Seq<Seq<WindowId>>) -> Seq<WindowId>
    decreases cols.len(),
{
    if cols.len() == 0 {
        seq![]
    } else {
        spec_flatten(cols.drop_last()) + cols.last()
    }
}

/// `s` with every occurrence of `e` taken out.
pub open spec fn spec_without(s: Seq<WindowId>, e: WindowId) -> Seq<WindowId> {
    s.filter(|x: WindowId| x != e)
}

/// The columns after stacking `e` (found in column `i > 0`) onto column
/// `i - 1`: `e` is appended to column `i - 1` and taken out of column `i`,
/// which disappears when nothing is left in it.
pub open spec fn spec_stacked(cols: Seq<Seq<WindowId>>, e: WindowId, i: int) -> Seq<Seq<WindowId>> {
    let rest = spec_without(cols[i], e);
    let grown = cols.update(i - 1, cols[i - 1].push(e));
    if rest.len() == 0 {
        grown.remove(i)
    } else {
        grown.update(i, rest)
    }
}

/// Which columns are stacks after stacking a window of column `i > 0` onto
/// column `i - 1`: that column becomes a stack; column `i` disappears when
/// `emptied`, else it is a stack of what is left (one window left included).
pub open spec fn spec_stacked_kinds(stacks: Seq<bool>, i: int, emptied: bool) -> Seq<bool> {
    let grown = stacks.update(i - 1, true);
    if emptied {
        grown.remove(i)
    } else {
        grown.update(i, true)
    }
}

/// How many times `w` occurs in `s`.
pub open spec fn seq_count(s: Seq<WindowId>, w: WindowId) -> nat
    decreases s.len(),
{
    if s.len() == 0 {
        0
    } else {
        seq_count(s.drop_last(), w) + if s.last() == w { 1nat } else { 0nat }
    }
}

/// How many times `w` occurs in the strip.
pub open spec fn strip_count(cols: Seq<Seq<WindowId>>, w: WindowId) -> nat
    decreases cols.len(),
{
    if cols.len() == 0 {
        0
    } else {
        strip_count(cols.drop_last(), w) + seq_count(cols.last(), w)
    }
}

proof fn lemma_count_without(s: Seq<WindowId>, e: WindowId, w: WindowId)
    ensures
        seq_count(spec_without(s, e), w) == if w == e { 0 } else { seq_count(s, w) },
    decreases s.len(),
{
    reveal_with_fuel(Seq::filter, 1);
    if s.len() > 0 {
        lemma_count_without(s.drop_last(), e, w);
        let sub = spec_without(s.drop_last(), e);
        if s.last() != e {
            assert(spec_without(s, e) == sub.push(s.last()));
            assert(sub.push(s.last()).drop_last() =~= sub);
        }
    }
}

proof fn lemma_count_update(cols: Seq<Seq<WindowId>>, j: int, c: Seq<WindowId>, w: WindowId)
    requires
        0 <= j < cols.len(),
    ensures
        strip_count(cols.update(j, c), w) + seq_count(cols[j], w) == strip_count(cols, w) + seq_count(c, w),
    decreases cols.len(),
{
    let u = cols.update(j, c);
    if j < cols.len() - 1 {
        assert(u.drop_last() =~= cols.drop_last().update(j, c));
        lemma_count_update(cols.drop_last(), j, c, w);
    } else {
        assert(u.drop_last() =~= cols.drop_last());
    }
}

proof fn lemma_count_remove(cols: Seq<Seq<WindowId>>, j: int, w: WindowId)
    requires
        0 <= j < cols.len(),
    ensures
        strip_count(cols.remove(j), w) + seq_count(cols[j], w) == strip_count(cols, w),
    decreases cols.len(),
{
    let r = cols.remove(j);
    if j < cols.len() - 1 {
        assert(r.drop_last() =~= cols.drop_last().remove(j));
        assert(r.last() == cols.last());
        lemma_count_remove(cols.drop_last(), j, w);
    } else {
        assert(r =~= cols.drop_last());
    }
}

/// Law: stacking a window that occurs once in its column keeps every
/// window of the strip, each as many times as before.
pub proof fn lemma_stack_keeps_windows(cols: Seq<Seq<WindowId>>, e: WindowId, i: int, w: WindowId)
    requires
        0 < i < cols.len(),
        seq_count(cols[i], e) == 1,
    ensures
        strip_count(spec_stacked(cols, e, i), w) == strip_count(cols, w),
{
    let rest = spec_without(cols[i], e);
    let grown = cols.update(i - 1, cols[i - 1].push(e));
    lemma_count_update(cols, i - 1, cols[i - 1].push(e), w);
    assert(cols[i - 1].push(e).drop_last() =~= cols[i - 1]);
    lemma_count_without(cols[i], e, w);
    assert(grown[i] == cols[i]);
    if rest.len() == 0 {
        lemma_count_remove(grown, i, w);
        assert(seq_count(rest, w) == 0);
    } else {
        lemma_count_update(grown, i, rest, w);
    }
}

/// Retrieves the window in `direction` relative to `e` within `strip`.
///
/// For East/West: navigates across columns, keeping the row.
/// For North/South: navigates within a stack. For First/Last: returns the
/// first/last column's top window.
pub fn window_in_direction(direction: &Direction, e: WindowId, strip: &LayoutStrip) -> (r: Option<WindowId>)
    ensures
        r == spec_window_in_direction(*direction, e, strip.spec_columns()),
{
    let index = match strip.index_of(e) {
        Some(i) => i,
        None => return None,
    };
    proof {
        lemma_column_of_contains(strip.spec_columns(), e, 0);
    }
    let n = strip.len();
    assert(forall|j: int| 0 <= j < n ==> strip.spec_columns()[j] == #[trigger] strip.columns@[j].ids());
    let row = strip.columns[index].row_of(e);
    match direction {
        Direction::West => if index > 0 {
            strip.columns[index - 1].beside(row)
        } else {
            None
        },
        Direction::East => if index + 1 < n {
            strip.columns[index + 1].beside(row)
        } else {
            None
        },
        Direction::First => strip.columns[0].top(),
        Direction::Last => strip.columns[n - 1].top(),
        Direction::North => match &strip.columns[index] {
            Column::Single(_) => None,
            Column::Stack(v) => match position_in(v, e) {
                Some(p) => {
                    proof { lemma_position_contains(v@, e, 0); }
                    if p > 0 { Some(v[p - 1]) } else { None }
                },
                None => None,
            },
        },
        Direction::South => match &strip.columns[index] {
            Column::Single(_) => None,
            Column::Stack(v) => match position_in(v, e) {
                Some(p) => {
                    proof { lemma_position_contains(v@, e, 0); }
                    if p < v.len() - 1 { Some(v[p + 1]) } else { None }
                },
                None => None,
            },
        },
    }
}

} // verus!

verus! {

/// Whether display bounds `b` lie in `dir` from the active display.
pub open spec fn spec_display_candidate(dir: Direction, active: IRect, b: IRect) -> bool {
    match dir {
        Direction::West => b.min.x < active.min.x,
        Direction::East => b.min.x >= active.max.x,
        Direction::North => b.min.y < active.min.y,
        Direction::South => b.min.y >= active.max.y,
        Direction::First | Direction::Last => false,
    }
}

/// The gap between the active display and `b` along `dir`.
pub open spec fn spec_display_gap(dir: Direction, active: IRect, b: IRect) -> int {
    match dir {
        Direction::West => active.min.x - b.max.x,
        Direction::East => b.min.x - active.max.x,
        Direction::North => active.min.y - b.max.y,
        Direction::South => b.min.y - active.max.y,
        Direction::First | Direction::Last => i32::MAX as int,
    }
}

/// `j` is the nearest display in `dir`: a candidate with the smallest gap,
/// the first such in `others`.
pub open spec fn is_nearest_display(dir: Direction, active: IRect, others: Seq<IRect>, j: int) -> bool {
    &&& 0 <= j < others.len()
    &&& spec_display_candidate(dir, active, others[j])
    &&& forall|i: int|
        #![trigger others[i]]
        0 <= i < others.len() && spec_display_candidate(dir, active, others[i]) ==> {
            &&& i < j ==> spec_display_gap(dir, active, others[i]) > spec_display_gap(dir, active, others[j])
            &&& i >= j ==> spec_display_gap(dir, active, others[i]) >= spec_display_gap(dir, active, others[j])
        }
}

fn display_candidate(dir: &Direction, active: &IRect, b: &IRect) -> (r: bool)
    ensures
        r == spec_display_candidate(*dir, *active, *b),
{
    match dir {
        Direction::West => b.min.x < active.min.x,
        Direction::East => b.min.x >= active.max.x,
        Direction::North => b.min.y < active.min.y,
        Direction::South => b.min.y >= active.max.y,
        Direction::First | Direction::Last => false,
    }
}

fn display_gap(dir: &Direction, active: &IRect, b: &IRect) -> (r: i64)
    ensures
        r == spec_display_gap(*dir, *active, *b),
{
    match dir {
        Direction::West => active.min.x as i64 - b.max.x as i64,
        Direction::East => b.min.x as i64 - active.max.x as i64,
        Direction::North => active.min.y as i64 - b.max.y as i64,
        Direction::South => b.min.y as i64 - active.max.y as i64,
        Direction::First | Direction::Last => i32::MAX as i64,
    }
}

/// Finds the nearest display in `direction` from `active_bounds`.
///
/// West/East compare horizontal edges, North/South vertical edges; among
/// equally near displays the first in `others` wins. `None` when no display
/// lies in that direction (always for First/Last).
pub fn display_in_direction(direction: &Direction, active_bounds: IRect, others: &[IRect]) -> (r: Option<usize>)
    ensures
        match r {
            Some(j) => is_nearest_display(*direction, active_bounds, others@, j as int),
            None => forall|i: int|
                0 <= i < others@.len() ==> !spec_display_candidate(
                    *direction,
                    active_bounds,
                    #[trigger] others@[i],
                ),
        },
{
    let mut best: Option<usize> = None;
    let mut best_gap: i64 = 0;
    let mut i: usize = 0;
    while i < others.len()
        invariant
            i <= others@.len(),
            match best {
                Some(j) => {
                    &&& j < i
                    &&& best_gap == spec_display_gap(*direction, active_bounds, others@[j as int])
                    &&& is_nearest_display(*direction, active_bounds, others@.take(i as int), j as int)
                },
                None => forall|k: int|
                    0 <= k < i ==> !spec_display_candidate(*direction, active_bounds, #[trigger] others@[k]),
            },
        decreases others@.len() - i,
    {
        let b = &others[i];
        if display_candidate(direction, &active_bounds, b) {
            let g = display_gap(direction, &active_bounds, b);
            match best {
                None => {
                    best = Some(i);
                    best_gap = g;
                    assert forall|k: int| #![trigger others@.take(i as int + 1)[k]]
                        0 <= k < i + 1 && spec_display_candidate(*direction, active_bounds, others@.take(i as int + 1)[k])
                        implies k == i by {
                        assert(others@.take(i as int + 1)[k] == others@[k]);
                    }
                },
                Some(j) => {
                    if g < best_gap {
                        best = Some(i);
                        best_gap = g;
                    }
                },
            }
        }
        proof {
            let t = others@.take(i as int + 1);
            assert forall|k: int| 0 <= k < i + 1 implies #[trigger] t[k] == others@[k] by {}
            assert(others@.take(i as int) =~= t.take(i as int));
        }
        i = i + 1;
    }
    assert(others@.take(others@.len() as int) =~= others@);
    best
}

/// Law: no display is nearer in `dir` than the one found, and the one
/// found really lies in that direction.
pub proof fn lemma_nearest_is_minimal(dir: Direction, active: IRect, others: Seq<IRect>, j: int, i: int)
    requires
        is_nearest_display(dir, active, others, j),
        0 <= i < others.len(),
        spec_display_candidate(dir, active, others[i]),
    ensures
        spec_display_gap(dir, active, others[j]) <= spec_display_gap(dir, active, others[i]),
{
}

/// Law: the display found in a direction lies entirely on that side of the
/// active one's matching edge (south: its top at or below the active
/// bottom; north: its top above the active top; east: its left at or right
/// of the active right; west: its left left of the active left), and no
/// display on that side is nearer; First and Last find none.
pub proof fn lemma_display_found_on_that_side(dir: Direction, active: IRect, others: Seq<IRect>, j: int)
    requires
        is_nearest_display(dir, active, others, j),
    ensures
        match dir {
            Direction::South => others[j].min.y >= active.max.y && forall|i: int|
                0 <= i < others.len() && others[i].min.y >= active.max.y ==> #[trigger] others[i].min.y
                    >= others[j].min.y,
            Direction::North => others[j].min.y < active.min.y && forall|i: int|
                0 <= i < others.len() && others[i].min.y < active.min.y ==> #[trigger] others[i].max.y
                    <= others[j].max.y,
            Direction::East => others[j].min.x >= active.max.x && forall|i: int|
                0 <= i < others.len() && others[i].min.x >= active.max.x ==> #[trigger] others[i].min.x
                    >= others[j].min.x,
            Direction::West => others[j].min.x < active.min.x && forall|i: int|
                0 <= i < others.len() && others[i].min.x < active.min.x ==> #[trigger] others[i].max.x
                    <= others[j].max.x,
            Direction::First | Direction::Last => false,
        },
{
    assert forall|i: int| 0 <= i < others.len() implies (spec_display_candidate(dir, active, others[i]) ==> spec_display_gap(dir, active, others[i]) >= spec_display_gap(dir, active, others[j])) by {
        let _ = others[i];
    }
}

/// Law: no display is found in a direction exactly when none lies on that
/// side of the active one (as above), and never for First and Last.
pub proof fn lemma_no_display_on_that_side(dir: Direction, active: IRect, others: Seq<IRect>)
    requires
        forall|i: int| 0 <= i < others.len() ==> !spec_display_candidate(dir, active, #[trigger] others[i]),
    ensures
        forall|i: int|
            0 <= i < others.len() ==> match dir {
                Direction::South => (#[trigger] others[i]).min.y < active.max.y,
                Direction::North => others[i].min.y >= active.min.y,
                Direction::East => others[i].min.x < active.max.x,
                Direction::West => others[i].min.x >= active.min.x,
                Direction::First | Direction::Last => true,
            },
{
}

/// Law: First and Last move to the top window of the first and of the last
/// column, wherever the window starts (as long as it is in the strip).
pub proof fn lemma_first_last_are_column_tops(e: WindowId, cols: Seq<Seq<WindowId>>)
    requires
        spec_column_of(cols, e, 0) is Some,
        cols.len() > 0,
        cols[0].len() > 0,
        cols[cols.len() - 1].len() > 0,
    ensures
        spec_window_in_direction(Direction::First, e, cols) == Some(cols[0][0]),
        spec_window_in_direction(Direction::Last, e, cols) == Some(cols[cols.len() - 1][0]),
{
}

/// Law: for a window that stands once in the strip, at row `r` of column
/// `i`, North and South give the window just above and just below it in
/// its column (none at the top or bottom), and West and East give the window
/// on the same row of the column to its left or right (that column's bottom
/// window when it is shorter; none at the strip's ends).
pub proof fn lemma_neighbours(e: WindowId, cols: Seq<Seq<WindowId>>, i: int, r: int)
    requires
        0 <= i < cols.len(),
        0 <= r < cols[i].len(),
        cols[i][r] == e,
        forall|a: int, b: int| 0 <= a < cols.len() && 0 <= b < cols[a].len() && #[trigger] cols[a][b] == e ==> a == i
            && b == r,
        forall|a: int| 0 <= a < cols.len() ==> (#[trigger] cols[a]).len() > 0,
    ensures
        spec_window_in_direction(Direction::North, e, cols) == (if r > 0 { Some(cols[i][r - 1]) } else { None }),
        spec_window_in_direction(Direction::South, e, cols) == (if r + 1 < cols[i].len() {
            Some(cols[i][r + 1])
        } else {
            None
        }),
        spec_window_in_direction(Direction::West, e, cols) == (if i > 0 {
            Some(cols[i - 1][if r < cols[i - 1].len() { r } else { cols[i - 1].len() - 1 }])
        } else {
            None
        }),
        spec_window_in_direction(Direction::East, e, cols) == (if i + 1 < cols.len() {
            Some(cols[i + 1][if r < cols[i + 1].len() { r } else { cols[i + 1].len() - 1 }])
        } else {
            None
        }),
{
    assert(cols[i].contains(e));
    lemma_column_of_contains(cols, e, 0);
    let c = spec_column_of(cols, e, 0)->0;
    assert(cols[c].contains(e));
    let b = choose|b: int| 0 <= b < cols[c].len() && cols[c][b] == e;
    assert(cols[c][b] == e);
    assert(c == i);
    lemma_position_contains(cols[i], e, 0);
    let q = spec_position(cols[i], e, 0)->0;
    assert(cols[i][q] == e);
    assert(q == r);
}

} // verus!
