//! The table of the plot: named columns of equal length, kept in the order of their names.

use vstd::prelude::*;

verus! {

/// The order of column names: by the first character in which two names differ, a
/// name that is the start of another one first.
pub open spec fn lex_less(a: Seq<char>, b: Seq<char>) -> bool
    decreases a.len(),
{
    if b.len() == 0 {
        false
    } else if a.len() == 0 {
        true
    } else if a[0] != b[0] {
        (a[0] as int) < (b[0] as int)
    } else {
        lex_less(a.drop_first(), b.drop_first())
    }
}

/// Whether each name is below all the names after it.
pub open spec fn sorted_names(names: Seq<Seq<char>>) -> bool {
    forall|i: int, j: int| 0 <= i < j < names.len() ==> lex_less(#[trigger] names[i], #[trigger] names[j])
}

/// The names that a vector of strings holds.
pub open spec fn names_of(v: Seq<String>) -> Seq<Seq<char>> {
    Seq::new(v.len(), |i: int| v[i]@)
}

/// No name is below itself.
pub proof fn lemma_lex_less_irreflexive(a: Seq<char>)
    ensures
        !lex_less(a, a),
    decreases a.len(),
{
    if a.len() > 0 {
        lemma_lex_less_irreflexive(a.drop_first());
    }
}

/// A name below a second one that is below a third is below the third.
pub proof fn lemma_lex_less_transitive(a: Seq<char>, b: Seq<char>, c: Seq<char>)
    requires
        lex_less(a, b),
        lex_less(b, c),
    ensures
        lex_less(a, c),
    decreases a.len(),
{
    if a.len() > 0 && b.len() > 0 && c.len() > 0 {
        if a[0] == b[0] && b[0] == c[0] {
            lemma_lex_less_transitive(a.drop_first(), b.drop_first(), c.drop_first());
        }
    }
}

/// Of two different names one is below the other.
pub proof fn lemma_lex_less_total(a: Seq<char>, b: Seq<char>)
    requires
        a != b,
    ensures
        lex_less(a, b) || lex_less(b, a),
    decreases a.len(),
{
    if a.len() > 0 && b.len() > 0 {
        if a[0] == b[0] {
            if a.drop_first() == b.drop_first() {
                assert(a =~= seq![a[0]] + a.drop_first());
                assert(b =~= seq![b[0]] + b.drop_first());
            }
            lemma_lex_less_total(a.drop_first(), b.drop_first());
        }
    } else {
        if a.len() == 0 && b.len() == 0 {
            assert(a =~= b);
        }
    }
}

/// A sorted sequence of names holds no name twice.
pub proof fn lemma_sorted_names_distinct(names: Seq<Seq<char>>)
    requires
        sorted_names(names),
    ensures
        forall|i: int, j: int| 0 <= i < names.len() && 0 <= j < names.len() && i != j ==> names[i] != names[j],
{
    assert forall|i: int, j: int| 0 <= i < names.len() && 0 <= j < names.len() && i != j implies names[i] != names[j] by {
        lemma_lex_less_irreflexive(names[i]);
        if i < j {
            assert(lex_less(names[i], names[j]));
        } else {
            assert(lex_less(names[j], names[i]));
        }
    }
}

/// Two sorted sequences that hold the same names are equal: the order of a set of
/// names is fixed by the names.
pub proof fn lemma_sorted_names_unique(a: Seq<Seq<char>>, b: Seq<Seq<char>>)
    requires
        sorted_names(a),
        sorted_names(b),
        forall|s: Seq<char>| a.contains(s) <==> b.contains(s),
    ensures
        a == b,
    decreases a.len(),
{
    if a.len() == 0 {
        if b.len() > 0 {
            assert(b.contains(b[0]));
        }
        assert(a =~= b);
    } else {
        let top = a.last();
        assert(a.contains(top));
        let j = choose|j: int| 0 <= j < b.len() && b[j] == top;
        assert(b.contains(b.last()));
        let k = choose|k: int| 0 <= k < a.len() && a[k] == b.last();
        if j < b.len() - 1 {
            assert(lex_less(b[j], b.last()));
            if k < a.len() - 1 {
                assert(lex_less(a[k], a.last()));
                lemma_lex_less_transitive(top, b.last(), top);
            }
            lemma_lex_less_irreflexive(top);
        }
        assert(b.last() == top);
        lemma_sorted_names_distinct(a);
        lemma_sorted_names_distinct(b);
        let a0 = a.drop_last();
        let b0 = b.drop_last();
        assert forall|s: Seq<char>| a0.contains(s) <==> b0.contains(s) by {
            if a0.contains(s) {
                let i = choose|i: int| 0 <= i < a0.len() && a0[i] == s;
                assert(a[i] == s);
                assert(a.contains(s));
                let m = choose|m: int| 0 <= m < b.len() && b[m] == s;
                assert(b0[m] == s);
            }
            if b0.contains(s) {
                let i = choose|i: int| 0 <= i < b0.len() && b0[i] == s;
                assert(b[i] == s);
                assert(b.contains(s));
                let m = choose|m: int| 0 <= m < a.len() && a[m] == s;
                assert(a0[m] == s);
            }
        }
        assert(sorted_names(a0)) by {
            assert forall|i: int, j: int| 0 <= i < j < a0.len() implies lex_less(
                #[trigger] a0[i],
                #[trigger] a0[j],
            ) by {
                assert(lex_less(a[i], a[j]));
            }
        }
        assert(sorted_names(b0)) by {
            assert forall|i: int, j: int| 0 <= i < j < b0.len() implies lex_less(
                #[trigger] b0[i],
                #[trigger] b0[j],
            ) by {
                assert(lex_less(b[i], b[j]));
            }
        }
        lemma_sorted_names_unique(a0, b0);
        assert(a =~= a0.push(top));
        assert(b =~= b0.push(top));
    }
}

/// Whether `a` comes before `b` in the order of column names.
pub fn name_less(a: &String, b: &String) -> (r: bool)
    ensures
        r == lex_less(a@, b@),
{
    let la: usize = a.as_str().unicode_len();
    let lb: usize = b.as_str().unicode_len();
    let mut i: usize = 0;
    assert(a@.skip(0) =~= a@);
    assert(b@.skip(0) =~= b@);
    while i < la && i < lb
        invariant
            la == a@.len(),
            lb == b@.len(),
            i <= la,
            i <= lb,
            lex_less(a@, b@) == lex_less(a@.skip(i as int), b@.skip(i as int)),
        decreases la - i,
    {
        let ca: char = a.as_str().get_char(i);
        let cb: char = b.as_str().get_char(i);
        proof {
            assert(a@.skip(i as int).drop_first() =~= a@.skip(i + 1));
            assert(b@.skip(i as int).drop_first() =~= b@.skip(i + 1));
            assert(a@.skip(i as int)[0] == ca);
            assert(b@.skip(i as int)[0] == cb);
        }
        if ca != cb {
            return (ca as u32) < (cb as u32);
        }
        i = i + 1;
    }
    la < lb
}

/// Puts `name` at its place in a sorted vector of names, unless the vector holds it.
fn insert_name(names: &mut Vec<String>, name: String)
    requires
        sorted_names(names_of(old(names)@)),
    ensures
        sorted_names(names_of(final(names)@)),
        forall|s: Seq<char>|
            names_of(final(names)@).contains(s) <==> (names_of(old(names)@).contains(s) || s
                == name@),
{
    let ghost before = names_of(names@);
    let mut p: usize = 0;
    while p < names.len() && name_less(&names[p], &name)
        invariant
            p <= names.len(),
            names@ == old(names)@,
            before == names_of(names@),
            forall|j: int| 0 <= j < p ==> lex_less(#[trigger] before[j], name@),
        decreases names.len() - p,
    {
        p = p + 1;
    }
    if p < names.len() && names[p] == name {
        assert(before[p as int] == name@);
        assert forall|s: Seq<char>| before.contains(s) || s == name@ implies before.contains(
            s,
        ) by {}
        return ;
    }
    proof {
        if p < names.len() {
            lemma_lex_less_total(before[p as int], name@);
            assert forall|j: int| p <= j < before.len() implies lex_less(
                name@,
                #[trigger] before[j],
            ) by {
                if j > p {
                    assert(lex_less(before[p as int], before[j]));
                    lemma_lex_less_transitive(name@, before[p as int], before[j]);
                }
            }
        }
    }
    let ghost inserted = name@;
    names.insert(p, name);
    proof {
        let after = names_of(names@);
        assert(after =~= before.insert(p as int, inserted));
        assert forall|i: int, j: int| 0 <= i < j < after.len() implies lex_less(
            #[trigger] after[i],
            #[trigger] after[j],
        ) by {
            if j < p {
                assert(lex_less(before[i], before[j]));
            } else if j == p {
                assert(lex_less(before[i], inserted));
            } else if i < p {
                assert(lex_less(before[i], before[j - 1]));
            } else if i == p {
                assert(lex_less(inserted, before[j - 1]));
            } else {
                assert(lex_less(before[i - 1], before[j - 1]));
            }
        }
        assert forall|s: Seq<char>| after.contains(s) <==> (before.contains(s) || s
            == inserted) by {
            if after.contains(s) {
                let i = choose|i: int| 0 <= i < after.len() && after[i] == s;
                if i < p {
                    assert(before[i] == s);
                } else if i > p {
                    assert(before[i - 1] == s);
                }
            }
            if before.contains(s) {
                let i = choose|i: int| 0 <= i < before.len() && before[i] == s;
                if i < p {
                    assert(after[i] == s);
                } else {
                    assert(after[i + 1] == s);
                }
            }
            if s == inserted {
                assert(after[p as int] == s);
            }
        }
    }
}

/// The last place at which `name` stands in `names`, or -1 where it does not occur.
pub open spec fn last_place(names: Seq<Seq<char>>, name: Seq<char>) -> int
    decreases names.len(),
{
    if names.len() == 0 {
        -1
    } else if names.last() == name {
        names.len() - 1
    } else {
        last_place(names.drop_last(), name)
    }
}

/// The last place of a name is a place that holds it, and there is none exactly
/// where the name does not occur.
pub proof fn lemma_last_place(names: Seq<Seq<char>>, name: Seq<char>)
    ensures
        -1 <= last_place(names, name) < names.len(),
        last_place(names, name) >= 0 ==> names[last_place(names, name)] == name,
        last_place(names, name) == -1 <==> !names.contains(name),
        forall|j: int| last_place(names, name) < j < names.len() ==> names[j] != name,
    decreases names.len(),
{
    if names.len() > 0 {
        let rest = names.drop_last();
        lemma_last_place(rest, name);
        if names.last() == name {
            assert(names[names.len() - 1] == name);
        } else {
            if rest.contains(name) {
                let j = choose|j: int| 0 <= j < rest.len() && rest[j] == name;
                assert(names[j] == name);
            }
            if names.contains(name) {
                let j = choose|j: int| 0 <= j < names.len() && names[j] == name;
                assert(rest[j] == name);
            }
            assert forall|j: int| last_place(names, name) < j < names.len() implies names[j]
                != name by {
                if j < rest.len() {
                    assert(rest[j] == names[j]);
                }
            }
        }
    }
}

/// The last place at which `name` stands in `names`.
pub fn find_last(names: &Vec<String>, name: &String) -> (r: Option<usize>)
    ensures
        match r {
            Some(i) => i == last_place(names_of(names@), name@),
            None => last_place(names_of(names@), name@) == -1,
        },
{
    let mut i: usize = names.len();
    assert(names_of(names@).take(i as int) =~= names_of(names@));
    while i > 0
        invariant
            i <= names.len(),
            last_place(names_of(names@), name@) == last_place(
                names_of(names@).take(i as int),
                name@,
            ),
        decreases i,
    {
        assert(names_of(names@).take(i as int).drop_last() =~= names_of(names@).take(i - 1));
        assert(names_of(names@).take(i as int).last() == names@[i - 1]@);
        if names[i - 1] == *name {
            return Some(i - 1);
        }
        i = i - 1;
    }
    None
}

/// The values of a row put in another order: the value at place `i` of the result is
/// the value at place `positions[i]` of the row.
pub fn arrange_row(row: &Vec<Option<i64>>, positions: &Vec<usize>) -> (r: Vec<Option<i64>>)
    requires
        forall|i: int| 0 <= i < positions@.len() ==> positions@[i] < row@.len(),
    ensures
        r@.len() == positions@.len(),
        forall|i: int| 0 <= i < r@.len() ==> r@[i] == row@[positions@[i] as int],
{
    let mut r: Vec<Option<i64>> = Vec::new();
    let mut i: usize = 0;
    while i < positions.len()
        invariant
            i <= positions.len(),
            r@.len() == i,
            forall|j: int| 0 <= j < positions@.len() ==> positions@[j] < row@.len(),
            forall|j: int| 0 <= j < i ==> r@[j] == row@[positions@[j] as int],
        decreases positions.len() - i,
    {
        r.push(row[positions[i]]);
        i = i + 1;
    }
    r
}

/// A table of numbers in named columns. A cell counts millionths of a unit, or is
/// `None` where the source had no number. The columns stand in the order of their
/// names, and all have the same length.
pub struct Table {
    name: String,
    colnames: Vec<String>,
    columns: Vec<Vec<Option<i64>>>,
}

/// A `Table` as mathematical values: `data[i]` is the column named `columns[i]`.
pub struct TableView {
    pub name: Seq<char>,
    pub columns: Seq<Seq<char>>,
    pub data: Seq<Seq<Option<i64>>>,
}

impl View for Table {
    type V = TableView;

    closed spec fn view(&self) -> TableView {
        TableView {
            name: self.name@,
            columns: names_of(self.colnames@),
            data: Seq::new(self.columns@.len(), |i: int| self.columns@[i]@),
        }
    }
}

impl TableView {
    /// At least one column, the names sorted, one column of data for each name, and
    /// all columns of one length.
    pub open spec fn wf(self) -> bool {
        &&& self.columns.len() >= 1
        &&& self.data.len() == self.columns.len()
        &&& sorted_names(self.columns)
        &&& forall|i: int| 0 <= i < self.data.len() ==> (#[trigger] self.data[i]).len() == self.data[0].len()
    }

    /// The number of rows.
    pub open spec fn rows(self) -> nat {
        self.data[0].len()
    }

    /// The values of the column called `name`.
    pub open spec fn column(self, name: Seq<char>) -> Seq<Option<i64>> {
        self.data[self.columns.index_of(name)]
    }

    /// The place of a name is the only place that holds it.
    pub proof fn lemma_place(self, name: Seq<char>, i: int)
        requires
            self.wf(),
            0 <= i < self.columns.len(),
            self.columns[i] == name,
        ensures
            self.columns.contains(name),
            self.columns.index_of(name) == i,
    {
        lemma_sorted_names_distinct(self.columns);
        let j = self.columns.index_of(name);
        assert(0 <= j < self.columns.len() && self.columns[j] == name);
    }

    /// The column of the first axis: the one asked for, or the first.
    pub open spec fn default_x(self, x: Seq<char>) -> Seq<char> {
        if x.len() == 0 {
            self.columns[0]
        } else {
            x
        }
    }

    /// The column of the second axis: the one asked for, or the second, or that of
    /// the first axis.
    pub open spec fn default_y(self, x: Seq<char>, y: Seq<char>) -> Seq<char> {
        if y.len() != 0 {
            y
        } else if self.columns.len() > 1 {
            self.columns[1]
        } else {
            self.default_x(x)
        }
    }

    /// The column of the third axis: the one asked for, or the third, or that of the
    /// second axis.
    pub open spec fn default_z(self, x: Seq<char>, y: Seq<char>, z: Seq<char>) -> Seq<char> {
        if z.len() != 0 {
            z
        } else if self.columns.len() > 2 {
            self.columns[2]
        } else {
            self.default_y(x, y)
        }
    }

    /// The table with one row more.
    pub open spec fn push(self, row: Seq<Option<i64>>) -> TableView {
        TableView {
            name: self.name,
            columns: self.columns,
            data: Seq::new(self.data.len(), |i: int| self.data[i].push(row[i])),
        }
    }
}

impl Table {
    /// Whether the table is well formed.
    pub open spec fn wf(&self) -> bool {
        self@.wf()
    }

    /// An empty table with the given columns, put in order and each held once.
    pub fn new(name: String, columns: Vec<String>) -> (table: Table)
        requires
            columns.len() > 0,
        ensures
            table.wf(),
            table@.name == name@,
            forall|s: Seq<char>| table@.columns.contains(s) <==> names_of(columns@).contains(s),
            table@.rows() == 0,
    {
        let mut sorted: Vec<String> = Vec::new();
        let mut i: usize = 0;
        while i < columns.len()
            invariant
                i <= columns.len(),
                sorted_names(names_of(sorted@)),
                forall|s: Seq<char>|
                    names_of(sorted@).contains(s) <==> names_of(columns@).take(i as int).contains(
                        s,
                    ),
            decreases columns.len() - i,
        {
            let ghost before = names_of(sorted@);
            let entry: String = columns[i].clone();
            insert_name(&mut sorted, entry);
            proof {
                let given = names_of(columns@);
                let head = given.take(i as int);
                let more = given.take(i + 1);
                assert(more =~= head.push(given[i as int]));
                assert forall|s: Seq<char>| names_of(sorted@).contains(s) <==> more.contains(
                    s,
                ) by {
                    if head.contains(s) {
                        let j = choose|j: int| 0 <= j < head.len() && head[j] == s;
                        assert(more[j] == s);
                    }
                    if s == given[i as int] {
                        assert(more[i as int] == s);
                    }
                    if more.contains(s) {
                        let j = choose|j: int| 0 <= j < more.len() && more[j] == s;
                        if j < i {
                            assert(head[j] == s);
                        }
                    }
                }
            }
            i = i + 1;
        }
        proof {
            assert(names_of(columns@).take(columns.len() as int) =~= names_of(columns@));
            assert(names_of(columns@)[0] == columns@[0]@);
            assert(names_of(columns@).contains(columns@[0]@));
            assert(names_of(sorted@).contains(columns@[0]@));
            assert(names_of(sorted@).len() > 0);
        }
        let mut data: Vec<Vec<Option<i64>>> = Vec::new();
        let mut k: usize = 0;
        while k < sorted.len()
            invariant
                k <= sorted.len(),
                data@.len() == k,
                forall|j: int| 0 <= j < k ==> (#[trigger] data@[j])@.len() == 0,
            decreases sorted.len() - k,
        {
            data.push(Vec::new());
            k = k + 1;
        }
        Table { name, colnames: sorted, columns: data }
    }

    /// Appends one row: `row[i]` goes to the column at place `i` in the order of the names.
    pub fn push(&mut self, row: &Vec<Option<i64>>)
        requires
            old(self).wf(),
            row.len() == old(self)@.columns.len(),
        ensures
            final(self).wf(),
            final(self)@ == old(self)@.push(row@),
    {
        let n: usize = self.columns.len();
        let mut i: usize = 0;
        while i < n
            invariant
                i <= n,
                n == row.len(),
                n == old(self).columns@.len(),
                self.columns@.len() == n,
                self.name == old(self).name,
                self.colnames == old(self).colnames,
                forall|j: int| 0 <= j < i ==> (#[trigger] self.columns@[j])@ == old(self).columns@[j]@.push(row@[j]),
                forall|j: int| i <= j < n ==> (#[trigger] self.columns@[j])@ == old(self).columns@[j]@,
            decreases n - i,
        {
            self.columns[i].push(row[i]);
            i = i + 1;
        }
        proof {
            assert(self@.data =~= old(self)@.push(row@).data);
        }
    }

    /// The place of a column in the order of the names.
    pub fn find(&self, column: &String) -> (r: Option<usize>)
        requires
            self.wf(),
        ensures
            match r {
                Some(i) => i < self@.columns.len() && self@.columns[i as int] == column@,
                None => !self@.columns.contains(column@),
            },
    {
        let mut i: usize = 0;
        while i < self.colnames.len()
            invariant
                i <= self.colnames.len(),
                forall|j: int| 0 <= j < i ==> names_of(self.colnames@)[j] != column@,
            decreases self.colnames.len() - i,
        {
            if self.colnames[i] == *column {
                return Some(i);
            }
            i = i + 1;
        }
        None
    }

    /// The values of a column, or `None` where the table has no column of that name.
    pub fn get(&self, column: &String) -> (r: Option<&Vec<Option<i64>>>)
        requires
            self.wf(),
        ensures
            match r {
                Some(values) => self@.columns.contains(column@) && values@ == self@.column(
                    column@,
                ),
                None => !self@.columns.contains(column@),
            },
    {
        match self.find(column) {
            Some(i) => {
                proof {
                    self@.lemma_place(column@, i as int);
                }
                Some(&self.columns[i])
            },
            None => None,
        }
    }

    /// The values of the column at place `i`.
    pub fn column(&self, i: usize) -> (values: &Vec<Option<i64>>)
        requires
            self.wf(),
            i < self@.columns.len(),
        ensures
            values@ == self@.data[i as int],
    {
        &self.columns[i]
    }

    /// For each column of the table, the last place at which its name stands among
    /// `headers`; `None` where a column of the table is not among them.
    pub fn header_positions(&self, headers: &Vec<String>) -> (r: Option<Vec<usize>>)
        requires
            self.wf(),
        ensures
            match r {
                Some(positions) => {
                    &&& positions@.len() == self@.columns.len()
                    &&& forall|i: int|
                        0 <= i < positions@.len() ==> positions@[i] == last_place(
                            names_of(headers@),
                            self@.columns[i],
                        )
                },
                None => exists|i: int|
                    0 <= i < self@.columns.len() && !names_of(headers@).contains(
                        #[trigger] self@.columns[i],
                    ),
            },
    {
        let mut positions: Vec<usize> = Vec::new();
        let mut i: usize = 0;
        while i < self.colnames.len()
            invariant
                i <= self.colnames.len(),
                positions@.len() == i,
                forall|j: int|
                    0 <= j < i ==> positions@[j] == last_place(
                        names_of(headers@),
                        names_of(self.colnames@)[j],
                    ),
            decreases self.colnames.len() - i,
        {
            proof {
                lemma_last_place(names_of(headers@), self.colnames@[i as int]@);
            }
            match find_last(headers, &self.colnames[i]) {
                Some(place) => {
                    positions.push(place);
                },
                None => {
                    assert(!names_of(headers@).contains(self@.columns[i as int]));
                    return None;
                },
            }
            i = i + 1;
        }
        Some(positions)
    }

    /// The columns that the three axes show when the plot opens: those asked for,
    /// and for an axis with an empty name the first column on the first axis, on the
    /// second axis the second column or else that of the first axis, and on the third
    /// axis the third column or else that of the second axis.
    pub fn default_columns(&self, x: &String, y: &String, z: &String) -> (r: (
        String,
        String,
        String,
    ))
        requires
            self.wf(),
        ensures
            r.0@ == self@.default_x(x@),
            r.1@ == self@.default_y(x@, y@),
            r.2@ == self@.default_z(x@, y@, z@),
    {
        let count: usize = self.colnames.len();
        let dimx: String = if x.as_str().unicode_len() == 0 {
            self.colnames[0].clone()
        } else {
            x.clone()
        };
        let dimy: String = if y.as_str().unicode_len() == 0 {
            if count > 1 {
                self.colnames[1].clone()
            } else {
                dimx.clone()
            }
        } else {
            y.clone()
        };
        let dimz: String = if z.as_str().unicode_len() == 0 {
            if count > 2 {
                self.colnames[2].clone()
            } else {
                dimy.clone()
            }
        } else {
            z.clone()
        };
        (dimx, dimy, dimz)
    }

    /// The number of rows.
    pub fn len(&self) -> (n: usize)
        requires
            self.wf(),
        ensures
            n == self@.rows(),
    {
        self.columns[0].len()
    }

    /// The name of the table.
    pub fn name(&self) -> (name: &String)
        ensures
            name@ == self@.name,
    {
        &self.name
    }

    /// The names of the columns, in their order.
    pub fn columns(&self) -> (names: &Vec<String>)
        ensures
            names_of(names@) == self@.columns,
    {
        &self.colnames
    }
}

} // verus!
