//! An executable model of the query composition the generated service
//! performs against its persistence collaborator: AND-composed equality
//! filters, ordering by a named column, and 1-based pagination with a
//! total-item/total-page summary, together with insertion, identity
//! lookup, and per-field partial update over an in-memory row store.

use vstd::prelude::*;
use vstd::pervasive::VecAdditionalExecFns;

verus! {

/// A reference to a column of the entity: the identity column, or the
/// k-th non-identity field.
#[derive(Debug, Clone, Copy, PartialEq, Eq, Structural)]
pub enum ColumnRef {
    Id,
    Field(usize),
}

/// The sort control: which column to order by, and whether descending.
#[derive(Debug, Clone, Copy, PartialEq, Eq, Structural)]
pub struct SortOption {
    pub column: ColumnRef,
    pub desc: bool,
}

/// The page control: 1-based page number and page size.
#[derive(Debug, Clone, Copy, PartialEq, Eq, Structural)]
pub struct PageOption {
    pub page: u64,
    pub page_size: u64,
}

impl Default for PageOption {
    /// The default page control: page 1 of size 10.
    fn default() -> (r: Self)
        ensures
            r == spec_default_page(),
    {
        PageOption { page: 1, page_size: 10 }
    }
}

/// One stored row: its identity and the values of its non-identity
/// fields, in declaration order.
#[derive(Debug, PartialEq, Eq)]
pub struct Row {
    pub id: i32,
    pub values: Vec<i64>,
}

/// The filter/sort/page options aggregate mirroring the entity's fields:
/// one optional equality predicate per non-identity field, plus the sort
/// and page controls. All-absent means: match everything, default order,
/// first page of the default size.
#[derive(Debug)]
pub struct OptionModel {
    pub predicates: Vec<Option<i64>>,
    pub sort_option: Option<SortOption>,
    pub page_option: Option<PageOption>,
}

/// The summary accompanying a fetched page: total item count and total
/// page count of the filtered, pre-pagination result set.
#[derive(Debug, Clone, Copy, PartialEq, Eq, Structural)]
pub struct PaginationSummary {
    pub total_items: u64,
    pub total_pages: u64,
}

/// Why a service operation failed.
#[derive(Debug, Clone, Copy, PartialEq, Eq, Structural)]
pub enum ServiceError {
    /// No row with the given identity exists.
    NotFound,
    /// A row with the given identity already exists.
    DuplicateIdentity,
}

/// The in-memory row store standing for the persistence collaborator:
/// the rows, the number of non-identity fields, and the index of the
/// field the default sort orders by (the created-at timestamp).
#[derive(Debug)]
pub struct Store {
    pub rows: Vec<Row>,
    pub field_count: usize,
    pub created_at: usize,
}

/// Mathematical image of a `Row`.
pub struct RowV {
    pub id: i32,
    pub values: Seq<i64>,
}

/// Mathematical image of an `OptionModel`.
pub struct OptionModelV {
    pub predicates: Seq<Option<i64>>,
    pub sort_option: Option<SortOption>,
    pub page_option: Option<PageOption>,
}

/// Mathematical image of a `Store`.
pub struct StoreV {
    pub rows: Seq<RowV>,
    pub field_count: usize,
    pub created_at: usize,
}

impl View for Row {
    type V = RowV;

    open spec fn view(&self) -> RowV {
        RowV { id: self.id, values: self.values@ }
    }
}

impl View for OptionModel {
    type V = OptionModelV;

    open spec fn view(&self) -> OptionModelV {
        OptionModelV {
            predicates: self.predicates@,
            sort_option: self.sort_option,
            page_option: self.page_option,
        }
    }
}

impl View for Store {
    type V = StoreV;

    open spec fn view(&self) -> StoreV {
        StoreV {
            rows: self.rows@.map_values(|r: Row| r@),
            field_count: self.field_count,
            created_at: self.created_at,
        }
    }
}

impl OptionModel {
    /// The empty aggregate for an entity with `field_count` non-identity
    /// fields: every predicate absent, default order, default page — it
    /// matches everything.
    pub fn all_absent(field_count: usize) -> (r: OptionModel)
        ensures
            r@.predicates.len() == field_count,
            forall|j: int| 0 <= j < field_count ==> (#[trigger] r@.predicates[j]) is None,
            r@.sort_option is None,
            r@.page_option is None,
    {
        let mut predicates: Vec<Option<i64>> = Vec::new();
        let mut i: usize = 0;
        while i < field_count
            invariant
                0 <= i <= field_count,
                predicates@.len() == i,
                forall|j: int| 0 <= j < i ==> (#[trigger] predicates@[j]) is None,
            decreases field_count - i,
        {
            predicates.push(Option::None);
            i = i + 1;
        }
        OptionModel { predicates, sort_option: Option::None, page_option: Option::None }
    }
}

/// The view of a whole row list.
pub open spec fn rows_view(rs: Seq<Row>) -> Seq<RowV> {
    rs.map_values(|r: Row| r@)
}

/// The view of an optional row.
pub open spec fn row_opt_view(r: Option<Row>) -> Option<RowV> {
    match r {
        Option::Some(x) => Option::Some(x@),
        Option::None => Option::None,
    }
}

/// A row is well shaped for a store with `n` non-identity fields.
pub open spec fn row_wf(r: RowV, n: usize) -> bool {
    r.values.len() == n
}

impl Store {
    /// Well-formedness: the default sort column is one of the fields, and
    /// every row carries one value per non-identity field.
    pub open spec fn wf(&self) -> bool {
        &&& self.created_at < self.field_count
        &&& forall|i: int| 0 <= i < self@.rows.len() ==> row_wf(#[trigger] self@.rows[i], self.field_count)
    }
}

/// An empty store for an entity with `field_count` non-identity fields,
/// whose default sort orders by the field at `created_at`.
pub fn new_store(field_count: usize, created_at: usize) -> (r: Store)
    requires
        created_at < field_count,
    ensures
        r.wf(),
        r@.rows == Seq::<RowV>::empty(),
        r@.field_count == field_count,
        r@.created_at == created_at,
{
    let r = Store { rows: Vec::new(), field_count, created_at };
    proof {
        assert(r@.rows =~= Seq::<RowV>::empty());
    }
    r
}

/// Whether a row satisfies every present equality predicate: an absent
/// slot is no constraint, a present one demands equality on that field.
pub open spec fn row_matches(r: RowV, preds: Seq<Option<i64>>) -> bool {
    forall|k: int|
        0 <= k < preds.len() ==> match #[trigger] preds[k] {
            Option::Some(v) => k < r.values.len() && r.values[k] == v,
            Option::None => true,
        }
}

/// The filtered, pre-pagination result set: the rows that satisfy every
/// present predicate, in store order (the present predicates combine by
/// logical AND).
pub open spec fn spec_filtered(rows: Seq<RowV>, preds: Seq<Option<i64>>) -> Seq<RowV>
    decreases rows.len(),
{
    if rows.len() == 0 {
        Seq::empty()
    } else {
        let rest = spec_filtered(rows.drop_last(), preds);
        if row_matches(rows.last(), preds) {
            rest.push(rows.last())
        } else {
            rest
        }
    }
}

/// The value a sort column reads from a row; a column index outside the
/// row reads a fixed zero.
pub open spec fn sort_key(r: RowV, c: ColumnRef) -> i64 {
    match c {
        ColumnRef::Id => r.id as i64,
        ColumnRef::Field(k) => if k < r.values.len() {
            r.values[k as int]
        } else {
            0
        },
    }
}

/// Whether row `a` must be placed strictly before row `b` under the sort
/// control: a strictly greater key when descending, a strictly smaller
/// one when ascending.
pub open spec fn comes_before(a: RowV, b: RowV, so: SortOption) -> bool {
    if so.desc {
        sort_key(a, so.column) > sort_key(b, so.column)
    } else {
        sort_key(a, so.column) < sort_key(b, so.column)
    }
}

/// Inserts a row into an already sorted sequence, after every row it need
/// not precede — so rows with equal keys keep their relative order.
pub open spec fn insert_sorted(s: Seq<RowV>, r: RowV, so: SortOption) -> Seq<RowV>
    decreases s.len(),
{
    if s.len() == 0 {
        seq![r]
    } else if !comes_before(r, s.last(), so) {
        s.push(r)
    } else {
        insert_sorted(s.drop_last(), r, so).push(s.last())
    }
}

/// Stable insertion sort of a row sequence under the sort control.
pub open spec fn sort_rows(s: Seq<RowV>, so: SortOption) -> Seq<RowV>
    decreases s.len(),
{
    if s.len() == 0 {
        Seq::empty()
    } else {
        insert_sorted(sort_rows(s.drop_last(), so), s.last(), so)
    }
}

/// The ceiling of `items / size`: how many pages of `size` rows hold
/// `items` rows; zero items need zero pages.
pub open spec fn ceil_div(items: int, size: int) -> int {
    if items == 0 {
        0
    } else {
        (items - 1) / size + 1
    }
}

/// The 1-based page `page` of size `size` of a sequence: the rows from
/// 0-based offset `(page - 1) * size`, at most `size` of them; a page
/// beyond the end is empty.
pub open spec fn page_slice(s: Seq<RowV>, page: u64, size: u64) -> Seq<RowV> {
    let off = (page - 1) * size;
    if off >= s.len() {
        Seq::empty()
    } else if off + size <= s.len() {
        s.subrange(off as int, (off + size) as int)
    } else {
        s.subrange(off as int, s.len() as int)
    }
}

/// The sort control a search runs under: the caller's, or by default the
/// created-at column descending.
pub open spec fn spec_default_sort(created_at: usize) -> SortOption {
    SortOption { column: ColumnRef::Field(created_at), desc: true }
}

/// The page control a search runs under when the caller supplies none:
/// page 1 of size 10.
pub open spec fn spec_default_page() -> PageOption {
    PageOption { page: 1, page_size: 10 }
}

/// The sort control in effect for the given options.
pub open spec fn effective_sort(o: OptionModelV, created_at: usize) -> SortOption {
    match o.sort_option {
        Option::Some(s) => s,
        Option::None => spec_default_sort(created_at),
    }
}

/// The page control in effect for the given options.
pub open spec fn effective_page(o: OptionModelV) -> PageOption {
    match o.page_option {
        Option::Some(p) => p,
        Option::None => spec_default_page(),
    }
}

/// Options are valid for a store when they carry one predicate slot per
/// non-identity field and, if a page control is given, a 1-based page and
/// a positive page size.
pub open spec fn options_valid(o: OptionModelV, field_count: usize) -> bool {
    &&& o.predicates.len() == field_count
    &&& match o.page_option {
        Option::Some(p) => p.page >= 1 && p.page_size >= 1,
        Option::None => true,
    }
}

/// The page of rows a search returns: filter, then sort, then paginate.
pub open spec fn spec_find_rows(s: StoreV, o: OptionModelV) -> Seq<RowV> {
    let pg = effective_page(o);
    page_slice(
        sort_rows(spec_filtered(s.rows, o.predicates), effective_sort(o, s.created_at)),
        pg.page,
        pg.page_size,
    )
}

/// The total item count a search reports: the size of the filtered,
/// pre-pagination result set.
pub open spec fn spec_total_items(s: StoreV, o: OptionModelV) -> int {
    spec_filtered(s.rows, o.predicates).len() as int
}

/// The total page count a search reports.
pub open spec fn spec_total_pages(s: StoreV, o: OptionModelV) -> int {
    ceil_div(spec_total_items(s, o), effective_page(o).page_size as int)
}

/// The first row with the given identity, if any.
pub open spec fn spec_get_by_id(rows: Seq<RowV>, id: i32) -> Option<RowV>
    decreases rows.len(),
{
    if rows.len() == 0 {
        Option::None
    } else if rows[0].id == id {
        Option::Some(rows[0])
    } else {
        spec_get_by_id(rows.skip(1), id)
    }
}

/// A row with field `k` set to `v` and everything else as in `r`.
pub open spec fn row_with(r: RowV, k: int, v: i64) -> RowV {
    RowV { id: r.id, values: r.values.update(k, v) }
}

/// The rows after a partial update of field `k` to `v` on the first row
/// with the given identity; without such a row, the rows unchanged.
pub open spec fn spec_update_rows(rows: Seq<RowV>, id: i32, k: int, v: i64) -> Seq<RowV>
    decreases rows.len(),
{
    if rows.len() == 0 {
        rows
    } else if rows[0].id == id {
        seq![row_with(rows[0], k, v)] + rows.skip(1)
    } else {
        seq![rows[0]] + spec_update_rows(rows.skip(1), id, k, v)
    }
}

fn copy_values(v: &Vec<i64>) -> (r: Vec<i64>)
    ensures
        r@ == v@,
{
    let mut out: Vec<i64> = Vec::new();
    let mut i: usize = 0;
    while i < v.len()
        invariant
            0 <= i <= v.len(),
            out@ =~= v@.subrange(0, i as int),
        decreases v.len() - i,
    {
        out.push(v[i]);
        i = i + 1;
    }
    proof {
        assert(out@ =~= v@);
    }
    out
}

impl Row {
    /// An identical copy of the row.
    pub fn duplicate(&self) -> (r: Row)
        ensures
            r@ == self@,
    {
        Row { id: self.id, values: copy_values(&self.values) }
    }
}

/// Whether a row satisfies every present predicate.
pub fn matches_row(r: &Row, preds: &Vec<Option<i64>>) -> (b: bool)
    ensures
        b == row_matches(r@, preds@),
{
    let mut k: usize = 0;
    while k < preds.len()
        invariant
            0 <= k <= preds.len(),
            forall|j: int|
                0 <= j < k ==> match #[trigger] preds@[j] {
                    Option::Some(v) => j < r.values@.len() && r.values@[j] == v,
                    Option::None => true,
                },
        decreases preds.len() - k,
    {
        match preds[k] {
            Option::Some(v) => {
                if k >= r.values.len() {
                    return false;
                }
                if r.values[k] != v {
                    return false;
                }
            },
            Option::None => {},
        }
        k = k + 1;
    }
    true
}

proof fn lemma_insert_at(s: Seq<RowV>, r: RowV, so: SortOption, j: int)
    requires
        0 <= j <= s.len(),
        j > 0 ==> !comes_before(r, s[j - 1], so),
        forall|i: int| j <= i < s.len() ==> comes_before(r, #[trigger] s[i], so),
    ensures
        insert_sorted(s, r, so) == s.subrange(0, j) + seq![r] + s.skip(j),
    decreases s.len(),
{
    if s.len() == 0 {
        assert(s.subrange(0, 0) + seq![r] + s.skip(0) =~= seq![r]);
    } else if j == s.len() {
        assert(!comes_before(r, s.last(), so));
        assert(s.subrange(0, j) + seq![r] + s.skip(j) =~= s.push(r));
    } else {
        assert(comes_before(r, s[s.len() - 1], so));
        let d = s.drop_last();
        assert forall|i: int| j <= i < d.len() implies comes_before(r, #[trigger] d[i], so) by {
            assert(d[i] == s[i]);
        }
        if j > 0 {
            assert(d[j - 1] == s[j - 1]);
        }
        lemma_insert_at(d, r, so, j);
        assert((d.subrange(0, j) + seq![r] + d.skip(j)).push(s.last()) =~= s.subrange(0, j)
            + seq![r] + s.skip(j));
    }
}

fn comes_before_exec(a: &Row, b: &Row, so: SortOption) -> (r: bool)
    ensures
        r == comes_before(a@, b@, so),
{
    let ka = sort_key_exec(a, so.column);
    let kb = sort_key_exec(b, so.column);
    if so.desc {
        ka > kb
    } else {
        ka < kb
    }
}

fn sort_key_exec(r: &Row, c: ColumnRef) -> (k: i64)
    ensures
        k == sort_key(r@, c),
{
    match c {
        ColumnRef::Id => r.id as i64,
        ColumnRef::Field(k) => if k < r.values.len() {
            r.values[k]
        } else {
            0
        },
    }
}

fn insert_sorted_exec(v: &mut Vec<Row>, r: Row, so: SortOption)
    ensures
        rows_view(final(v)@) == insert_sorted(rows_view(old(v)@), r@, so),
{
    let ghost s = rows_view(v@);
    let mut j: usize = v.len();
    while j > 0 && comes_before_exec(&r, &v[j - 1], so)
        invariant
            0 <= j <= v.len(),
            s == rows_view(v@),
            s.len() == v.len(),
            forall|i: int| j <= i < s.len() ==> comes_before(r@, #[trigger] s[i], so),
        decreases j,
    {
        j = j - 1;
    }
    proof {
        lemma_insert_at(s, r@, so, j as int);
    }
    v.insert(j, r);
    proof {
        assert(rows_view(v@) =~= s.subrange(0, j as int) + seq![r@] + s.skip(j as int));
    }
}

fn sort_rows_exec(rows: Vec<Row>, so: SortOption) -> (r: Vec<Row>)
    ensures
        rows_view(r@) == sort_rows(rows_view(rows@), so),
{
    let ghost all = rows_view(rows@);
    let mut out: Vec<Row> = Vec::new();
    let mut i: usize = 0;
    let n = rows.len();
    let mut rest = rows;
    proof {
        assert(rows_view(rest@.subrange(0, 0)) =~= Seq::<RowV>::empty());
        assert(rows_view(out@) =~= Seq::<RowV>::empty());
    }
    while i < n
        invariant
            0 <= i <= n,
            n == rest@.len(),
            all == rows_view(rest@),
            rows_view(out@) == sort_rows(rows_view(rest@.subrange(0, i as int)), so),
        decreases n - i,
    {
        let row = rest[i].duplicate();
        proof {
            let pre = rest@.subrange(0, i as int);
            let pre2 = rest@.subrange(0, i + 1);
            assert(pre2.drop_last() =~= pre);
            assert(rows_view(pre2).drop_last() =~= rows_view(pre));
            assert(rows_view(pre2).last() == row@);
            assert(rows_view(pre2).len() > 0);
        }
        insert_sorted_exec(&mut out, row, so);
        i = i + 1;
    }
    proof {
        assert(rest@.subrange(0, n as int) =~= rest@);
    }
    out
}

proof fn lemma_get_by_id_at(rows: Seq<RowV>, id: i32, j: int)
    requires
        0 <= j < rows.len(),
        rows[j].id == id,
        forall|i: int| 0 <= i < j ==> (#[trigger] rows[i]).id != id,
    ensures
        spec_get_by_id(rows, id) == Option::Some(rows[j]),
    decreases j,
{
    if j > 0 {
        assert(rows.skip(1)[j - 1] == rows[j]);
        assert forall|i: int| 0 <= i < j - 1 implies (#[trigger] rows.skip(1)[i]).id != id by {
            assert(rows.skip(1)[i] == rows[i + 1]);
        }
        lemma_get_by_id_at(rows.skip(1), id, j - 1);
    }
}

proof fn lemma_get_by_id_none(rows: Seq<RowV>, id: i32)
    requires
        forall|i: int| 0 <= i < rows.len() ==> (#[trigger] rows[i]).id != id,
    ensures
        spec_get_by_id(rows, id) == Option::<RowV>::None,
    decreases rows.len(),
{
    if rows.len() > 0 {
        assert forall|i: int| 0 <= i < rows.skip(1).len() implies (#[trigger] rows.skip(
            1,
        )[i]).id != id by {
            assert(rows.skip(1)[i] == rows[i + 1]);
        }
        lemma_get_by_id_none(rows.skip(1), id);
    }
}

proof fn lemma_update_rows_at(rows: Seq<RowV>, id: i32, k: int, v: i64, j: int)
    requires
        0 <= j < rows.len(),
        rows[j].id == id,
        forall|i: int| 0 <= i < j ==> (#[trigger] rows[i]).id != id,
    ensures
        spec_update_rows(rows, id, k, v) == rows.update(j, row_with(rows[j], k, v)),
    decreases j,
{
    if j == 0 {
        assert(seq![row_with(rows[0], k, v)] + rows.skip(1) =~= rows.update(
            0,
            row_with(rows[0], k, v),
        ));
    } else {
        assert(rows.skip(1)[j - 1] == rows[j]);
        assert forall|i: int| 0 <= i < j - 1 implies (#[trigger] rows.skip(1)[i]).id != id by {
            assert(rows.skip(1)[i] == rows[i + 1]);
        }
        lemma_update_rows_at(rows.skip(1), id, k, v, j - 1);
        assert(seq![rows[0]] + rows.skip(1).update(j - 1, row_with(rows[j], k, v)) =~= rows.update(
            j,
            row_with(rows[j], k, v),
        ));
    }
}

proof fn lemma_update_rows_none(rows: Seq<RowV>, id: i32, k: int, v: i64)
    requires
        forall|i: int| 0 <= i < rows.len() ==> (#[trigger] rows[i]).id != id,
    ensures
        spec_update_rows(rows, id, k, v) == rows,
    decreases rows.len(),
{
    if rows.len() > 0 {
        assert forall|i: int| 0 <= i < rows.skip(1).len() implies (#[trigger] rows.skip(
            1,
        )[i]).id != id by {
            assert(rows.skip(1)[i] == rows[i + 1]);
        }
        lemma_update_rows_none(rows.skip(1), id, k, v);
        assert(seq![rows[0]] + rows.skip(1) =~= rows);
    }
}

impl Store {
    /// Direct identity lookup: the first stored row whose identity equals
    /// `id`, or nothing.
    pub fn get_one_by_id(&self, id: i32) -> (r: Option<Row>)
        ensures
            row_opt_view(r) == spec_get_by_id(self@.rows, id),
    {
        let ghost all = self@.rows;
        let n = self.rows.len();
        let mut i: usize = 0;
        while i < n
            invariant
                0 <= i <= n,
                all == self@.rows,
                n == all.len(),
                forall|j: int| 0 <= j < i ==> (#[trigger] all[j]).id != id,
            decreases n - i,
        {
            if self.rows[i].id == id {
                proof {
                    lemma_get_by_id_at(all, id, i as int);
                }
                return Option::Some(self.rows[i].duplicate());
            }
            i = i + 1;
        }
        proof {
            lemma_get_by_id_none(all, id);
        }
        Option::None
    }

    /// Inserts a record and returns the created row; a row whose identity
    /// is already present is refused, and the store is left unchanged.
    pub fn insert_one(&mut self, row: Row) -> (r: Result<Row, ServiceError>)
        requires
            old(self).wf(),
            row_wf(row@, old(self).field_count),
        ensures
            final(self).wf(),
            final(self).field_count == old(self).field_count,
            final(self).created_at == old(self).created_at,
            match r {
                Result::Ok(created) => {
                    &&& spec_get_by_id(old(self)@.rows, row@.id) is None
                    &&& final(self)@.rows == old(self)@.rows.push(row@)
                    &&& created@ == row@
                },
                Result::Err(e) => {
                    &&& e == ServiceError::DuplicateIdentity
                    &&& spec_get_by_id(old(self)@.rows, row@.id) is Some
                    &&& final(self)@.rows == old(self)@.rows
                },
            },
    {
        match self.get_one_by_id(row.id) {
            Option::Some(_) => Result::Err(ServiceError::DuplicateIdentity),
            Option::None => {
                let created = row.duplicate();
                let ghost prev = self@.rows;
                self.rows.push(row);
                proof {
                    assert(self@.rows =~= prev.push(created@));
                }
                Result::Ok(created)
            },
        }
    }

    /// Partial update: sets field `k` of the row whose identity equals
    /// `id` to `value`, leaving every other field and every other row
    /// untouched, and returns the updated row; without such a row the
    /// store is unchanged and the lookup failure is reported.
    pub fn update_field(&mut self, id: i32, k: usize, value: i64) -> (r: Result<Row, ServiceError>)
        requires
            old(self).wf(),
            k < old(self).field_count,
        ensures
            final(self).wf(),
            final(self).field_count == old(self).field_count,
            final(self).created_at == old(self).created_at,
            final(self)@.rows == spec_update_rows(old(self)@.rows, id, k as int, value),
            match r {
                Result::Ok(updated) => {
                    &&& spec_get_by_id(old(self)@.rows, id) is Some
                    &&& updated@ == row_with(spec_get_by_id(old(self)@.rows, id)->Some_0, k as int, value)
                },
                Result::Err(e) => {
                    &&& e == ServiceError::NotFound
                    &&& spec_get_by_id(old(self)@.rows, id) is None
                },
            },
    {
        let ghost all = self@.rows;
        let n = self.rows.len();
        let mut i: usize = 0;
        while i < n
            invariant
                0 <= i <= n,
                self.rows@ == old(self).rows@,
                self.field_count == old(self).field_count,
                self.created_at == old(self).created_at,
                old(self).wf(),
                k < self.field_count,
                all == self@.rows,
                n == all.len(),
                forall|j: int| 0 <= j < i ==> (#[trigger] all[j]).id != id,
            decreases n - i,
        {
            if self.rows[i].id == id {
                proof {
                    lemma_get_by_id_at(all, id, i as int);
                    lemma_update_rows_at(all, id, k as int, value, i as int);
                }
                let mut vals = copy_values(&self.rows[i].values);
                proof {
                    assert(row_wf(all[i as int], self.field_count));
                }
                vals.set(k, value);
                let updated = Row { id: self.rows[i].id, values: vals };
                let result = updated.duplicate();
                self.rows.set(i, updated);
                proof {
                    assert(self@.rows =~= all.update(i as int, row_with(all[i as int], k as int, value)));
                }
                return Result::Ok(result);
            }
            i = i + 1;
        }
        proof {
            lemma_get_by_id_none(all, id);
            lemma_update_rows_none(all, id, k as int, value);
        }
        Result::Err(ServiceError::NotFound)
    }

    /// Filtered, sorted, paginated search: keeps the rows that satisfy
    /// every present equality predicate (AND-composed), orders them by
    /// the effective sort control (by default: created-at descending),
    /// and returns the requested 1-based page together with the total
    /// item and page counts of the filtered result set.
    pub fn find_by_option_model(&self, options: &OptionModel) -> (r: (Vec<Row>, PaginationSummary))
        requires
            self.wf(),
            options_valid(options@, self.field_count),
        ensures
            rows_view(r.0@) == spec_find_rows(self@, options@),
            r.1.total_items == spec_total_items(self@, options@),
            r.1.total_pages == spec_total_pages(self@, options@),
    {
        let ghost all = self@.rows;
        let n = self.rows.len();
        let mut filtered: Vec<Row> = Vec::new();
        let mut i: usize = 0;
        proof {
            assert(rows_view(filtered@) =~= Seq::<RowV>::empty());
            assert(all.subrange(0, 0) =~= Seq::<RowV>::empty());
        }
        while i < n
            invariant
                0 <= i <= n,
                all == self@.rows,
                n == all.len(),
                options_valid(options@, self.field_count),
                rows_view(filtered@) == spec_filtered(all.subrange(0, i as int), options@.predicates),
            decreases n - i,
        {
            let ghost prevf = rows_view(filtered@);
            proof {
                let pre = all.subrange(0, i as int);
                let pre2 = all.subrange(0, i + 1);
                assert(pre2.drop_last() =~= pre);
                assert(pre2.last() == all[i as int]);
            }
            if matches_row(&self.rows[i], &options.predicates) {
                filtered.push(self.rows[i].duplicate());
                proof {
                    assert(rows_view(filtered@) =~= prevf.push(all[i as int]));
                }
            }
            i = i + 1;
        }
        proof {
            assert(all.subrange(0, n as int) =~= all);
        }
        let total: usize = filtered.len();

        let so: SortOption = match options.sort_option {
            Option::Some(s) => s,
            Option::None => SortOption { column: ColumnRef::Field(self.created_at), desc: true },
        };
        let sorted = sort_rows_exec(filtered, so);
        proof {
            lemma_sort_rows_len(spec_filtered(all, options@.predicates), so);
        }

        let pg: PageOption = match options.page_option {
            Option::Some(p) => p,
            Option::None => PageOption { page: 1, page_size: 10 },
        };
        let pidx: u64 = pg.page - 1;
        proof {
            assert((pidx as u128) * (pg.page_size as u128) <= 0xffffffffffffffffu128
                * 0xffffffffffffffffu128) by (nonlinear_arith)
                requires
                    pidx as u128 <= 0xffffffffffffffffu128,
                    pg.page_size as u128 <= 0xffffffffffffffffu128,
            ;
        }
        let off128: u128 = (pidx as u128) * (pg.page_size as u128);
        let mut data: Vec<Row> = Vec::new();
        let ghost sortedv = rows_view(sorted@);
        if off128 < sorted.len() as u128 {
            let off: usize = off128 as usize;
            let remaining: usize = sorted.len() - off;
            let end: usize = if (pg.page_size as u128) < (remaining as u128) {
                off + (pg.page_size as usize)
            } else {
                sorted.len()
            };
            let mut j: usize = off;
            proof {
                assert(rows_view(data@) =~= sortedv.subrange(off as int, off as int));
            }
            while j < end
                invariant
                    off <= j <= end <= sorted@.len(),
                    sortedv == rows_view(sorted@),
                    rows_view(data@) == sortedv.subrange(off as int, j as int),
                decreases end - j,
            {
                let ghost prevd = data@;
                data.push(sorted[j].duplicate());
                proof {
                    assert(rows_view(data@) =~= rows_view(prevd).push(sortedv[j as int]));
                    assert(rows_view(prevd).push(sortedv[j as int]) =~= sortedv.subrange(
                        off as int,
                        j + 1,
                    ));
                }
                j = j + 1;
            }
            proof {
                let offi = off128 as int;
                let size = pg.page_size as int;
                assert(offi == (pg.page - 1) * pg.page_size);
                if offi + size <= sortedv.len() {
                    assert(end == offi + size);
                } else {
                    assert(end == sortedv.len());
                }
                assert(rows_view(data@) == page_slice(sortedv, pg.page, pg.page_size));
            }
        } else {
            proof {
                assert(rows_view(data@) =~= Seq::<RowV>::empty());
                assert((pg.page - 1) * pg.page_size == off128 as int);
                assert(rows_view(data@) == page_slice(sortedv, pg.page, pg.page_size));
            }
        }

        let total_items: u64 = total as u64;
        let total_pages: u64 = if total_items == 0 {
            0
        } else {
            proof {
                assert((total_items - 1) as int / (pg.page_size as int) <= total_items - 1)
                    by (nonlinear_arith)
                    requires
                        pg.page_size >= 1,
                        total_items >= 1,
                ;
            }
            (total_items - 1) / pg.page_size + 1
        };
        (data, PaginationSummary { total_items, total_pages })
    }

    /// The per-field getter: the shared search with only field `k`'s
    /// predicate set to `value`, under the given sort and page controls.
    pub fn get_by_field(
        &self,
        k: usize,
        value: i64,
        sort_option: Option<SortOption>,
        page_option: Option<PageOption>,
    ) -> (r: (Vec<Row>, PaginationSummary))
        requires
            self.wf(),
            k < self.field_count,
            match page_option {
                Option::Some(p) => p.page >= 1 && p.page_size >= 1,
                Option::None => true,
            },
        ensures
            rows_view(r.0@) == spec_find_rows(
                self@,
                single_predicate_options(self.field_count, k, value, sort_option, page_option),
            ),
            r.1.total_items == spec_total_items(
                self@,
                single_predicate_options(self.field_count, k, value, sort_option, page_option),
            ),
            r.1.total_pages == spec_total_pages(
                self@,
                single_predicate_options(self.field_count, k, value, sort_option, page_option),
            ),
    {
        let mut predicates: Vec<Option<i64>> = Vec::new();
        let mut i: usize = 0;
        while i < self.field_count
            invariant
                0 <= i <= self.field_count,
                predicates@.len() == i,
                forall|j: int|
                    0 <= j < i ==> #[trigger] predicates@[j] == if j == k {
                        Option::Some(value)
                    } else {
                        Option::<i64>::None
                    },
            decreases self.field_count - i,
        {
            if i == k {
                predicates.push(Option::Some(value));
            } else {
                predicates.push(Option::None);
            }
            i = i + 1;
        }
        let options = OptionModel { predicates, sort_option, page_option };
        proof {
            assert(options@.predicates =~= single_predicate_options(
                self.field_count,
                k,
                value,
                sort_option,
                page_option,
            ).predicates);
        }
        self.find_by_option_model(&options)
    }
}

/// The options aggregate with only field `k`'s predicate present, set to
/// `value`: what the per-field getter searches with.
pub open spec fn single_predicate_options(
    field_count: usize,
    k: usize,
    value: i64,
    sort_option: Option<SortOption>,
    page_option: Option<PageOption>,
) -> OptionModelV {
    OptionModelV {
        predicates: Seq::new(
            field_count as nat,
            |j: int|
                if j == k {
                    Option::Some(value)
                } else {
                    Option::<i64>::None
                },
        ),
        sort_option,
        page_option,
    }
}

proof fn lemma_insert_sorted_len(s: Seq<RowV>, r: RowV, so: SortOption)
    ensures
        insert_sorted(s, r, so).len() == s.len() + 1,
    decreases s.len(),
{
    if s.len() > 0 && comes_before(r, s.last(), so) {
        lemma_insert_sorted_len(s.drop_last(), r, so);
    }
}

/// Sorting keeps the number of rows.
pub proof fn lemma_sort_rows_len(s: Seq<RowV>, so: SortOption)
    ensures
        sort_rows(s, so).len() == s.len(),
    decreases s.len(),
{
    if s.len() > 0 {
        lemma_sort_rows_len(s.drop_last(), so);
        lemma_insert_sorted_len(sort_rows(s.drop_last(), so), s.last(), so);
    }
}

} // verus!
