//! Laws of the generator, proved once and for all entities: the shape of
//! the generated service surface, the exclusion of the identity field from
//! per-field operations, the harmlessness of unknown configuration keys,
//! and the rejection of a missing table name.

use vstd::prelude::*;
use crate::artifact::{
    spec_field_methods, spec_generate_from, spec_methods, ServiceMethodV,
};
use crate::config::{
    apply_entry, initial_config, is_recognized_key, parse_entries, spec_parse_config,
    AttrValueV, ConfigEntryV, ConfigError, ConfigSetV,
};
use crate::entity::{identity_consistent, is_identity_name, FieldDescriptorV, FieldInputV};
use crate::query::{
    ceil_div, comes_before, insert_sorted, lemma_sort_rows_len, page_slice, row_matches,
    row_with, sort_rows, spec_default_sort, spec_filtered, spec_find_rows, spec_get_by_id,
    spec_total_items, spec_total_pages, spec_update_rows, OptionModelV, RowV, SortOption, StoreV,
};

verus! {

/// Whether an operation is a per-field getter.
pub open spec fn is_get_by_field(m: ServiceMethodV) -> bool {
    match m {
        ServiceMethodV::GetByField { .. } => true,
        _ => false,
    }
}

/// Whether an operation is a per-field updater.
pub open spec fn is_update_field(m: ServiceMethodV) -> bool {
    match m {
        ServiceMethodV::UpdateField { .. } => true,
        _ => false,
    }
}

/// Whether an operation is the insert.
pub open spec fn is_insert_one(m: ServiceMethodV) -> bool {
    m is InsertOne
}

/// Whether an operation is the identity lookup.
pub open spec fn is_get_one_by_id(m: ServiceMethodV) -> bool {
    m is GetOneById
}

/// Whether an operation is the filtered search.
pub open spec fn is_find_by_option_model(m: ServiceMethodV) -> bool {
    m is FindByOptionModel
}

/// How many operations of a list are per-field getters.
pub open spec fn count_get_by(ms: Seq<ServiceMethodV>) -> nat
    decreases ms.len(),
{
    if ms.len() == 0 {
        0
    } else {
        (if is_get_by_field(ms[0]) {
            1nat
        } else {
            0nat
        }) + count_get_by(ms.skip(1))
    }
}

/// How many operations of a list are per-field updaters.
pub open spec fn count_update(ms: Seq<ServiceMethodV>) -> nat
    decreases ms.len(),
{
    if ms.len() == 0 {
        0
    } else {
        (if is_update_field(ms[0]) {
            1nat
        } else {
            0nat
        }) + count_update(ms.skip(1))
    }
}

/// How many operations of a list are the insert.
pub open spec fn count_insert_one(ms: Seq<ServiceMethodV>) -> nat
    decreases ms.len(),
{
    if ms.len() == 0 {
        0
    } else {
        (if is_insert_one(ms[0]) {
            1nat
        } else {
            0nat
        }) + count_insert_one(ms.skip(1))
    }
}

/// How many operations of a list are the identity lookup.
pub open spec fn count_get_one_by_id(ms: Seq<ServiceMethodV>) -> nat
    decreases ms.len(),
{
    if ms.len() == 0 {
        0
    } else {
        (if is_get_one_by_id(ms[0]) {
            1nat
        } else {
            0nat
        }) + count_get_one_by_id(ms.skip(1))
    }
}

/// How many operations of a list are the filtered search.
pub open spec fn count_find(ms: Seq<ServiceMethodV>) -> nat
    decreases ms.len(),
{
    if ms.len() == 0 {
        0
    } else {
        (if is_find_by_option_model(ms[0]) {
            1nat
        } else {
            0nat
        }) + count_find(ms.skip(1))
    }
}

/// How many fields of a list are not the identity field.
pub open spec fn count_non_identity(fs: Seq<FieldDescriptorV>) -> nat
    decreases fs.len(),
{
    if fs.len() == 0 {
        0
    } else {
        (if fs[0].is_identity {
            0nat
        } else {
            1nat
        }) + count_non_identity(fs.skip(1))
    }
}

proof fn lemma_counts_append(a: Seq<ServiceMethodV>, b: Seq<ServiceMethodV>)
    ensures
        count_get_by(a + b) == count_get_by(a) + count_get_by(b),
        count_update(a + b) == count_update(a) + count_update(b),
        count_insert_one(a + b) == count_insert_one(a) + count_insert_one(b),
        count_get_one_by_id(a + b) == count_get_one_by_id(a) + count_get_one_by_id(b),
        count_find(a + b) == count_find(a) + count_find(b),
    decreases a.len(),
{
    if a.len() == 0 {
        assert(a + b =~= b);
    } else {
        assert((a + b)[0] == a[0]);
        assert((a + b).skip(1) =~= a.skip(1) + b);
        lemma_counts_append(a.skip(1), b);
    }
}

proof fn lemma_field_methods_counts(fs: Seq<FieldDescriptorV>)
    ensures
        count_get_by(spec_field_methods(fs)) == count_non_identity(fs),
        count_update(spec_field_methods(fs)) == count_non_identity(fs),
        count_insert_one(spec_field_methods(fs)) == 0,
        count_get_one_by_id(spec_field_methods(fs)) == 0,
        count_find(spec_field_methods(fs)) == 0,
    decreases fs.len(),
{
    reveal_with_fuel(count_get_by, 3);
    reveal_with_fuel(count_update, 3);
    reveal_with_fuel(count_insert_one, 3);
    reveal_with_fuel(count_get_one_by_id, 3);
    reveal_with_fuel(count_find, 3);
    if fs.len() == 0 {
    } else {
        lemma_field_methods_counts(fs.skip(1));
        let tail = spec_field_methods(fs.skip(1));
        if fs[0].is_identity {
            lemma_counts_append(Seq::<ServiceMethodV>::empty(), tail);
        } else {
            let pair = seq![
                ServiceMethodV::GetByField { field: fs[0].name, ty: fs[0].ty },
                ServiceMethodV::UpdateField { field: fs[0].name, ty: fs[0].ty },
            ];
            assert(pair.skip(1) =~= seq![
                ServiceMethodV::UpdateField { field: fs[0].name, ty: fs[0].ty },
            ]);
            assert(seq![ServiceMethodV::UpdateField { field: fs[0].name, ty: fs[0].ty }].skip(1)
                =~= Seq::<ServiceMethodV>::empty());
            lemma_counts_append(pair, tail);
        }
    }
}

/// The service surface of an entity with N non-identity fields holds
/// exactly N per-field getters and N per-field updaters, and exactly one
/// insert, one identity lookup, and one filtered search.
pub proof fn lemma_service_surface(fs: Seq<FieldDescriptorV>)
    ensures
        count_get_by(spec_methods(fs)) == count_non_identity(fs),
        count_update(spec_methods(fs)) == count_non_identity(fs),
        count_insert_one(spec_methods(fs)) == 1,
        count_get_one_by_id(spec_methods(fs)) == 1,
        count_find(spec_methods(fs)) == 1,
{
    reveal_with_fuel(count_get_by, 4);
    reveal_with_fuel(count_update, 4);
    reveal_with_fuel(count_insert_one, 4);
    reveal_with_fuel(count_get_one_by_id, 4);
    reveal_with_fuel(count_find, 4);
    let fixed = seq![
        ServiceMethodV::InsertOne,
        ServiceMethodV::GetOneById,
        ServiceMethodV::FindByOptionModel,
    ];
    assert(fixed.skip(1) =~= seq![
        ServiceMethodV::GetOneById,
        ServiceMethodV::FindByOptionModel,
    ]);
    assert(seq![ServiceMethodV::GetOneById, ServiceMethodV::FindByOptionModel].skip(1) =~= seq![
        ServiceMethodV::FindByOptionModel,
    ]);
    assert(seq![ServiceMethodV::FindByOptionModel].skip(1) =~= Seq::<ServiceMethodV>::empty());
    lemma_field_methods_counts(fs);
    lemma_counts_append(fixed, spec_field_methods(fs));
}

/// The field a per-field operation targets, if it is one.
pub open spec fn per_field_target(m: ServiceMethodV) -> Option<Seq<char>> {
    match m {
        ServiceMethodV::GetByField { field, .. } => Option::Some(field),
        ServiceMethodV::UpdateField { field, .. } => Option::Some(field),
        _ => Option::None,
    }
}

proof fn lemma_field_methods_no_identity(fs: Seq<FieldDescriptorV>)
    requires
        identity_consistent(fs),
    ensures
        forall|i: int|
            0 <= i < spec_field_methods(fs).len() ==> match per_field_target(
                #[trigger] spec_field_methods(fs)[i],
            ) {
                Option::Some(f) => !is_identity_name(f),
                Option::None => true,
            },
    decreases fs.len(),
{
    if fs.len() > 0 {
        assert forall|j: int| 0 <= j < fs.skip(1).len() implies (#[trigger] fs.skip(
            1,
        )[j].is_identity) == is_identity_name(fs.skip(1)[j].name) by {
            assert(fs.skip(1)[j] == fs[j + 1]);
        }
        lemma_field_methods_no_identity(fs.skip(1));
        let head: Seq<ServiceMethodV> = if fs[0].is_identity {
            Seq::empty()
        } else {
            seq![
                ServiceMethodV::GetByField { field: fs[0].name, ty: fs[0].ty },
                ServiceMethodV::UpdateField { field: fs[0].name, ty: fs[0].ty },
            ]
        };
        let tail = spec_field_methods(fs.skip(1));
        assert(fs[0].is_identity == is_identity_name(fs[0].name));
        assert forall|i: int| 0 <= i < spec_field_methods(fs).len() implies match per_field_target(
            #[trigger] spec_field_methods(fs)[i],
        ) {
            Option::Some(f) => !is_identity_name(f),
            Option::None => true,
        } by {
            assert(spec_field_methods(fs) == head + tail);
            if i < head.len() {
                assert(spec_field_methods(fs)[i] == head[i]);
            } else {
                assert(spec_field_methods(fs)[i] == tail[i - head.len()]);
            }
        }
    }
}

/// A field named `id` never receives a per-field getter or updater: no
/// operation of the service surface targets the identity name.
pub proof fn lemma_identity_never_targeted(fs: Seq<FieldDescriptorV>)
    requires
        identity_consistent(fs),
    ensures
        forall|i: int|
            0 <= i < spec_methods(fs).len() ==> match per_field_target(
                #[trigger] spec_methods(fs)[i],
            ) {
                Option::Some(f) => !is_identity_name(f),
                Option::None => true,
            },
{
    lemma_field_methods_no_identity(fs);
    let fixed = seq![
        ServiceMethodV::InsertOne,
        ServiceMethodV::GetOneById,
        ServiceMethodV::FindByOptionModel,
    ];
    let tail = spec_field_methods(fs);
    assert forall|i: int| 0 <= i < spec_methods(fs).len() implies match per_field_target(
        #[trigger] spec_methods(fs)[i],
    ) {
        Option::Some(f) => !is_identity_name(f),
        Option::None => true,
    } by {
        if i < 3 {
            assert(spec_methods(fs)[i] == fixed[i]);
        } else {
            assert(spec_methods(fs)[i] == tail[i - 3]);
        }
    }
}

proof fn lemma_parse_entries_unknown_insert(
    c: ConfigSetV,
    es: Seq<ConfigEntryV>,
    i: int,
    e: ConfigEntryV,
)
    requires
        0 <= i <= es.len(),
        !is_recognized_key(e.key),
        !(e.value is Malformed),
    ensures
        parse_entries(c, es.insert(i, e)) == parse_entries(c, es),
    decreases i,
{
    let es2 = es.insert(i, e);
    if i == 0 {
        assert(es2[0] == e);
        assert(apply_entry(c, e) == Result::<ConfigSetV, ConfigError>::Ok(c));
        assert(es2.skip(1) =~= es);
    } else {
        assert(es2[0] == es[0]);
        match apply_entry(c, es[0]) {
            Result::Ok(c2) => {
                assert(es2.skip(1) =~= es.skip(1).insert(i - 1, e));
                lemma_parse_entries_unknown_insert(c2, es.skip(1), i - 1, e);
            },
            Result::Err(_) => {
                assert(es.len() > 0);
            },
        }
    }
}

/// An unrecognized configuration key whose value expression is not
/// malformed never changes what parsing yields: inserting such an entry
/// anywhere in the block leaves the parsed configuration — or the error —
/// exactly as it was.
pub proof fn lemma_unknown_key_ignored(es: Seq<ConfigEntryV>, i: int, e: ConfigEntryV)
    requires
        0 <= i <= es.len(),
        !is_recognized_key(e.key),
        !(e.value is Malformed),
    ensures
        spec_parse_config(es.insert(i, e)) == spec_parse_config(es),
{
    lemma_parse_entries_unknown_insert(initial_config(), es, i, e);
}

/// An unrecognized configuration key whose value expression is not
/// malformed never causes generation failure and never changes the
/// artifact: generation from the block with the extra entry is identical
/// to generation from the block without it.
pub proof fn lemma_unknown_key_artifact_unchanged(
    name: Seq<char>,
    fs: Seq<FieldInputV>,
    es: Seq<ConfigEntryV>,
    i: int,
    e: ConfigEntryV,
)
    requires
        0 <= i <= es.len(),
        !is_recognized_key(e.key),
        !(e.value is Malformed),
    ensures
        spec_generate_from(name, fs, es.insert(i, e)) == spec_generate_from(name, fs, es),
{
    lemma_unknown_key_ignored(es, i, e);
}

/// A row sequence is ordered under the sort control: no row must be
/// placed strictly before an earlier one — descending keys when `desc`,
/// ascending keys otherwise.
pub open spec fn sorted_by(s: Seq<RowV>, so: SortOption) -> bool {
    forall|i: int, j: int| 0 <= i < j < s.len() ==> !comes_before(#[trigger] s[j], #[trigger] s[i], so)
}

proof fn lemma_insert_sorted_props(s: Seq<RowV>, r: RowV, so: SortOption)
    requires
        sorted_by(s, so),
    ensures
        sorted_by(insert_sorted(s, r, so), so),
        insert_sorted(s, r, so).to_multiset() == s.to_multiset().insert(r),
        forall|x: RowV| insert_sorted(s, r, so).contains(x) ==> s.contains(x) || x == r,
    decreases s.len(),
{
    broadcast use vstd::seq_lib::group_to_multiset_ensures;

    let out = insert_sorted(s, r, so);
    if s.len() == 0 {
        assert(out =~= s.push(r));
    } else if !comes_before(r, s.last(), so) {
        assert(out == s.push(r));
        assert forall|i: int, j: int| 0 <= i < j < out.len() implies !comes_before(
            #[trigger] out[j],
            #[trigger] out[i],
            so,
        ) by {
            if j == out.len() - 1 {
                assert(!comes_before(s.last(), s[i], so));
            }
        }
    } else {
        let d = s.drop_last();
        assert forall|i: int, j: int| 0 <= i < j < d.len() implies !comes_before(
            #[trigger] d[j],
            #[trigger] d[i],
            so,
        ) by {
            assert(d[i] == s[i] && d[j] == s[j]);
        }
        lemma_insert_sorted_props(d, r, so);
        let ins = insert_sorted(d, r, so);
        assert(out == ins.push(s.last()));
        assert forall|i: int| 0 <= i < ins.len() implies !comes_before(
            s.last(),
            #[trigger] ins[i],
            so,
        ) by {
            assert(ins.contains(ins[i]));
            if ins[i] == r {
                assert(comes_before(r, s.last(), so));
            } else {
                assert(d.contains(ins[i]));
                let w = choose|w: int| 0 <= w < d.len() && d[w] == ins[i];
                assert(d[w] == s[w]);
                assert(!comes_before(s[s.len() - 1], s[w], so));
            }
        }
        assert forall|i: int, j: int| 0 <= i < j < out.len() implies !comes_before(
            #[trigger] out[j],
            #[trigger] out[i],
            so,
        ) by {
            if j < out.len() - 1 {
                assert(out[i] == ins[i] && out[j] == ins[j]);
            } else {
                assert(out[j] == s.last() && out[i] == ins[i]);
            }
        }
        assert(s =~= d.push(s.last()));
        assert(out.to_multiset() =~= s.to_multiset().insert(r));
        assert forall|x: RowV| out.contains(x) implies s.contains(x) || x == r by {
            let w = choose|w: int| 0 <= w < out.len() && out[w] == x;
            if w < ins.len() {
                assert(out[w] == ins[w]);
                assert(ins.contains(ins[w]));
                if ins[w] != r {
                    assert(d.contains(x));
                    let u = choose|u: int| 0 <= u < d.len() && d[u] == x;
                    assert(d[u] == s[u]);
                    assert(s[u] == x);
                }
            } else {
                assert(x == s.last());
            }
        }
    }
}

/// Sorting is a permutation that orders the rows: the sorted sequence
/// holds exactly the rows of the input, arranged so that no row must be
/// placed strictly before an earlier one.
pub proof fn lemma_sort_rows_sorted(s: Seq<RowV>, so: SortOption)
    ensures
        sorted_by(sort_rows(s, so), so),
        sort_rows(s, so).to_multiset() == s.to_multiset(),
    decreases s.len(),
{
    broadcast use vstd::seq_lib::group_to_multiset_ensures;

    if s.len() > 0 {
        let d = s.drop_last();
        lemma_sort_rows_sorted(d, so);
        lemma_insert_sorted_props(sort_rows(d, so), s.last(), so);
        assert(s =~= d.push(s.last()));
        assert(sort_rows(s, so).to_multiset() =~= s.to_multiset());
    }
}

/// An options aggregate with every control absent: no predicate, no sort
/// control, no page control.
pub open spec fn all_absent(o: OptionModelV) -> bool {
    &&& forall|j: int| 0 <= j < o.predicates.len() ==> (#[trigger] o.predicates[j]) is None
    &&& o.sort_option is None
    &&& o.page_option is None
}

proof fn lemma_filter_keeps_all(rows: Seq<RowV>, preds: Seq<Option<i64>>)
    requires
        forall|j: int| 0 <= j < preds.len() ==> (#[trigger] preds[j]) is None,
    ensures
        spec_filtered(rows, preds) == rows,
    decreases rows.len(),
{
    if rows.len() > 0 {
        lemma_filter_keeps_all(rows.drop_last(), preds);
        assert(row_matches(rows.last(), preds));
        assert(rows.drop_last().push(rows.last()) =~= rows);
    }
}

/// A search with an all-absent options aggregate matches every row — the
/// filtered set is the whole store, so the reported total is the row
/// count — and returns the first page of size 10 of the rows ordered by
/// the default created-at column, descending.
pub proof fn lemma_default_search(s: StoreV, o: OptionModelV)
    requires
        all_absent(o),
    ensures
        spec_filtered(s.rows, o.predicates) == s.rows,
        spec_total_items(s, o) == s.rows.len(),
        spec_total_pages(s, o) == ceil_div(s.rows.len() as int, 10),
        spec_find_rows(s, o) == page_slice(
            sort_rows(s.rows, spec_default_sort(s.created_at)),
            1,
            10,
        ),
        sorted_by(
            sort_rows(s.rows, spec_default_sort(s.created_at)),
            spec_default_sort(s.created_at),
        ),
        sort_rows(s.rows, spec_default_sort(s.created_at)).to_multiset() == s.rows.to_multiset(),
        s.rows.len() <= 10 ==> spec_find_rows(s, o) == sort_rows(
            s.rows,
            spec_default_sort(s.created_at),
        ),
{
    lemma_filter_keeps_all(s.rows, o.predicates);
    lemma_sort_rows_sorted(s.rows, spec_default_sort(s.created_at));
    lemma_sort_rows_len(s.rows, spec_default_sort(s.created_at));
    if s.rows.len() <= 10 {
        let sorted = sort_rows(s.rows, spec_default_sort(s.created_at));
        assert(spec_find_rows(s, o) =~= sorted);
    }
}

/// A partial update of field `k` to `v` on the row with the given
/// identity changes only that field of that row: a subsequent identity
/// lookup shows the same identity and every sibling field unchanged, and
/// every row with a different identity is untouched.
pub proof fn lemma_update_touches_only_target(rows: Seq<RowV>, id: i32, k: int, v: i64)
    requires
        spec_get_by_id(rows, id) is Some,
        0 <= k < spec_get_by_id(rows, id)->Some_0.values.len(),
    ensures
        spec_update_rows(rows, id, k, v).len() == rows.len(),
        spec_get_by_id(spec_update_rows(rows, id, k, v), id) is Some,
        spec_get_by_id(spec_update_rows(rows, id, k, v), id)->Some_0 == row_with(
            spec_get_by_id(rows, id)->Some_0,
            k,
            v,
        ),
        spec_get_by_id(spec_update_rows(rows, id, k, v), id)->Some_0.id == spec_get_by_id(
            rows,
            id,
        )->Some_0.id,
        forall|l: int|
            0 <= l < spec_get_by_id(rows, id)->Some_0.values.len() && l != k
                ==> spec_get_by_id(spec_update_rows(rows, id, k, v), id)->Some_0.values[l]
                == spec_get_by_id(rows, id)->Some_0.values[l],
        forall|i: int|
            0 <= i < rows.len() && (#[trigger] rows[i]).id != id ==> spec_update_rows(
                rows,
                id,
                k,
                v,
            )[i] == rows[i],
    decreases rows.len(),
{
    let after = spec_update_rows(rows, id, k, v);
    if rows[0].id == id {
        assert(after == seq![row_with(rows[0], k, v)] + rows.skip(1));
        assert(after[0] == row_with(rows[0], k, v));
        assert forall|i: int| 0 <= i < rows.len() && (#[trigger] rows[i]).id != id implies after[i]
            == rows[i] by {
            assert(after[i] == rows.skip(1)[i - 1]);
        }
    } else {
        lemma_update_touches_only_target(rows.skip(1), id, k, v);
        assert(after == seq![rows[0]] + spec_update_rows(rows.skip(1), id, k, v));
        assert(after.skip(1) =~= spec_update_rows(rows.skip(1), id, k, v));
        assert(after[0] == rows[0]);
        assert(spec_get_by_id(after, id) == spec_get_by_id(after.skip(1), id));
        assert forall|i: int| 0 <= i < rows.len() && (#[trigger] rows[i]).id != id implies after[i]
            == rows[i] by {
            if i > 0 {
                assert(rows.skip(1)[i - 1] == rows[i]);
                assert(after[i] == after.skip(1)[i - 1]);
            }
        }
    }
}

/// A configuration block that never sets a non-empty `table_name` is
/// rejected, deterministically, with the missing-required-configuration
/// error: generation never silently accepts an empty table identifier.
pub proof fn lemma_empty_table_name_rejected(
    name: Seq<char>,
    fs: Seq<FieldInputV>,
    es: Seq<ConfigEntryV>,
)
    ensures
        spec_parse_config(es) is Ok ==> spec_parse_config(es)->Ok_0.table_name.len() > 0,
        (parse_entries(initial_config(), es) is Ok && parse_entries(initial_config(), es)
            ->Ok_0.table_name.len() == 0) ==> spec_generate_from(name, fs, es) == Result::<
            crate::artifact::GeneratedArtifactV,
            ConfigError,
        >::Err(ConfigError::MissingTableName),
{
}

} // verus!
