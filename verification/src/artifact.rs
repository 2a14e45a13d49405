//! Synthesis of the generated artifact: the option-model fields, the
//! filter chain, the per-field getter/updater operations, and the fixed
//! service surface. Generation is a single-pass, deterministic, pure
//! transform from the entity descriptor to the artifact.

use vstd::prelude::*;
use vstd::string::StringExecFns;
use crate::config::{
    entries_view, parse_config, spec_parse_config, ConfigEntry, ConfigEntryV, ConfigError,
};
use crate::entity::{
    describe_entity, fields_view, identity_consistent, inputs_view, is_identity_name,
    spec_describe, spec_mark_fields, EntityDescriptor, EntityDescriptorV, FieldDescriptor,
    FieldDescriptorV, FieldInput, FieldInputV,
};
use crate::naming::{pascal_of, to_pascal_case};

verus! {

/// One optional equality-predicate slot of the option model: absent means
/// no constraint, present means the field must equal the given value.
#[derive(Debug, PartialEq, Eq)]
pub struct OptionFieldDef {
    pub name: String,
    pub ty: String,
}

/// The synthesized sort control: which column the search orders by when
/// the caller supplies none, and in which direction.
#[derive(Debug, PartialEq, Eq)]
pub struct SortOptionDef {
    pub default_column: String,
    pub default_desc: bool,
}

/// The synthesized page control: which page and page size the search uses
/// when the caller supplies none.
#[derive(Debug, PartialEq, Eq)]
pub struct PageOptionDef {
    pub default_page: u64,
    pub default_page_size: u64,
}

/// One step of the filter chain: if the named field's predicate slot is
/// present, constrain the result set to rows where the column equals the
/// supplied value.
#[derive(Debug, PartialEq, Eq)]
pub struct FilterStep {
    pub field_name: String,
    pub column_name: String,
}

/// One operation of the generated service.
#[derive(Debug, PartialEq, Eq)]
pub enum ServiceMethod {
    /// Inserts a record and returns the created row.
    InsertOne,
    /// Direct identity lookup.
    GetOneById,
    /// Filtered, sorted, paginated search.
    FindByOptionModel,
    /// Search with only this field's predicate set.
    GetByField { field: String, ty: String },
    /// Partial update of this field on the row with the given identity.
    UpdateField { field: String, ty: String },
}

/// The whole synthesized output: the option-model type, the page and sort
/// option types, the filter chain, and the service's operation list.
#[derive(Debug, PartialEq, Eq)]
pub struct GeneratedArtifact {
    pub entity_name: String,
    pub table_name: String,
    pub schema_name: Option<String>,
    pub comment: Option<String>,
    pub option_model: Vec<OptionFieldDef>,
    pub sort_option: SortOptionDef,
    pub page_option: PageOptionDef,
    pub filter_chain: Vec<FilterStep>,
    pub methods: Vec<ServiceMethod>,
}

/// Mathematical image of an `OptionFieldDef`.
pub struct OptionFieldDefV {
    pub name: Seq<char>,
    pub ty: Seq<char>,
}

/// Mathematical image of a `SortOptionDef`.
pub struct SortOptionDefV {
    pub default_column: Seq<char>,
    pub default_desc: bool,
}

/// Mathematical image of a `PageOptionDef`.
pub struct PageOptionDefV {
    pub default_page: u64,
    pub default_page_size: u64,
}

/// Mathematical image of a `FilterStep`.
pub struct FilterStepV {
    pub field_name: Seq<char>,
    pub column_name: Seq<char>,
}

/// Mathematical image of a `ServiceMethod`.
pub enum ServiceMethodV {
    InsertOne,
    GetOneById,
    FindByOptionModel,
    GetByField { field: Seq<char>, ty: Seq<char> },
    UpdateField { field: Seq<char>, ty: Seq<char> },
}

/// Mathematical image of a `GeneratedArtifact`.
pub struct GeneratedArtifactV {
    pub entity_name: Seq<char>,
    pub table_name: Seq<char>,
    pub schema_name: Option<Seq<char>>,
    pub comment: Option<Seq<char>>,
    pub option_model: Seq<OptionFieldDefV>,
    pub sort_option: SortOptionDefV,
    pub page_option: PageOptionDefV,
    pub filter_chain: Seq<FilterStepV>,
    pub methods: Seq<ServiceMethodV>,
}

impl View for OptionFieldDef {
    type V = OptionFieldDefV;

    open spec fn view(&self) -> OptionFieldDefV {
        OptionFieldDefV { name: self.name@, ty: self.ty@ }
    }
}

impl View for SortOptionDef {
    type V = SortOptionDefV;

    open spec fn view(&self) -> SortOptionDefV {
        SortOptionDefV { default_column: self.default_column@, default_desc: self.default_desc }
    }
}

impl View for PageOptionDef {
    type V = PageOptionDefV;

    open spec fn view(&self) -> PageOptionDefV {
        PageOptionDefV {
            default_page: self.default_page,
            default_page_size: self.default_page_size,
        }
    }
}

impl View for FilterStep {
    type V = FilterStepV;

    open spec fn view(&self) -> FilterStepV {
        FilterStepV { field_name: self.field_name@, column_name: self.column_name@ }
    }
}

impl View for ServiceMethod {
    type V = ServiceMethodV;

    open spec fn view(&self) -> ServiceMethodV {
        match self {
            ServiceMethod::InsertOne => ServiceMethodV::InsertOne,
            ServiceMethod::GetOneById => ServiceMethodV::GetOneById,
            ServiceMethod::FindByOptionModel => ServiceMethodV::FindByOptionModel,
            ServiceMethod::GetByField { field, ty } => ServiceMethodV::GetByField {
                field: field@,
                ty: ty@,
            },
            ServiceMethod::UpdateField { field, ty } => ServiceMethodV::UpdateField {
                field: field@,
                ty: ty@,
            },
        }
    }
}

impl View for GeneratedArtifact {
    type V = GeneratedArtifactV;

    open spec fn view(&self) -> GeneratedArtifactV {
        GeneratedArtifactV {
            entity_name: self.entity_name@,
            table_name: self.table_name@,
            schema_name: match self.schema_name {
                Option::Some(ref s) => Option::Some(s@),
                Option::None => Option::None,
            },
            comment: match self.comment {
                Option::Some(ref s) => Option::Some(s@),
                Option::None => Option::None,
            },
            option_model: self.option_model@.map_values(|f: OptionFieldDef| f@),
            sort_option: self.sort_option@,
            page_option: self.page_option@,
            filter_chain: self.filter_chain@.map_values(|f: FilterStep| f@),
            methods: self.methods@.map_values(|m: ServiceMethod| m@),
        }
    }
}

/// The view of a whole option-field list.
pub open spec fn option_model_view(fs: Seq<OptionFieldDef>) -> Seq<OptionFieldDefV> {
    fs.map_values(|f: OptionFieldDef| f@)
}

/// The view of a whole filter chain.
pub open spec fn filter_chain_view(fs: Seq<FilterStep>) -> Seq<FilterStepV> {
    fs.map_values(|f: FilterStep| f@)
}

/// The view of a whole method list.
pub open spec fn methods_view(ms: Seq<ServiceMethod>) -> Seq<ServiceMethodV> {
    ms.map_values(|m: ServiceMethod| m@)
}

/// One predicate slot per non-identity field, in declaration order.
pub open spec fn spec_option_model(fs: Seq<FieldDescriptorV>) -> Seq<OptionFieldDefV>
    decreases fs.len(),
{
    if fs.len() == 0 {
        Seq::empty()
    } else {
        (if fs[0].is_identity {
            Seq::<OptionFieldDefV>::empty()
        } else {
            seq![OptionFieldDefV { name: fs[0].name, ty: fs[0].ty }]
        }) + spec_option_model(fs.skip(1))
    }
}

/// One equality-filter step per non-identity field, in declaration order,
/// with the column identifier in PascalCase.
pub open spec fn spec_filter_chain(fs: Seq<FieldDescriptorV>) -> Seq<FilterStepV>
    decreases fs.len(),
{
    if fs.len() == 0 {
        Seq::empty()
    } else {
        (if fs[0].is_identity {
            Seq::<FilterStepV>::empty()
        } else {
            seq![FilterStepV { field_name: fs[0].name, column_name: pascal_of(fs[0].name) }]
        }) + spec_filter_chain(fs.skip(1))
    }
}

/// For every non-identity field, a getter-by-value and an updater, in
/// declaration order; the identity field receives neither.
pub open spec fn spec_field_methods(fs: Seq<FieldDescriptorV>) -> Seq<ServiceMethodV>
    decreases fs.len(),
{
    if fs.len() == 0 {
        Seq::empty()
    } else {
        (if fs[0].is_identity {
            Seq::<ServiceMethodV>::empty()
        } else {
            seq![
                ServiceMethodV::GetByField { field: fs[0].name, ty: fs[0].ty },
                ServiceMethodV::UpdateField { field: fs[0].name, ty: fs[0].ty },
            ]
        }) + spec_field_methods(fs.skip(1))
    }
}

/// The fixed service surface — insert, identity lookup, filtered search —
/// followed by every per-field operation.
pub open spec fn spec_methods(fs: Seq<FieldDescriptorV>) -> Seq<ServiceMethodV> {
    seq![
        ServiceMethodV::InsertOne,
        ServiceMethodV::GetOneById,
        ServiceMethodV::FindByOptionModel,
    ] + spec_field_methods(fs)
}

/// The synthesized sort default: the `created_at` column, descending.
pub open spec fn spec_sort_option() -> SortOptionDefV {
    SortOptionDefV { default_column: pascal_of("created_at"@), default_desc: true }
}

/// The synthesized page default: page 1, size 10.
pub open spec fn spec_page_option() -> PageOptionDefV {
    PageOptionDefV { default_page: 1, default_page_size: 10 }
}

/// What generation yields for a described entity.
pub open spec fn spec_generate(e: EntityDescriptorV) -> GeneratedArtifactV {
    GeneratedArtifactV {
        entity_name: e.name,
        table_name: e.table_name,
        schema_name: e.schema_name,
        comment: e.comment,
        option_model: spec_option_model(e.fields),
        sort_option: spec_sort_option(),
        page_option: spec_page_option(),
        filter_chain: spec_filter_chain(e.fields),
        methods: spec_methods(e.fields),
    }
}

/// The whole pass from raw input — entity name, declared fields, raw
/// configuration entries — to the artifact or the configuration error.
pub open spec fn spec_generate_from(
    name: Seq<char>,
    fs: Seq<FieldInputV>,
    es: Seq<ConfigEntryV>,
) -> Result<GeneratedArtifactV, ConfigError> {
    match spec_parse_config(es) {
        Result::Ok(c) => Result::Ok(spec_generate(spec_describe(name, fs, c))),
        Result::Err(e) => Result::Err(e),
    }
}

/// The view of an exec generation result.
pub open spec fn generate_result_view(r: Result<GeneratedArtifact, ConfigError>) -> Result<
    GeneratedArtifactV,
    ConfigError,
> {
    match r {
        Result::Ok(a) => Result::Ok(a@),
        Result::Err(e) => Result::Err(e),
    }
}

/// Builds the option model: one optional predicate slot per non-identity
/// field, in declaration order.
pub fn synthesize_option_model(fields: &Vec<FieldDescriptor>) -> (r: Vec<OptionFieldDef>)
    ensures
        option_model_view(r@) == spec_option_model(fields_view(fields@)),
{
    let ghost all = fields_view(fields@);
    let mut out: Vec<OptionFieldDef> = Vec::new();
    let mut i: usize = 0;
    proof {
        assert(all.skip(0) =~= all);
        assert(option_model_view(out@) + spec_option_model(all) =~= spec_option_model(all));
    }
    while i < fields.len()
        invariant
            0 <= i <= fields.len(),
            all == fields_view(fields@),
            all.len() == fields.len(),
            spec_option_model(all) == option_model_view(out@) + spec_option_model(
                all.skip(i as int),
            ),
        decreases fields.len() - i,
    {
        let f = &fields[i];
        proof {
            assert(all.skip(i as int)[0] == f@);
            assert(all.skip(i as int).skip(1) =~= all.skip(i + 1));
        }
        let ghost prev = out@;
        if !f.is_identity {
            out.push(OptionFieldDef { name: f.name.clone(), ty: f.ty.clone() });
        }
        proof {
            if f@.is_identity {
                assert(option_model_view(out@) + spec_option_model(all.skip(i + 1))
                    =~= option_model_view(prev) + (Seq::<OptionFieldDefV>::empty()
                    + spec_option_model(all.skip(i + 1))));
            } else {
                assert(option_model_view(out@) =~= option_model_view(prev) + seq![
                    OptionFieldDefV { name: f@.name, ty: f@.ty },
                ]);
                assert(option_model_view(out@) + spec_option_model(all.skip(i + 1))
                    =~= option_model_view(prev) + (seq![
                    OptionFieldDefV { name: f@.name, ty: f@.ty },
                ] + spec_option_model(all.skip(i + 1))));
            }
        }
        i = i + 1;
    }
    proof {
        assert(all.skip(all.len() as int) =~= Seq::<FieldDescriptorV>::empty());
        assert(option_model_view(out@) + Seq::<OptionFieldDefV>::empty() =~= option_model_view(
            out@,
        ));
    }
    out
}

/// Builds the filter chain: for each non-identity field, the step that
/// constrains the result set when that field's predicate is present.
pub fn build_filter_chain(fields: &Vec<FieldDescriptor>) -> (r: Vec<FilterStep>)
    ensures
        filter_chain_view(r@) == spec_filter_chain(fields_view(fields@)),
{
    let ghost all = fields_view(fields@);
    let mut out: Vec<FilterStep> = Vec::new();
    let mut i: usize = 0;
    proof {
        assert(all.skip(0) =~= all);
        assert(filter_chain_view(out@) + spec_filter_chain(all) =~= spec_filter_chain(all));
    }
    while i < fields.len()
        invariant
            0 <= i <= fields.len(),
            all == fields_view(fields@),
            all.len() == fields.len(),
            spec_filter_chain(all) == filter_chain_view(out@) + spec_filter_chain(
                all.skip(i as int),
            ),
        decreases fields.len() - i,
    {
        let f = &fields[i];
        proof {
            assert(all.skip(i as int)[0] == f@);
            assert(all.skip(i as int).skip(1) =~= all.skip(i + 1));
        }
        let ghost prev = out@;
        if !f.is_identity {
            let column_name = to_pascal_case(f.name.clone());
            out.push(FilterStep { field_name: f.name.clone(), column_name });
        }
        proof {
            if f@.is_identity {
                assert(filter_chain_view(out@) + spec_filter_chain(all.skip(i + 1))
                    =~= filter_chain_view(prev) + (Seq::<FilterStepV>::empty() + spec_filter_chain(
                    all.skip(i + 1),
                )));
            } else {
                assert(filter_chain_view(out@) =~= filter_chain_view(prev) + seq![
                    FilterStepV { field_name: f@.name, column_name: pascal_of(f@.name) },
                ]);
                assert(filter_chain_view(out@) + spec_filter_chain(all.skip(i + 1))
                    =~= filter_chain_view(prev) + (seq![
                    FilterStepV { field_name: f@.name, column_name: pascal_of(f@.name) },
                ] + spec_filter_chain(all.skip(i + 1))));
            }
        }
        i = i + 1;
    }
    proof {
        assert(all.skip(all.len() as int) =~= Seq::<FieldDescriptorV>::empty());
        assert(filter_chain_view(out@) + Seq::<FilterStepV>::empty() =~= filter_chain_view(out@));
    }
    out
}

/// Emits the per-field operations: a getter-by-value and an updater for
/// every non-identity field, none for the identity field.
pub fn synthesize_field_methods(fields: &Vec<FieldDescriptor>) -> (r: Vec<ServiceMethod>)
    ensures
        methods_view(r@) == spec_field_methods(fields_view(fields@)),
{
    let ghost all = fields_view(fields@);
    let mut out: Vec<ServiceMethod> = Vec::new();
    let mut i: usize = 0;
    proof {
        assert(all.skip(0) =~= all);
        assert(methods_view(out@) + spec_field_methods(all) =~= spec_field_methods(all));
    }
    while i < fields.len()
        invariant
            0 <= i <= fields.len(),
            all == fields_view(fields@),
            all.len() == fields.len(),
            spec_field_methods(all) == methods_view(out@) + spec_field_methods(all.skip(i as int)),
        decreases fields.len() - i,
    {
        let f = &fields[i];
        proof {
            assert(all.skip(i as int)[0] == f@);
            assert(all.skip(i as int).skip(1) =~= all.skip(i + 1));
        }
        let ghost prev = out@;
        if !f.is_identity {
            out.push(ServiceMethod::GetByField { field: f.name.clone(), ty: f.ty.clone() });
            out.push(ServiceMethod::UpdateField { field: f.name.clone(), ty: f.ty.clone() });
        }
        proof {
            if f@.is_identity {
                assert(methods_view(out@) + spec_field_methods(all.skip(i + 1)) =~= methods_view(
                    prev,
                ) + (Seq::<ServiceMethodV>::empty() + spec_field_methods(all.skip(i + 1))));
            } else {
                let pair = seq![
                    ServiceMethodV::GetByField { field: f@.name, ty: f@.ty },
                    ServiceMethodV::UpdateField { field: f@.name, ty: f@.ty },
                ];
                assert(methods_view(out@) =~= methods_view(prev) + pair);
                assert(methods_view(out@) + spec_field_methods(all.skip(i + 1)) =~= methods_view(
                    prev,
                ) + (pair + spec_field_methods(all.skip(i + 1))));
            }
        }
        i = i + 1;
    }
    proof {
        assert(all.skip(all.len() as int) =~= Seq::<FieldDescriptorV>::empty());
        assert(methods_view(out@) + Seq::<ServiceMethodV>::empty() =~= methods_view(out@));
    }
    out
}

/// Assembles the full operation list: the fixed surface — insert, identity
/// lookup, filtered search — followed by every per-field operation.
pub fn assemble_service(fields: &Vec<FieldDescriptor>) -> (r: Vec<ServiceMethod>)
    ensures
        methods_view(r@) == spec_methods(fields_view(fields@)),
{
    let mut out: Vec<ServiceMethod> = Vec::new();
    out.push(ServiceMethod::InsertOne);
    out.push(ServiceMethod::GetOneById);
    out.push(ServiceMethod::FindByOptionModel);
    let ghost fixed = out@;
    let mut rest = synthesize_field_methods(fields);
    let ghost restv = rest@;
    out.append(&mut rest);
    proof {
        assert(methods_view(out@) =~= methods_view(fixed) + methods_view(restv));
        assert(methods_view(fixed) =~= seq![
            ServiceMethodV::InsertOne,
            ServiceMethodV::GetOneById,
            ServiceMethodV::FindByOptionModel,
        ]);
    }
    out
}

/// Generates the whole artifact for a described entity.
pub fn generate(entity: &EntityDescriptor) -> (r: GeneratedArtifact)
    ensures
        r@ == spec_generate(entity@),
{
    let option_model = synthesize_option_model(&entity.fields);
    let filter_chain = build_filter_chain(&entity.fields);
    let methods = assemble_service(&entity.fields);
    let default_column = to_pascal_case(String::from_str("created_at"));
    let r = GeneratedArtifact {
        entity_name: entity.name.clone(),
        table_name: entity.table_name.clone(),
        schema_name: match &entity.schema_name {
            Option::Some(s) => Option::Some(s.clone()),
            Option::None => Option::None,
        },
        comment: match &entity.comment {
            Option::Some(s) => Option::Some(s.clone()),
            Option::None => Option::None,
        },
        option_model,
        sort_option: SortOptionDef { default_column, default_desc: true },
        page_option: PageOptionDef { default_page: 1, default_page_size: 10 },
        filter_chain,
        methods,
    };
    r
}

/// The whole generation pass: parse the configuration block, describe the
/// entity, and synthesize the artifact — or report the configuration
/// error, with no partial artifact.
pub fn generate_from_config(
    name: String,
    fields: Vec<FieldInput>,
    attrs: &Vec<ConfigEntry>,
) -> (r: Result<GeneratedArtifact, ConfigError>)
    ensures
        generate_result_view(r) == spec_generate_from(
            name@,
            inputs_view(fields@),
            entries_view(attrs@),
        ),
{
    match parse_config(attrs) {
        Result::Ok(config) => {
            let entity = describe_entity(name, fields, config);
            Result::Ok(generate(&entity))
        },
        Result::Err(e) => Result::Err(e),
    }
}

} // verus!
