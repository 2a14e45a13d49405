//! Field-model extraction: the entity's declared field list becomes an
//! ordered sequence of field descriptors, with the identity field
//! recognized solely by the literal name `id` — a naming convention, not a
//! declared marker.

use vstd::prelude::*;
use crate::config::{ConfigSet, ConfigSetV};

verus! {

/// One declared field of the entity, as handed to the generator: its name
/// and the printed form of its type.
#[derive(Debug, PartialEq, Eq, Clone)]
pub struct FieldInput {
    pub name: String,
    pub ty: String,
}

/// A field descriptor: name, type, and whether this is the identity field.
#[derive(Debug, PartialEq, Eq, Clone)]
pub struct FieldDescriptor {
    pub name: String,
    pub ty: String,
    pub is_identity: bool,
}

/// Structural metadata for one entity: its name, the parsed configuration,
/// and the ordered field descriptors.
#[derive(Debug, PartialEq, Eq, Clone)]
pub struct EntityDescriptor {
    pub name: String,
    pub table_name: String,
    pub schema_name: Option<String>,
    pub comment: Option<String>,
    pub fields: Vec<FieldDescriptor>,
}

/// Mathematical image of a `FieldInput`.
pub struct FieldInputV {
    pub name: Seq<char>,
    pub ty: Seq<char>,
}

/// Mathematical image of a `FieldDescriptor`.
pub struct FieldDescriptorV {
    pub name: Seq<char>,
    pub ty: Seq<char>,
    pub is_identity: bool,
}

/// Mathematical image of an `EntityDescriptor`.
pub struct EntityDescriptorV {
    pub name: Seq<char>,
    pub table_name: Seq<char>,
    pub schema_name: Option<Seq<char>>,
    pub comment: Option<Seq<char>>,
    pub fields: Seq<FieldDescriptorV>,
}

impl View for FieldInput {
    type V = FieldInputV;

    open spec fn view(&self) -> FieldInputV {
        FieldInputV { name: self.name@, ty: self.ty@ }
    }
}

impl View for FieldDescriptor {
    type V = FieldDescriptorV;

    open spec fn view(&self) -> FieldDescriptorV {
        FieldDescriptorV { name: self.name@, ty: self.ty@, is_identity: self.is_identity }
    }
}

impl View for EntityDescriptor {
    type V = EntityDescriptorV;

    open spec fn view(&self) -> EntityDescriptorV {
        EntityDescriptorV {
            name: self.name@,
            table_name: self.table_name@,
            schema_name: match self.schema_name {
                Option::Some(ref s) => Option::Some(s@),
                Option::None => Option::None,
            },
            comment: match self.comment {
                Option::Some(ref s) => Option::Some(s@),
                Option::None => Option::None,
            },
            fields: self.fields@.map_values(|f: FieldDescriptor| f@),
        }
    }
}

/// The view of a whole field-input list.
pub open spec fn inputs_view(fs: Seq<FieldInput>) -> Seq<FieldInputV> {
    fs.map_values(|f: FieldInput| f@)
}

/// The view of a whole field-descriptor list.
pub open spec fn fields_view(fs: Seq<FieldDescriptor>) -> Seq<FieldDescriptorV> {
    fs.map_values(|f: FieldDescriptor| f@)
}

/// Whether a name is the identity name: the exact, case-sensitive
/// literal `id`.
pub open spec fn is_identity_name(name: Seq<char>) -> bool {
    name == "id"@
}

/// What extraction yields: each declared field in order, marked as the
/// identity field exactly when its name is the literal `id`.
pub open spec fn spec_mark_fields(fs: Seq<FieldInputV>) -> Seq<FieldDescriptorV> {
    fs.map_values(
        |f: FieldInputV|
            FieldDescriptorV { name: f.name, ty: f.ty, is_identity: is_identity_name(f.name) },
    )
}

/// A field list is identity-consistent when a field carries the identity
/// mark exactly where its name is the literal `id` — what extraction
/// always produces.
pub open spec fn identity_consistent(fs: Seq<FieldDescriptorV>) -> bool {
    forall|i: int|
        0 <= i < fs.len() ==> (#[trigger] fs[i].is_identity) == is_identity_name(fs[i].name)
}

fn name_is_id(name: &String) -> (r: bool)
    ensures
        r == is_identity_name(name@),
{
    *name == "id".to_owned()
}

/// Turns the declared field list into field descriptors, in declaration
/// order, identifying the identity field by the naming convention.
pub fn extract_fields(fields: Vec<FieldInput>) -> (r: Vec<FieldDescriptor>)
    ensures
        fields_view(r@) == spec_mark_fields(inputs_view(fields@)),
{
    let mut out: Vec<FieldDescriptor> = Vec::new();
    let mut i: usize = 0;
    while i < fields.len()
        invariant
            0 <= i <= fields.len(),
            fields_view(out@) =~= spec_mark_fields(inputs_view(fields@.subrange(0, i as int))),
        decreases fields.len() - i,
    {
        let f = &fields[i];
        let is_identity = name_is_id(&f.name);
        let ghost prev = out@;
        out.push(FieldDescriptor { name: f.name.clone(), ty: f.ty.clone(), is_identity });
        proof {
            let d = out@.last();
            assert(fields_view(out@) =~= fields_view(prev).push(d@));
            assert(spec_mark_fields(inputs_view(fields@.subrange(0, i + 1))) =~= fields_view(
                prev,
            ).push(d@));
        }
        i = i + 1;
    }
    proof {
        assert(fields@.subrange(0, fields@.len() as int) =~= fields@);
        assert(fields_view(out@) =~= spec_mark_fields(inputs_view(fields@)));
    }
    out
}

/// What describing an entity yields: the entity name, the configuration's
/// table/schema/comment, and the marked fields.
pub open spec fn spec_describe(name: Seq<char>, fs: Seq<FieldInputV>, c: ConfigSetV)
    -> EntityDescriptorV {
    EntityDescriptorV {
        name: name,
        table_name: c.table_name,
        schema_name: c.schema_name,
        comment: c.comment,
        fields: spec_mark_fields(fs),
    }
}

/// Builds the entity descriptor from the entity's name, its declared
/// fields, and the parsed configuration.
pub fn describe_entity(name: String, fields: Vec<FieldInput>, config: ConfigSet) -> (r:
    EntityDescriptor)
    ensures
        r@ == spec_describe(name@, inputs_view(fields@), config@),
{
    let marked = extract_fields(fields);
    EntityDescriptor {
        name,
        table_name: config.table_name,
        schema_name: config.schema_name,
        comment: config.comment,
        fields: marked,
    }
}

/// Extraction is identity-consistent: the mark stands exactly on the
/// fields named `id`.
pub proof fn lemma_extraction_identity_consistent(fs: Seq<FieldInputV>)
    ensures
        identity_consistent(spec_mark_fields(fs)),
{
}

} // verus!
