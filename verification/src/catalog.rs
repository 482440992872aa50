use vstd::prelude::*;

verus! {

/// The scalar kind of one catalog column.
pub enum ScalarKind {
    Binary,
    Boolean,
    Byte,
    DateTime,
    DateTimeOffset,
    Decimal,
    Double,
    Int16,
    Int32,
    Text,
}

/// One column of an entity type: its name, scalar kind, nullability and
/// whether it is part of the primary key.
pub struct ColumnDescriptor {
    pub name: String,
    pub kind: ScalarKind,
    pub nullable: bool,
    pub key: bool,
}

/// One remote resource category with a fixed column schema, mirrored into
/// one local table of the same name.
pub struct EntityType {
    pub name: String,
    pub columns: Vec<ColumnDescriptor>,
}

/// The immutable, process-wide table of entity types, loaded once at
/// startup and read-only thereafter.
pub struct Catalog {
    pub entities: Vec<EntityType>,
}

/// The ordered column names of an entity type.
pub open spec fn column_names(entity: &EntityType) -> Seq<Seq<char>> {
    entity.columns@.map_values(|c: ColumnDescriptor| c.name@)
}

impl Catalog {
    /// A well-formed catalog names each entity type exactly once.
    pub open spec fn wf(&self) -> bool {
        forall|i: int, j: int|
            0 <= i < j < self.entities@.len() ==> self.entities@[i].name@ != self.entities@[j].name@
    }
}

/// Looks an entity type up by name. Returns a descriptor exactly when the
/// catalog holds one of that name.
pub fn get_entity_by_name<'a>(catalog: &'a Catalog, typename: &str) -> (r: Option<&'a EntityType>)
    ensures
        match r {
            Some(e) => exists|i: int|
                0 <= i < catalog.entities@.len() && catalog.entities@[i] == *e
                    && e.name@ == typename@,
            None => forall|i: int|
                0 <= i < catalog.entities@.len() ==> catalog.entities@[i].name@ != typename@,
        },
{
    let wanted = typename.to_owned();
    let n = catalog.entities.len();
    let mut i: usize = 0;
    while i < n
        invariant
            n == catalog.entities@.len(),
            0 <= i <= n,
            wanted@ == typename@,
            forall|j: int| 0 <= j < i ==> catalog.entities@[j].name@ != typename@,
        decreases n - i,
    {
        if catalog.entities[i].name == wanted {
            return Some(&catalog.entities[i]);
        }
        i = i + 1;
    }
    None
}

} // verus!
