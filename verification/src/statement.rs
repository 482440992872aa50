use vstd::prelude::*;
use crate::catalog::{column_names, ColumnDescriptor, EntityType, ScalarKind};
use crate::value::{record_lookup, serialize, serialize_spec, Record, Value};

verus! {

/// `parts` joined by `sep`.
pub open spec fn join(parts: Seq<Seq<char>>, sep: Seq<char>) -> Seq<char>
    decreases parts.len(),
{
    if parts.len() == 0 {
        Seq::empty()
    } else if parts.len() == 1 {
        parts[0]
    } else {
        join(parts.drop_last(), sep) + sep + parts.last()
    }
}

/// The parameter placeholder for a column: the column name behind a colon.
pub open spec fn placeholder(name: Seq<char>) -> Seq<char> {
    seq![':'] + name
}

/// The parameterized insert statement for an entity: every catalog column
/// in order, each bound through its named placeholder.
pub open spec fn insert_statement(name: Seq<char>, cols: Seq<Seq<char>>) -> Seq<char> {
    "INSERT INTO "@ + name + "("@ + join(cols, ", "@) + ") VALUES("@ + join(
        cols.map_values(|c: Seq<char>| placeholder(c)),
        ", "@,
    ) + ")"@
}

/// Appends `parts` of the column list to `out`, separated by `, `.
fn append_joined(out: &mut String, entity: &EntityType, with_placeholder: bool)
    ensures
        !with_placeholder ==> final(out)@ == old(out)@ + join(column_names(entity), ", "@),
        with_placeholder ==> final(out)@ == old(out)@ + join(
            column_names(entity).map_values(|c: Seq<char>| placeholder(c)),
            ", "@,
        ),
{
    let ghost parts: Seq<Seq<char>> = if with_placeholder {
        column_names(entity).map_values(|c: Seq<char>| placeholder(c))
    } else {
        column_names(entity)
    };
    let n = entity.columns.len();
    let mut i: usize = 0;
    proof {
        assert(parts.take(0) =~= Seq::<Seq<char>>::empty());
    }
    while i < n
        invariant
            n == entity.columns@.len(),
            n == parts.len(),
            0 <= i <= n,
            parts == (if with_placeholder {
                column_names(entity).map_values(|c: Seq<char>| placeholder(c))
            } else {
                column_names(entity)
            }),
            out@ == old(out)@ + join(parts.take(i as int), ", "@),
        decreases n - i,
    {
        if i > 0 {
            out.append(", ");
        }
        if with_placeholder {
            out.append(":");
            proof {
                reveal_strlit(":");
                assert(":"@ =~= seq![':']);
            }
        }
        out.append(entity.columns[i].name.as_str());
        proof {
            assert(parts.take(i as int + 1).drop_last() =~= parts.take(i as int));
            assert(parts.take(i as int + 1).last() == parts[i as int]);
            if with_placeholder {
                assert(parts[i as int] == placeholder(entity.columns@[i as int].name@));
            } else {
                assert(parts[i as int] == entity.columns@[i as int].name@);
            }
            if i == 0 {
                assert(out@ =~= old(out)@ + join(parts.take(1), ", "@));
            } else {
                assert(out@ =~= old(out)@ + join(parts.take(i as int + 1), ", "@));
            }
        }
        i = i + 1;
    }
    proof {
        assert(parts.take(n as int) =~= parts);
    }
}

/// Builds the parameterized insert statement for one entity type, naming
/// every catalog column in order and one placeholder per column.
pub fn format_insert_statement(entity: &EntityType) -> (r: String)
    ensures
        r@ == insert_statement(entity.name@, column_names(entity)),
{
    let mut s = "INSERT INTO ".to_owned();
    s.append(entity.name.as_str());
    s.append("(");
    append_joined(&mut s, entity, false);
    s.append(") VALUES(");
    append_joined(&mut s, entity, true);
    s.append(")");
    proof {
        assert(s@ =~= insert_statement(entity.name@, column_names(entity)));
    }
    s
}

/// The statement that resolves an entity's cursor from the local store:
/// the stored row count and the greatest update timestamp.
pub open spec fn cursor_statement(typename: Seq<char>) -> Seq<char> {
    "SELECT COUNT(id), MAX(opdateringsdato) FROM "@ + typename + ";"@
}

/// Builds the cursor-resolution query for one entity table.
pub fn cursor_query_statement(typename: &str) -> (r: String)
    ensures
        r@ == cursor_statement(typename@),
{
    let mut s = "SELECT COUNT(id), MAX(opdateringsdato) FROM ".to_owned();
    s.append(typename);
    s.append(";");
    proof {
        assert(s@ =~= cursor_statement(typename@));
    }
    s
}

/// The statement that counts the distinct stored rows of an entity table.
pub open spec fn count_statement(typename: Seq<char>) -> Seq<char> {
    "SELECT COUNT(id) FROM (SELECT DISTINCT id FROM "@ + typename + ");"@
}

/// Builds the row-count query for one entity table.
pub fn count_query_statement(typename: &str) -> (r: String)
    ensures
        r@ == count_statement(typename@),
{
    let mut s = "SELECT COUNT(id) FROM (SELECT DISTINCT id FROM ".to_owned();
    s.append(typename);
    s.append(");");
    proof {
        assert(s@ =~= count_statement(typename@));
    }
    s
}

/// The store's column type for a scalar kind.
pub open spec fn sql_type(kind: ScalarKind) -> Seq<char> {
    match kind {
        ScalarKind::Binary => "BLOB"@,
        ScalarKind::Boolean => "BOOLEAN"@,
        ScalarKind::Byte => "BYTE"@,
        ScalarKind::DateTime => "DATETIME"@,
        ScalarKind::DateTimeOffset => "TEXT"@,
        ScalarKind::Decimal => "DECIMAL"@,
        ScalarKind::Double => "DOUBLE"@,
        ScalarKind::Int16 => "INTEGER"@,
        ScalarKind::Int32 => "INTEGER"@,
        ScalarKind::Text => "TEXT"@,
    }
}

/// The store's column type for a scalar kind.
pub fn sql_type_name(kind: &ScalarKind) -> (r: &'static str)
    ensures
        r@ == sql_type(*kind),
{
    let r = match kind {
        ScalarKind::Binary => "BLOB",
        ScalarKind::Boolean => "BOOLEAN",
        ScalarKind::Byte => "BYTE",
        ScalarKind::DateTime => "DATETIME",
        ScalarKind::DateTimeOffset => "TEXT",
        ScalarKind::Decimal => "DECIMAL",
        ScalarKind::Double => "DOUBLE",
        ScalarKind::Int16 => "INTEGER",
        ScalarKind::Int32 => "INTEGER",
        ScalarKind::Text => "TEXT",
    };
    proof {
        reveal_strlit("BLOB");
        reveal_strlit("BOOLEAN");
        reveal_strlit("BYTE");
        reveal_strlit("DATETIME");
        reveal_strlit("TEXT");
        reveal_strlit("DECIMAL");
        reveal_strlit("DOUBLE");
        reveal_strlit("INTEGER");
    }
    r
}

/// One column of a table definition: its name, its type, and whether it
/// must hold a value.
pub open spec fn column_def(c: ColumnDescriptor) -> Seq<char> {
    c.name@ + seq![' '] + sql_type(c.kind) + (if c.nullable {
        Seq::<char>::empty()
    } else {
        " NOT NULL"@
    })
}

/// The names of an entity's key columns, in catalog order.
pub open spec fn key_names(cols: Seq<ColumnDescriptor>) -> Seq<Seq<char>>
    decreases cols.len(),
{
    if cols.len() == 0 {
        Seq::empty()
    } else {
        let rest = key_names(cols.drop_last());
        if cols.last().key {
            rest.push(cols.last().name@)
        } else {
            rest
        }
    }
}

/// The statement that creates an entity's table: one column per catalog
/// column, mirroring kind and nullability, with the key columns as the
/// primary key.
pub open spec fn create_statement(entity: &EntityType) -> Seq<char> {
    "CREATE TABLE IF NOT EXISTS "@ + entity.name@ + "("@ + join(
        entity.columns@.map_values(|c: ColumnDescriptor| column_def(c)),
        ", "@,
    ) + (if key_names(entity.columns@).len() == 0 {
        Seq::<char>::empty()
    } else {
        ", PRIMARY KEY("@ + join(key_names(entity.columns@), ", "@) + ")"@
    }) + ")"@
}

/// Builds the table definition for one entity type.
pub fn format_create_statement(entity: &EntityType) -> (r: String)
    ensures
        r@ == create_statement(entity),
{
    let ghost defs = entity.columns@.map_values(|c: ColumnDescriptor| column_def(c));
    let mut s = "CREATE TABLE IF NOT EXISTS ".to_owned();
    s.append(entity.name.as_str());
    s.append("(");
    let n = entity.columns.len();
    let mut i: usize = 0;
    let ghost head = s@;
    proof {
        assert(defs.take(0) =~= Seq::<Seq<char>>::empty());
    }
    while i < n
        invariant
            n == entity.columns@.len(),
            0 <= i <= n,
            defs == entity.columns@.map_values(|c: ColumnDescriptor| column_def(c)),
            head == "CREATE TABLE IF NOT EXISTS "@ + entity.name@ + "("@,
            s@ == head + join(defs.take(i as int), ", "@),
        decreases n - i,
    {
        if i > 0 {
            s.append(", ");
        }
        let c = &entity.columns[i];
        s.append(c.name.as_str());
        s.append(" ");
        s.append(sql_type_name(&c.kind));
        if !c.nullable {
            s.append(" NOT NULL");
        }
        proof {
            reveal_strlit(" ");
            assert(" "@ =~= seq![' ']);
            assert(defs.take(i as int + 1).drop_last() =~= defs.take(i as int));
            assert(defs.take(i as int + 1).last() == column_def(entity.columns@[i as int]));
            if i == 0 {
                assert(s@ =~= head + join(defs.take(1), ", "@));
            } else {
                assert(s@ =~= head + join(defs.take(i as int + 1), ", "@));
            }
        }
        i = i + 1;
    }
    proof {
        assert(defs.take(n as int) =~= defs);
    }
    let ghost before_keys = s@;
    let mut any_key = false;
    let mut j: usize = 0;
    proof {
        assert(key_names(entity.columns@.take(0)) =~= Seq::<Seq<char>>::empty());
    }
    while j < n
        invariant
            n == entity.columns@.len(),
            0 <= j <= n,
            any_key == (key_names(entity.columns@.take(j as int)).len() != 0),
            !any_key ==> s@ == before_keys,
            any_key ==> s@ == before_keys + ", PRIMARY KEY("@ + join(
                key_names(entity.columns@.take(j as int)),
                ", "@,
            ),
        decreases n - j,
    {
        let ghost kpre = key_names(entity.columns@.take(j as int));
        proof {
            assert(entity.columns@.take(j as int + 1).drop_last() =~= entity.columns@.take(
                j as int,
            ));
            assert(entity.columns@.take(j as int + 1).last() == entity.columns@[j as int]);
        }
        if entity.columns[j].key {
            if any_key {
                s.append(", ");
            } else {
                s.append(", PRIMARY KEY(");
                any_key = true;
            }
            s.append(entity.columns[j].name.as_str());
            proof {
                assert(key_names(entity.columns@.take(j as int + 1)) =~= kpre.push(
                    entity.columns@[j as int].name@,
                ));
                assert(kpre.push(entity.columns@[j as int].name@).drop_last() =~= kpre);
                assert(kpre.push(entity.columns@[j as int].name@).last()
                    == entity.columns@[j as int].name@);
                if kpre.len() == 0 {
                    assert(s@ =~= before_keys + ", PRIMARY KEY("@ + join(
                        key_names(entity.columns@.take(j as int + 1)),
                        ", "@,
                    ));
                } else {
                    assert(s@ =~= before_keys + ", PRIMARY KEY("@ + join(
                        key_names(entity.columns@.take(j as int + 1)),
                        ", "@,
                    ));
                }
            }
        }
        j = j + 1;
    }
    if any_key {
        s.append(")");
    }
    s.append(")");
    proof {
        assert(entity.columns@.take(n as int) =~= entity.columns@);
        assert(s@ =~= create_statement(entity));
    }
    s
}

/// One parameter binding of an insert: a placeholder name and the
/// serialized text bound to it.
#[derive(Clone, Debug)]
pub struct InsertParam {
    pub name: String,
    pub value: String,
}

/// A fully built insert: the statement and one binding per catalog column.
#[derive(Clone, Debug)]
pub struct InsertPlan {
    pub statement: String,
    pub params: Vec<InsertParam>,
}

/// A record column that held an array or an object where a scalar is
/// required: an invariant violation, surfaced, never serialized.
#[derive(Clone, Debug)]
pub struct NonScalarColumn {
    pub column: String,
}

/// The value a record binds for a column: the record's own value where one
/// is present, SQL NULL where the record has no such field.
pub open spec fn bound_value(record: &Record, col: Seq<char>) -> Value {
    match record_lookup(record.fields@, col) {
        Some(v) => v,
        None => Value::Null,
    }
}

/// Whether every value the record binds for the entity's columns is a
/// scalar.
pub open spec fn all_bound_scalar(entity: &EntityType, record: &Record) -> bool {
    forall|i: int|
        0 <= i < entity.columns@.len() ==> (#[trigger] bound_value(
            record,
            entity.columns@[i].name@,
        )).is_scalar()
}

/// Builds the insert for one fetched record: the entity's statement and,
/// per catalog column in order, the record's serialized value or NULL.
/// Fails, surfacing the first offending column, exactly when the record
/// holds a non-scalar value for some column.
pub fn prepare_insert(entity: &EntityType, record: &Record) -> (r: Result<
    InsertPlan,
    NonScalarColumn,
>)
    ensures
        match r {
            Ok(plan) => {
                &&& all_bound_scalar(entity, record)
                &&& plan.statement@ == insert_statement(entity.name@, column_names(entity))
                &&& plan.params@.len() == entity.columns@.len()
                &&& forall|i: int|
                    0 <= i < entity.columns@.len() ==> (#[trigger] plan.params@[i]).name@
                        == placeholder(entity.columns@[i].name@) && plan.params@[i].value@
                        == serialize_spec(bound_value(record, entity.columns@[i].name@))
            },
            Err(e) => exists|i: int|
                {
                    &&& 0 <= i < entity.columns@.len()
                    &&& !(#[trigger] bound_value(record, entity.columns@[i].name@)).is_scalar()
                    &&& e.column@ == entity.columns@[i].name@
                    &&& forall|j: int|
                        0 <= j < i ==> (#[trigger] bound_value(
                            record,
                            entity.columns@[j].name@,
                        )).is_scalar()
                },
        },
{
    let statement = format_insert_statement(entity);
    let mut params: Vec<InsertParam> = Vec::new();
    let n = entity.columns.len();
    let mut i: usize = 0;
    while i < n
        invariant
            n == entity.columns@.len(),
            0 <= i <= n,
            params@.len() == i,
            forall|j: int|
                0 <= j < i ==> (#[trigger] bound_value(record, entity.columns@[j].name@)).is_scalar(),
            forall|j: int|
                0 <= j < i ==> (#[trigger] params@[j]).name@ == placeholder(
                    entity.columns@[j].name@,
                ) && params@[j].value@ == serialize_spec(
                    bound_value(record, entity.columns@[j].name@),
                ),
        decreases n - i,
    {
        let column = &entity.columns[i];
        let looked_up = record.get(&column.name);
        let value: &Value = match looked_up {
            Some(v) => v,
            None => &Value::Null,
        };
        proof {
            assert(*value == bound_value(record, entity.columns@[i as int].name@));
        }
        if let Value::Composite = value {
            return Err(NonScalarColumn { column: column.name.clone() });
        }
        let mut name = ":".to_owned();
        name.append(column.name.as_str());
        proof {
            reveal_strlit(":");
            assert(":"@ =~= seq![':']);
            assert(name@ =~= placeholder(entity.columns@[i as int].name@));
        }
        let serialized = serialize(value);
        params.push(InsertParam { name, value: serialized });
        i = i + 1;
    }
    Ok(InsertPlan { statement, params })
}

} // verus!
