use vstd::prelude::*;
use vstd::pervasive::unreached;

verus! {

/// One loosely typed value of a fetched record. Entities of the mirrored
/// catalog carry scalar values only; `Composite` stands for an array or an
/// object, which is an invariant violation and is never serialized.
#[derive(Clone, Debug)]
pub enum Value {
    Null,
    Bool(bool),
    Number(String),
    Text(String),
    Composite,
}

impl Value {
    /// Whether the value is a scalar that the row writer may serialize.
    pub open spec fn is_scalar(&self) -> bool {
        !(self is Composite)
    }
}

/// The text a scalar value binds as: nulls as the literal `NULL`, booleans
/// as their literals, numbers as their numerals, strings verbatim.
pub open spec fn serialize_spec(v: Value) -> Seq<char> {
    match v {
        Value::Null => "NULL"@,
        Value::Bool(b) => if b {
            "true"@
        } else {
            "false"@
        },
        Value::Number(n) => n@,
        Value::Text(t) => t@,
        Value::Composite => Seq::empty(),
    }
}

/// Serializes one scalar value for parameter binding.
pub fn serialize(v: &Value) -> (r: String)
    requires
        v.is_scalar(),
    ensures
        r@ == serialize_spec(*v),
{
    match v {
        Value::Null => "NULL".to_owned(),
        Value::Bool(b) => if *b {
            "true".to_owned()
        } else {
            "false".to_owned()
        },
        Value::Number(n) => n.clone(),
        Value::Text(t) => t.clone(),
        Value::Composite => unreached(),
    }
}

/// One named value of a fetched record.
#[derive(Clone, Debug)]
pub struct Field {
    pub name: String,
    pub value: Value,
}

/// A fetched record: a mapping from column name to value, kept in the
/// order the remote source sent the fields.
#[derive(Clone, Debug)]
pub struct Record {
    pub fields: Vec<Field>,
}

/// The first value bound to `name`, if any.
pub open spec fn record_lookup(fields: Seq<Field>, name: Seq<char>) -> Option<Value>
    decreases fields.len(),
{
    if fields.len() == 0 {
        None
    } else if fields[0].name@ == name {
        Some(fields[0].value)
    } else {
        record_lookup(fields.drop_first(), name)
    }
}

impl Record {
    /// Looks a field up by name. Returns its value exactly when the record
    /// holds a field of that name.
    pub fn get<'a>(&'a self, name: &String) -> (r: Option<&'a Value>)
        ensures
            match r {
                Some(v) => record_lookup(self.fields@, name@) == Some(*v),
                None => record_lookup(self.fields@, name@) is None,
            },
    {
        let n = self.fields.len();
        let mut i: usize = 0;
        proof {
            assert(self.fields@.skip(0) =~= self.fields@);
        }
        while i < n
            invariant
                n == self.fields@.len(),
                0 <= i <= n,
                record_lookup(self.fields@, name@) == record_lookup(
                    self.fields@.skip(i as int),
                    name@,
                ),
            decreases n - i,
        {
            proof {
                assert(self.fields@.skip(i as int)[0] == self.fields@[i as int]);
                assert(self.fields@.skip(i as int).drop_first() =~= self.fields@.skip(
                    i as int + 1,
                ));
            }
            if self.fields[i].name == *name {
                return Some(&self.fields[i].value);
            }
            i = i + 1;
        }
        None
    }
}

} // verus!
