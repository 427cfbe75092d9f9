//! The details a system event carries: a small object of named plain values.
use vstd::prelude::*;

verus! {

broadcast use vstd::string::group_string_axioms;

/// One value of an event's details.
#[derive(Debug, PartialEq)]
pub enum DetailValue {
    Text(String),
    /// A count or a duration.
    Number(u128),
    /// A signed quantity, such as a block height.
    Signed(i64),
    Flag(bool),
    /// No value: a field that is known but empty.
    Null,
}

/// An event's details: named values, in the order they were added.
#[derive(Debug)]
pub struct Details {
    pub fields: Vec<(String, DetailValue)>,
}

/// The index of the first field named `key`.
pub open spec fn first_named(fields: Seq<(String, DetailValue)>, key: Seq<char>) -> Option<int>
    decreases fields.len(),
{
    if fields.len() == 0 {
        None
    } else if fields[0].0@ == key {
        Some(0)
    } else {
        match first_named(fields.drop_first(), key) {
            Some(i) => Some(i + 1),
            None => None,
        }
    }
}

/// Whether `v` is the text `s`.
pub open spec fn is_text(v: DetailValue, s: Seq<char>) -> bool {
    v matches DetailValue::Text(t) && t@ == s
}

impl Details {
    /// Details with no fields.
    pub fn new() -> (d: Self)
        ensures
            d.fields@.len() == 0,
    {
        Details { fields: Vec::new() }
    }

    /// These details with one more field, `key` set to `value`, at the end.
    pub fn with(self, key: &str, value: DetailValue) -> (d: Self)
        ensures
            d.fields@.len() == self.fields@.len() + 1,
            forall|i: int| 0 <= i < self.fields@.len() ==> d.fields@[i] == self.fields@[i],
            d.fields@.last().0@ == key@,
            d.fields@.last().1 == value,
    {
        let mut fields = self.fields;
        fields.push((key.to_string(), value));
        Details { fields }
    }

    /// The value of the first field named `key`, if any.
    pub fn get(&self, key: &str) -> (v: Option<&DetailValue>)
        ensures
            match first_named(self.fields@, key@) {
                Some(i) => v == Some(&self.fields@[i].1),
                None => v is None,
            },
    {
        let wanted = key.to_string();
        let mut i: usize = 0;
        assert(self.fields@.skip(0) =~= self.fields@);
        while i < self.fields.len()
            invariant
                i <= self.fields@.len(),
                wanted@ == key@,
                first_named(self.fields@, key@) == match first_named(
                    self.fields@.skip(i as int),
                    key@,
                ) {
                    Some(j) => Some(j + i),
                    None => None,
                },
            decreases self.fields@.len() - i,
        {
            assert(self.fields@.skip(i as int)[0] == self.fields@[i as int]);
            if self.fields[i].0 == wanted {
                return Some(&self.fields[i].1);
            }
            assert(self.fields@.skip(i as int).drop_first() =~= self.fields@.skip(i + 1));
            i = i + 1;
        }
        None
    }
}

/// A field added under a name the details did not have yet is what that name
/// reads back.
pub proof fn an_added_name_reads_back(fields: Seq<(String, DetailValue)>, field: (String, DetailValue))
    requires
        first_named(fields, field.0@) is None,
    ensures
        first_named(fields.push(field), field.0@) == Some(fields.len() as int),
        fields.push(field)[fields.len() as int].1 == field.1,
    decreases fields.len(),
{
    if fields.len() > 0 {
        assert(fields.push(field).drop_first() =~= fields.drop_first().push(field));
        an_added_name_reads_back(fields.drop_first(), field);
    }
}

} // verus!
