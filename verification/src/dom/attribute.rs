use vstd::prelude::*;

verus! {

/// A named attribute of a DOM element, with an optional value.
#[derive(Hash, Eq, PartialEq, Debug)]
pub struct Attribute {
    pub name: String,
    pub value: Option<String>,
}

impl Attribute {
    pub fn new(name: &str, value: Option<&str>) -> (attr: Attribute)
        ensures
            attr.name@ == name@,
            match value {
                Some(v) => attr.value matches Some(w) && w@ == v@,
                None => attr.value is None,
            },
    {
        Attribute {
            name: name.to_owned(),
            value: match value {
                Some(v) => Some(v.to_owned()),
                None => None,
            },
        }
    }
}

} // verus!
