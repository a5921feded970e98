//! The tool catalog: named capabilities with typed parameter descriptions,
//! built once and used both to inform the model and to validate invocation
//! names. The handlers behind the names live outside the crate; here a
//! tool is its name, description and parameters.

use vstd::prelude::*;
use vstd::string::StringExecFns;

verus! {

/// One described parameter of a tool.
#[derive(Debug)]
pub struct Param {
    pub name: String,
    pub description: String,
    pub required: bool,
    pub enum_values: Option<Vec<String>>,
}

impl Param {
    /// A required parameter with a free-form string value.
    pub fn new(name: &str, description: &str) -> (r: Self)
        ensures
            r.name@ == name@,
            r.description@ == description@,
            r.required == true,
            r.enum_values is None,
    {
        Param {
            name: name.to_owned(),
            description: description.to_owned(),
            required: true,
            enum_values: None,
        }
    }

    /// The same parameter, restricted to the given allowed values.
    pub fn with_enum_values(self, enum_values: &[&str]) -> (r: Self)
        ensures
            r.name == self.name,
            r.description == self.description,
            r.required == self.required,
            r.enum_values is Some,
            r.enum_values->0.deep_view() == enum_values.deep_view(),
    {
        let mut vals: Vec<String> = Vec::new();
        let n = enum_values.len();
        let mut i: usize = 0;
        while i < n
            invariant
                n == enum_values@.len(),
                i <= n,
                vals.deep_view() == enum_values.deep_view().subrange(0, i as int),
            decreases n - i,
        {
            proof {
                assert(enum_values.deep_view()[i as int] == enum_values@[i as int].deep_view());
                assert(vals.deep_view().len() == i);
                assert(vals@.len() == i);
            }
            vals.push(enum_values[i].to_owned());
            proof {
                assert(vals.deep_view() =~~= enum_values.deep_view().subrange(0, i as int + 1));
            }
            i += 1;
        }
        proof {
            assert(enum_values.deep_view().subrange(0, n as int) =~= enum_values.deep_view());
        }
        Param {
            name: self.name,
            description: self.description,
            required: self.required,
            enum_values: Some(vals),
        }
    }
}

/// One tool of the catalog: a named capability with its parameters. The
/// handler that answers to the name is registered outside the crate.
#[derive(Debug)]
pub struct Func {
    pub name: String,
    pub description: String,
    pub parameters: Vec<Param>,
}

impl Func {
    pub fn new(name: &str, description: &str, parameters: Vec<Param>) -> (r: Self)
        ensures
            r.name@ == name@,
            r.description@ == description@,
            r.parameters == parameters,
    {
        Func {
            name: name.to_owned(),
            description: description.to_owned(),
            parameters,
        }
    }
}

} // verus!
