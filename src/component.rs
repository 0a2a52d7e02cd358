use vstd::prelude::*;
use vstd::string::StringExecFns;

verus! {

/// Why no example configuration could be given.
#[derive(Clone, Debug, PartialEq)]
pub enum ExampleError {
    /// The component exists but has no example.
    MissingExample,
    /// No component of that type is registered.
    DoesNotExist { type_str: String },
}

/// A registered component: its type name and, where it has one, an example
/// configuration.
#[derive(Debug)]
pub struct ComponentDescription<V> {
    pub type_str: String,
    pub example_value: Option<V>,
}

impl<V> ComponentDescription<V> {
    pub fn new(type_str: &str, example_value: Option<V>) -> (r: ComponentDescription<V>)
        ensures
            r.type_str@ == type_str@,
            r.example_value == example_value,
    {
        ComponentDescription { type_str: String::from_str(type_str), example_value }
    }
}

/// Whether `i` is the first entry of `reg` registered under `t`.
pub open spec fn is_first_type<V>(reg: Seq<ComponentDescription<V>>, t: Seq<char>, i: int) -> bool {
    0 <= i < reg.len() && reg[i].type_str@ == t && forall|j: int|
        0 <= j < i ==> reg[j].type_str@ != t
}

/// The example configuration of the component registered under `type_str`.
pub fn example<'a, V>(registry: &'a Vec<ComponentDescription<V>>, type_str: &str) -> (r: Result<
    &'a V,
    ExampleError,
>)
    ensures
        (forall|i: int| !is_first_type(registry@, type_str@, i)) <==> r matches Err(
            ExampleError::DoesNotExist { type_str: t },
        ),
        r matches Err(ExampleError::DoesNotExist { type_str: t }) ==> t@ == type_str@,
        forall|i: int|
            is_first_type(registry@, type_str@, i) ==> match registry@[i].example_value {
                Some(v) => r == Ok::<&V, ExampleError>(&v),
                None => r == Err::<&V, ExampleError>(ExampleError::MissingExample),
            },
{
    let t = String::from_str(type_str);
    let mut i: usize = 0;
    while i < registry.len()
        invariant
            i <= registry@.len(),
            t@ == type_str@,
            forall|j: int| 0 <= j < i ==> registry@[j].type_str@ != t@,
        decreases registry@.len() - i,
    {
        if registry[i].type_str == t {
            assert(is_first_type(registry@, type_str@, i as int));
            assert forall|c: int| is_first_type(registry@, type_str@, c) implies c == i by {
                if c < i {
                    assert(registry@[c].type_str@ != t@);
                } else if c > i {
                    assert(registry@[i as int].type_str@ != t@);
                }
            }
            return match &registry[i].example_value {
                Some(v) => Ok(v),
                None => Err(ExampleError::MissingExample),
            };
        }
        i = i + 1;
    }
    assert forall|c: int| !is_first_type(registry@, type_str@, c) by {
        if 0 <= c < registry@.len() {
            assert(registry@[c].type_str@ != t@);
        }
    }
    Err(ExampleError::DoesNotExist { type_str: t })
}

} // verus!
