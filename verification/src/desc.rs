//! The schema model: a closed description of a value's shape.

use vstd::prelude::*;
use crate::value::{Value, ValueV, value_view};

verus! {

broadcast use {vstd::std_specs::vec::axiom_vec_decreases_to_view, vstd::seq::axiom_seq_index_decreases};

/// A description of the shape a value should have.
///
/// Numeric bounds are optional on either side.  A float bound is
/// carried as its IEEE-754 bit pattern, like a float value.  A list or
/// map may leave its element shape absent, to be inferred at edit time.
pub enum Desc {
    Bool,
    Int { min: Option<i64>, max: Option<i64> },
    Float { min: Option<u64>, max: Option<u64> },
    String { variants: Option<Vec<String>> },
    List { elem_desc: Option<Box<Desc>> },
    Dict { value_desc: Option<Box<Desc>> },
}

/// The mathematical shape of a [`Desc`].
pub enum DescV {
    Bool,
    Int { min: Option<i64>, max: Option<i64> },
    Float { min: Option<u64>, max: Option<u64> },
    String { variants: Option<Seq<Seq<char>>> },
    List { elem_desc: Option<Box<DescV>> },
    Dict { value_desc: Option<Box<DescV>> },
}

/// The mathematical shape of a schema, recursively.
pub open spec fn desc_view(d: Desc) -> DescV
    decreases d,
{
    match d {
        Desc::Bool => DescV::Bool,
        Desc::Int { min, max } => DescV::Int { min, max },
        Desc::Float { min, max } => DescV::Float { min, max },
        Desc::String { variants } => DescV::String {
            variants: match variants {
                Option::None => Option::None,
                Option::Some(vs) => Option::Some(Seq::new(vs@.len(), |i: int| vs@[i]@)),
            },
        },
        Desc::List { elem_desc } => DescV::List {
            elem_desc: match elem_desc {
                Option::None => Option::None,
                Option::Some(b) => Option::Some(Box::new(desc_view(*b))),
            },
        },
        Desc::Dict { value_desc } => DescV::Dict {
            value_desc: match value_desc {
                Option::None => Option::None,
                Option::Some(b) => Option::Some(Box::new(desc_view(*b))),
            },
        },
    }
}

impl View for Desc {
    type V = DescV;

    open spec fn view(&self) -> DescV {
        desc_view(*self)
    }
}

impl DescV {
    /// The kind label of a schema shape.
    pub open spec fn kind(self) -> Seq<char> {
        match self {
            DescV::Bool => "bool"@,
            DescV::Int { .. } => "int"@,
            DescV::Float { .. } => "float"@,
            DescV::String { .. } => "string"@,
            DescV::List { .. } => "list"@,
            DescV::Dict { .. } => "map"@,
        }
    }

    /// The canonical neutral value for a schema: `false` for a bool,
    /// the lower bound (or zero) for a number, the first variant (or
    /// the empty string) for a string, the empty container otherwise.
    /// A float's zero default is the bit pattern of positive zero.
    pub open spec fn default_value(self) -> ValueV {
        match self {
            DescV::Bool => ValueV::Bool(false),
            DescV::Int { min, .. } => ValueV::Int(
                match min {
                    Option::Some(m) => m,
                    Option::None => 0,
                },
            ),
            DescV::Float { min, .. } => ValueV::Float(
                match min {
                    Option::Some(m) => m,
                    Option::None => 0,
                },
            ),
            DescV::String { variants } => ValueV::String(
                match variants {
                    Option::Some(vs) => if vs.len() > 0 {
                        vs[0]
                    } else {
                        Seq::empty()
                    },
                    Option::None => Seq::empty(),
                },
            ),
            DescV::List { .. } => ValueV::List(Seq::empty()),
            DescV::Dict { .. } => ValueV::Dict(Seq::empty()),
        }
    }
}

impl Desc {
    /// The kind label of this schema, for diagnostic display.
    pub fn kind(&self) -> (r: &'static str)
        ensures
            r@ == self@.kind(),
    {
        match self {
            Desc::Bool => "bool",
            Desc::Int { .. } => "int",
            Desc::Float { .. } => "float",
            Desc::String { .. } => "string",
            Desc::List { .. } => "list",
            Desc::Dict { .. } => "map",
        }
    }

    /// The canonical neutral value for this schema.
    pub fn default_value(&self) -> (r: Value)
        ensures
            r@ == self@.default_value(),
            r@.kind() == self@.kind(),
    {
        let r = match self {
            Desc::Bool => Value::Bool(false),
            Desc::Int { min, .. } => Value::Int(
                match min {
                    Option::Some(m) => *m,
                    Option::None => 0,
                },
            ),
            Desc::Float { min, .. } => Value::Float(
                match min {
                    Option::Some(m) => *m,
                    Option::None => 0,
                },
            ),
            Desc::String { variants } => match variants {
                Option::Some(vs) => if vs.len() > 0 {
                    Value::String(vs[0].clone())
                } else {
                    Value::String(String::new())
                },
                Option::None => Value::String(String::new()),
            },
            Desc::List { .. } => Value::List(Vec::new()),
            Desc::Dict { .. } => Value::Dict(Vec::new()),
        };
        proof {
            assert(r@ == self@.default_value()) by {
                match self {
                    Desc::List { .. } => {
                        assert(r@->List_0 =~= Seq::<ValueV>::empty());
                    },
                    Desc::Dict { .. } => {
                        assert(r@->Dict_0 =~= Seq::<(Seq<char>, ValueV)>::empty());
                    },
                    _ => {},
                }
            }
        }
        r
    }
}

/// Every schema's default value has the schema's own kind: the neutral
/// value a schema derives always matches that schema.
pub proof fn lemma_default_value_kind(d: DescV)
    ensures
        d.default_value().kind() == d.kind(),
{
}

impl Default for Desc {
    /// The neutral schema: a boolean slot.
    fn default() -> (r: Self)
        ensures
            r == Desc::Bool,
    {
        Desc::Bool
    }
}

pub(crate) fn clone_strings(vs: &Vec<String>) -> (r: Vec<String>)
    ensures
        r@.len() == vs@.len(),
        forall|i: int| 0 <= i < vs@.len() ==> #[trigger] r@[i]@ == vs@[i]@,
{
    let mut r: Vec<String> = Vec::new();
    let n = vs.len();
    let mut i: usize = 0;
    while i < n
        invariant
            n == vs@.len(),
            0 <= i <= n,
            r@.len() == i,
            forall|j: int| 0 <= j < i ==> #[trigger] r@[j]@ == vs@[j]@,
        decreases n - i,
    {
        r.push(vs[i].clone());
        i += 1;
    }
    r
}

impl Clone for Desc {
    /// A structural copy: the clone has the same mathematical shape.
    fn clone(&self) -> (r: Self)
        ensures
            r@ == self@,
    {
        clone_desc(self)
    }
}

fn clone_desc(d: &Desc) -> (r: Desc)
    ensures
        r@ == d@,
    decreases *d,
{
    match d {
        Desc::Bool => Desc::Bool,
        Desc::Int { min, max } => Desc::Int { min: *min, max: *max },
        Desc::Float { min, max } => Desc::Float { min: *min, max: *max },
        Desc::String { variants } => {
            let r = Desc::String {
                variants: match variants {
                    Option::None => Option::None,
                    Option::Some(vs) => Option::Some(clone_strings(vs)),
                },
            };
            proof {
                match variants {
                    Option::Some(vs) => {
                        assert(r@->String_variants->0 =~= d@->String_variants->0);
                    },
                    Option::None => {},
                }
            }
            r
        },
        Desc::List { elem_desc } => Desc::List {
            elem_desc: match elem_desc {
                Option::None => Option::None,
                Option::Some(b) => Option::Some(Box::new(clone_desc(b))),
            },
        },
        Desc::Dict { value_desc } => Desc::Dict {
            value_desc: match value_desc {
                Option::None => Option::None,
                Option::Some(b) => Option::Some(Box::new(clone_desc(b))),
            },
        },
    }
}

} // verus!
