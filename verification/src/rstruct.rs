//! Struct literals of a task file: a type with ordered field names, bound
//! to a variable and given positional values, and rendered as an object
//! literal.

use crate::text::{append, chars_of, join, join_with, slice, string_of, views};
use vstd::prelude::*;

verus! {

/// What a [`Struct`] stands for.
pub struct StructView {
    /// The variable that an instance was bound to; empty before that.
    pub variable: Seq<char>,
    /// The type's name.
    pub name: Seq<char>,
    /// The field names, in order, each with its leading marker.
    pub fields: Seq<Seq<char>>,
    /// The values, in order; empty before an instance was made.
    pub values: Seq<Seq<char>>,
}

/// A field name as it is written in the rendering: without its first
/// character, the marker that the task file puts before a field name.
pub open spec fn field_label(field: Seq<char>) -> Seq<char> {
    if field.len() > 0 {
        field.drop_first()
    } else {
        field
    }
}

/// One `"label":value` pair. The value is written as it stands, unquoted.
pub open spec fn render_pair(field: Seq<char>, value: Seq<char>) -> Seq<char> {
    seq!['"'] + field_label(field) + seq!['"', ':'] + value
}

/// The pairs of fields and values, position by position. Where one list is
/// longer than the other, what has no partner is left out.
pub open spec fn render_pairs(fields: Seq<Seq<char>>, values: Seq<Seq<char>>) -> Seq<Seq<char>> {
    Seq::new(
        if fields.len() <= values.len() {
            fields.len()
        } else {
            values.len()
        },
        |i: int| render_pair(fields[i], values[i]),
    )
}

/// The object literal `{"a":1,"b":2}` for the given fields and values.
pub open spec fn render(fields: Seq<Seq<char>>, values: Seq<Seq<char>>) -> Seq<char> {
    seq!['{'] + join(render_pairs(fields, values), seq![',']) + seq!['}']
}

/// A struct type, and the instance of it that was made last.
#[derive(Debug)]
pub struct Struct {
    variable: String,
    name: String,
    fields: Vec<String>,
    values: Vec<String>,
}

impl View for Struct {
    type V = StructView;

    closed spec fn view(&self) -> StructView {
        StructView {
            variable: self.variable@,
            name: self.name@,
            fields: self.fields.deep_view(),
            values: self.values.deep_view(),
        }
    }
}

impl DeepView for Struct {
    type V = StructView;

    open spec fn deep_view(&self) -> StructView {
        self@
    }
}

/// A copy of a list of strings.
pub fn copy_strings(list: &Vec<String>) -> (r: Vec<String>)
    ensures
        r.deep_view() == list.deep_view(),
{
    let mut r: Vec<String> = Vec::new();
    let mut i: usize = 0;
    while i < list.len()
        invariant
            i <= list.len(),
            r.deep_view() == list.deep_view().take(i as int),
        decreases list.len() - i,
    {
        let ghost before = r.deep_view();
        r.push(list[i].clone());
        assert(r.deep_view() =~= before.push(list[i as int]@));
        i += 1;
    }
    assert(list.deep_view().take(list.len() as int) == list.deep_view());
    r
}

impl Clone for Struct {
    fn clone(&self) -> (r: Self)
        ensures
            r@ == self@,
    {
        Struct {
            variable: self.variable.clone(),
            name: self.name.clone(),
            fields: copy_strings(&self.fields),
            values: copy_strings(&self.values),
        }
    }
}

impl Struct {
    /// A struct type with the given name and fields, bound to no variable
    /// and without values.
    pub fn new(name: &str, fields: Vec<String>) -> (r: Struct)
        ensures
            r@ == (StructView {
                variable: Seq::<char>::empty(),
                name: name@,
                fields: fields.deep_view(),
                values: Seq::<Seq<char>>::empty(),
            }),
    {
        let values: Vec<String> = Vec::new();
        assert(values.deep_view() =~= Seq::<Seq<char>>::empty());
        Struct { variable: String::new(), name: name.to_owned(), fields, values }
    }

    /// The type's name.
    pub fn get_name(&self) -> (r: &str)
        ensures
            r@ == self@.name,
    {
        self.name.as_str()
    }

    /// Binds the struct to a variable.
    pub fn set_variable(&mut self, variable: &str)
        ensures
            final(self)@ == (StructView { variable: variable@, ..old(self)@ }),
    {
        self.variable = variable.to_owned();
    }

    /// The variable that the struct is bound to; empty where it is bound to
    /// none.
    pub fn get_variable(&self) -> (r: &str)
        ensures
            r@ == self@.variable,
    {
        self.variable.as_str()
    }

    /// Replaces the values.
    pub fn set_values(&mut self, values: Vec<String>)
        ensures
            final(self)@ == (StructView { values: values.deep_view(), ..old(self)@ }),
    {
        self.values = values;
    }

    /// The struct as an object literal: `{"a":1,"b":2}` for the fields `:a`,
    /// `:b` and the values `1`, `2`. Fields and values are paired by position;
    /// what has no partner in the other list is left out.
    pub fn to_json(&self) -> (r: String)
        ensures
            r@ == render(self@.fields, self@.values),
    {
        let n: usize = if self.fields.len() <= self.values.len() {
            self.fields.len()
        } else {
            self.values.len()
        };
        let ghost fields = self@.fields;
        let ghost values = self@.values;
        let mut pairs: Vec<Vec<char>> = Vec::new();
        let mut i: usize = 0;
        while i < n
            invariant
                i <= n,
                n <= self.fields.len(),
                n <= self.values.len(),
                fields == self.fields.deep_view(),
                values == self.values.deep_view(),
                n == render_pairs(fields, values).len(),
                views(pairs@) == render_pairs(fields, values).take(i as int),
            decreases n - i,
        {
            let field = chars_of(self.fields[i].as_str());
            let value = chars_of(self.values[i].as_str());
            let label = if field.len() > 0 {
                slice(&field, 1, field.len())
            } else {
                field
            };
            let mut pair: Vec<char> = Vec::new();
            pair.push('"');
            append(&mut pair, &label);
            pair.push('"');
            pair.push(':');
            append(&mut pair, &value);
            assert(pair@ == render_pair(fields[i as int], values[i as int]));
            let ghost before = views(pairs@);
            pairs.push(pair);
            assert(views(pairs@) =~= before.push(render_pair(fields[i as int], values[i as int])));
            i += 1;
        }
        assert(render_pairs(fields, values).take(n as int) == render_pairs(fields, values));
        let mut comma: Vec<char> = Vec::new();
        comma.push(',');
        let inner = join_with(&pairs, &comma);
        let mut out: Vec<char> = Vec::new();
        out.push('{');
        append(&mut out, &inner);
        out.push('}');
        string_of(&out)
    }
}

} // verus!
