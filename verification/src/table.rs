//! Table names and the columns a scan reads.

use vstd::prelude::*;

use crate::text::same_text;

verus! {

/// A table's name, as far as it is qualified.
#[derive(Debug, PartialEq, Eq)]
pub enum TableReference {
    /// A table name alone.
    Bare { table: String },
    /// A table name in a schema.
    Partial { schema: String, table: String },
    /// A table name in a schema of a catalog.
    Full { catalog: String, schema: String, table: String },
}

impl View for TableReference {
    type V = Seq<Seq<char>>;

    /// The parts of the name, the table last.
    open spec fn view(&self) -> Seq<Seq<char>> {
        match self {
            TableReference::Bare { table } => seq![table@],
            TableReference::Partial { schema, table } => seq![schema@, table@],
            TableReference::Full { catalog, schema, table } => seq![catalog@, schema@, table@],
        }
    }
}

/// A table name's text: its parts with dots between them.
pub open spec fn dotted(parts: Seq<Seq<char>>) -> Seq<char>
    decreases parts.len(),
{
    if parts.len() == 0 {
        Seq::empty()
    } else if parts.len() == 1 {
        parts[0]
    } else {
        dotted(parts.drop_last()) + seq!['.'] + parts.last()
    }
}

impl TableReference {
    /// A table name alone.
    pub fn bare(table: &str) -> (r: Self)
        ensures
            r@ == seq![table@],
    {
        TableReference::Bare { table: table.to_owned() }
    }

    /// A table name in a schema.
    pub fn partial(schema: &str, table: &str) -> (r: Self)
        ensures
            r@ == seq![schema@, table@],
    {
        TableReference::Partial { schema: schema.to_owned(), table: table.to_owned() }
    }

    /// A table name in a schema of a catalog.
    pub fn full(catalog: &str, schema: &str, table: &str) -> (r: Self)
        ensures
            r@ == seq![catalog@, schema@, table@],
    {
        TableReference::Full {
            catalog: catalog.to_owned(),
            schema: schema.to_owned(),
            table: table.to_owned(),
        }
    }

    /// The table's own name, whatever its qualification.
    pub fn table(&self) -> (r: &str)
        ensures
            r@ == self@.last(),
    {
        match self {
            TableReference::Bare { table } => table.as_str(),
            TableReference::Partial { table, .. } => table.as_str(),
            TableReference::Full { table, .. } => table.as_str(),
        }
    }

    /// Whether two references have the same parts.
    pub fn same(&self, other: &TableReference) -> (r: bool)
        ensures
            r == (self@ == other@),
    {
        match (self, other) {
            (TableReference::Bare { table: t1 }, TableReference::Bare { table: t2 }) => {
                proof {
                    assert(self@ == other@ <==> self@[0] == other@[0]);
                }
                *t1 == *t2
            },
            (
                TableReference::Partial { schema: s1, table: t1 },
                TableReference::Partial { schema: s2, table: t2 },
            ) => {
                proof {
                    if self@[0] == other@[0] && self@[1] == other@[1] {
                        assert(self@ =~= other@);
                    }
                }
                *s1 == *s2 && *t1 == *t2
            },
            (
                TableReference::Full { catalog: c1, schema: s1, table: t1 },
                TableReference::Full { catalog: c2, schema: s2, table: t2 },
            ) => {
                proof {
                    if self@[0] == other@[0] && self@[1] == other@[1] && self@[2] == other@[2] {
                        assert(self@ =~= other@);
                    }
                }
                *c1 == *c2 && *s1 == *s2 && *t1 == *t2
            },
            _ => {
                assert(self@.len() != other@.len());
                false
            },
        }
    }

    /// The reference's text, its parts with dots between them.
    pub fn to_text(&self) -> (r: String)
        ensures
            r@ == dotted(self@),
    {
        proof {
            reveal_with_fuel(dotted, 4);
            reveal_strlit(".");
        }
        match self {
            TableReference::Bare { table } => table.clone(),
            TableReference::Partial { schema, table } => {
                let mut text = schema.clone();
                text.append(".");
                text.append(table.as_str());
                proof {
                    assert(self@.drop_last() =~= seq![schema@]);
                    assert(text@ =~= dotted(self@));
                }
                text
            },
            TableReference::Full { catalog, schema, table } => {
                let mut text = catalog.clone();
                text.append(".");
                text.append(schema.as_str());
                text.append(".");
                text.append(table.as_str());
                proof {
                    assert(self@.drop_last() =~= seq![catalog@, schema@]);
                    assert(self@.drop_last().drop_last() =~= seq![catalog@]);
                    assert(text@ =~= dotted(self@));
                }
                text
            },
        }
    }
}

impl Clone for TableReference {
    fn clone(&self) -> (r: Self)
        ensures
            r@ == self@,
    {
        match self {
            TableReference::Bare { table } => TableReference::Bare { table: table.clone() },
            TableReference::Partial { schema, table } => TableReference::Partial {
                schema: schema.clone(),
                table: table.clone(),
            },
            TableReference::Full { catalog, schema, table } => TableReference::Full {
                catalog: catalog.clone(),
                schema: schema.clone(),
                table: table.clone(),
            },
        }
    }
}

/// One column of a scan's output.
#[derive(Debug, PartialEq, Eq)]
pub struct Field {
    /// The relation the column is qualified with, if any.
    pub qualifier: Option<TableReference>,
    /// The column's name.
    pub name: String,
    /// The column's data type, by its name.
    pub data_type: String,
}

/// The mathematical model of a [`Field`].
#[verifier::ext_equal]
pub struct FieldModel {
    pub qualifier: Option<Seq<Seq<char>>>,
    pub name: Seq<char>,
    pub data_type: Seq<char>,
}

/// The model of an optional table name.
pub open spec fn qualifier_model(qualifier: Option<TableReference>) -> Option<Seq<Seq<char>>> {
    match qualifier {
        Some(table) => Some(table@),
        None => None,
    }
}

impl View for Field {
    type V = FieldModel;

    open spec fn view(&self) -> FieldModel {
        FieldModel {
            qualifier: qualifier_model(self.qualifier),
            name: self.name@,
            data_type: self.data_type@,
        }
    }
}

/// The names of a list of fields.
pub open spec fn field_names(fields: Seq<Field>) -> Seq<Seq<char>> {
    Seq::new(fields.len(), |i: int| fields[i].name@)
}

/// The models of a list of fields.
pub open spec fn field_models(fields: Seq<Field>) -> Seq<FieldModel> {
    Seq::new(fields.len(), |i: int| fields[i]@)
}

/// The names of modelled columns, in order.
pub open spec fn model_names(fields: Seq<FieldModel>) -> Seq<Seq<char>> {
    Seq::new(fields.len(), |i: int| fields[i].name)
}

/// A copy of an optional table name.
pub fn clone_qualifier(qualifier: &Option<TableReference>) -> (r: Option<TableReference>)
    ensures
        qualifier_model(r) == qualifier_model(*qualifier),
{
    match qualifier {
        Some(table) => Some(table.clone()),
        None => None,
    }
}

impl Clone for Field {
    fn clone(&self) -> (r: Self)
        ensures
            r@ == self@,
    {
        Field {
            qualifier: clone_qualifier(&self.qualifier),
            name: self.name.clone(),
            data_type: self.data_type.clone(),
        }
    }
}

} // verus!
