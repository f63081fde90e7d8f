//! Columns and the fields inside them.

use vstd::prelude::*;

use crate::show::rows::{ShowColumnRow, ShowColumnRowModel};
use crate::util::id_map::{duplicate_opt, opt_view, views, Entry};
use crate::util::lists::image;

verus! {

/// The type of a column: a struct, or a type that has a name.
#[derive(Debug, PartialEq, Eq)]
pub enum DataType {
    Struct,
    Named(String),
}

/// The mathematical model of [`DataType`].
#[verifier::ext_equal]
pub enum DataTypeModel {
    Struct,
    Named(Seq<char>),
}

impl View for DataType {
    type V = DataTypeModel;

    open spec fn view(&self) -> DataTypeModel {
        match *self {
            DataType::Struct => DataTypeModel::Struct,
            DataType::Named(name) => DataTypeModel::Named(name@),
        }
    }
}

impl Entry for DataType {
    fn duplicate(&self) -> (r: Self) {
        match self {
            DataType::Struct => DataType::Struct,
            DataType::Named(name) => DataType::Named(name.clone()),
        }
    }
}

/// A column with the fields inside it. `type_text` is the name of a struct.
#[derive(Debug, PartialEq, Eq)]
pub struct ColumnDesc {
    pub column_id: u32,
    pub name: String,
    pub data_type: DataType,
    pub field_descs: Vec<ColumnDesc>,
    pub type_text: String,
    pub description: Option<String>,
}

/// The mathematical model of [`ColumnDesc`].
#[verifier::ext_equal]
pub struct ColumnDescModel {
    pub column_id: u32,
    pub name: Seq<char>,
    pub data_type: DataTypeModel,
    pub field_descs: Seq<ColumnDescModel>,
    pub type_text: Seq<char>,
    pub description: Option<Seq<char>>,
}

impl ColumnDesc {
    pub open spec fn model(self) -> ColumnDescModel
        decreases self,
    {
        ColumnDescModel {
            column_id: self.column_id,
            name: self.name@,
            data_type: self.data_type@,
            field_descs: desc_models(self.field_descs@),
            type_text: self.type_text@,
            description: opt_view(self.description),
        }
    }
}

pub open spec fn desc_models(q: Seq<ColumnDesc>) -> Seq<ColumnDescModel>
    decreases q,
{
    if q.len() == 0 {
        Seq::empty()
    } else {
        desc_models(q.drop_last()).push(q.last().model())
    }
}

impl View for ColumnDesc {
    type V = ColumnDescModel;

    open spec fn view(&self) -> ColumnDescModel {
        self.model()
    }
}

proof fn lemma_desc_models(q: Seq<ColumnDesc>)
    ensures
        desc_models(q) == views(q),
    decreases q.len(),
{
    if q.len() > 0 {
        lemma_desc_models(q.drop_last());
        assert forall|i: int| 0 <= i < q.len() - 1 implies views(q)[i] == views(q.drop_last())[i] by {
            assert(q.drop_last()[i] == q[i]);
        }
    }
    assert(desc_models(q) =~= views(q));
}

impl Entry for ColumnDesc {
    fn duplicate(&self) -> (r: Self)
        decreases self,
    {
        let mut field_descs: Vec<ColumnDesc> = Vec::new();
        let mut i: usize = 0;
        while i < self.field_descs.len()
            invariant
                i <= self.field_descs.len(),
                field_descs@.len() == i,
                forall|k: int| 0 <= k < i ==> field_descs@[k]@ == self.field_descs@[k]@,
            decreases self.field_descs.len() - i,
        {
            field_descs.push(self.field_descs[i].duplicate());
            i = i + 1;
        }
        proof {
            lemma_desc_models(field_descs@);
            lemma_desc_models(self.field_descs@);
            assert(views(field_descs@) =~= views(self.field_descs@));
        }
        ColumnDesc {
            column_id: self.column_id,
            name: self.name.clone(),
            data_type: self.data_type.duplicate(),
            field_descs,
            type_text: self.type_text.clone(),
            description: duplicate_opt(&self.description),
        }
    }
}

/// A column of a relation.
#[derive(Debug, PartialEq, Eq)]
pub struct ColumnCatalog {
    pub column_desc: ColumnDesc,
    pub is_hidden: bool,
}

/// The mathematical model of [`ColumnCatalog`].
#[verifier::ext_equal]
pub struct ColumnCatalogModel {
    pub column_desc: ColumnDescModel,
    pub is_hidden: bool,
}

impl View for ColumnCatalog {
    type V = ColumnCatalogModel;

    open spec fn view(&self) -> ColumnCatalogModel {
        ColumnCatalogModel { column_desc: self.column_desc@, is_hidden: self.is_hidden }
    }
}

impl Entry for ColumnCatalog {
    fn duplicate(&self) -> (r: Self) {
        ColumnCatalog { column_desc: self.column_desc.duplicate(), is_hidden: self.is_hidden }
    }
}

// ---------------------------------------------------------------------------
// A column and all fields inside it.
// ---------------------------------------------------------------------------

/// A column under the name `name`, then all fields inside it, each under its path.
pub open spec fn flattened(name: Seq<char>, d: ColumnDescModel) -> Seq<ColumnDescModel>
    decreases d,
{
    seq![ColumnDescModel { name, ..d }] + flattened_all(name, d.field_descs)
}

pub open spec fn flattened_all(prefix: Seq<char>, q: Seq<ColumnDescModel>) -> Seq<ColumnDescModel>
    decreases q,
{
    if q.len() == 0 {
        Seq::empty()
    } else {
        flattened_all(prefix, q.drop_last()) + flattened(
            prefix + "."@ + q.last().name,
            q.last(),
        )
    }
}

/// The row of one column.
pub open spec fn column_row(is_hidden: bool, d: ColumnDescModel) -> ShowColumnRowModel {
    ShowColumnRowModel {
        name: d.name,
        type_text: match d.data_type {
            DataTypeModel::Struct => d.type_text,
            DataTypeModel::Named(name) => name,
        },
        is_hidden: Some(
            if is_hidden {
                "true"@
            } else {
                "false"@
            },
        ),
        description: d.description,
    }
}

/// The rows of a column: one for itself and one for each field inside it.
pub open spec fn column_rows(c: ColumnCatalogModel) -> Seq<ShowColumnRowModel> {
    image(
        flattened(c.column_desc.name, c.column_desc),
        |d: ColumnDescModel| column_row(c.is_hidden, d),
    )
}

impl ColumnDesc {
    /// Appends the column under the name `name`, and then all fields inside it under their paths.
    fn flatten_into(&self, name: String, r: &mut Vec<ColumnDesc>)
        ensures
            views(final(r)@) == views(old(r)@) + flattened(name@, self@),
        decreases self,
    {
        let ghost before = views(r@);
        let ghost q = self.field_descs@;
        let ghost own = before + seq![ColumnDescModel { name: name@, ..self@ }];
        let copy = self.duplicate();
        let head = ColumnDesc {
            column_id: copy.column_id,
            name: name.clone(),
            data_type: copy.data_type,
            field_descs: copy.field_descs,
            type_text: copy.type_text,
            description: copy.description,
        };
        r.push(head);
        assert(views(r@) =~= own);
        let mut i: usize = 0;
        assert(desc_models(q.take(0)) =~= Seq::empty());
        assert(own + flattened_all(name@, desc_models(q.take(0))) =~= own);
        while i < self.field_descs.len()
            invariant
                i <= self.field_descs.len(),
                q == self.field_descs@,
                views(r@) == own + flattened_all(name@, desc_models(q.take(i as int))),
            decreases self.field_descs.len() - i,
        {
            let mut path = name.clone();
            path.append(".");
            path.append(self.field_descs[i].name.as_str());
            self.field_descs[i].flatten_into(path, r);
            proof {
                assert(q.take(i + 1).drop_last() =~= q.take(i as int));
                assert(q.take(i + 1).last() == q[i as int]);
                let taken = desc_models(q.take(i + 1));
                assert(taken.drop_last() =~= desc_models(q.take(i as int)));
                assert(path@ =~= name@ + "."@ + q[i as int].model().name);
                assert(views(r@) =~= own + flattened_all(name@, taken));
            }
            i = i + 1;
        }
        assert(q.take(i as int) =~= q);
        assert(views(r@) =~= before + flattened(name@, self@));
    }

    /// The column, then all fields inside it, each under its path.
    pub fn flatten(&self) -> (r: Vec<ColumnDesc>)
        ensures
            views(r@) == flattened(self@.name, self@),
    {
        let mut r: Vec<ColumnDesc> = Vec::new();
        assert(views(r@) =~= Seq::empty());
        self.flatten_into(self.name.clone(), &mut r);
        assert(views(r@) =~= flattened(self@.name, self@));
        r
    }
}

impl ShowColumnRow {
    /// The rows of a column: one for itself and one for each field inside it.
    pub fn from_catalog(col: ColumnCatalog) -> (r: Vec<ShowColumnRow>)
        ensures
            views(r@) == column_rows(col@),
    {
        let flat = col.column_desc.flatten();
        let ghost q = views(flat@);
        let mut r: Vec<ShowColumnRow> = Vec::new();
        let mut i: usize = 0;
        while i < flat.len()
            invariant
                i <= flat.len(),
                q == views(flat@),
                r@.len() == i,
                forall|k: int| 0 <= k < i ==> (#[trigger] r@[k])@ == column_row(col@.is_hidden, q[k]),
            decreases flat.len() - i,
        {
            let c = &flat[i];
            assert(q[i as int] == c@);
            let type_text = match &c.data_type {
                DataType::Struct => c.type_text.clone(),
                DataType::Named(name) => name.clone(),
            };
            let is_hidden = if col.is_hidden {
                String::from_str("true")
            } else {
                String::from_str("false")
            };
            r.push(
                ShowColumnRow {
                    name: c.name.clone(),
                    type_text,
                    is_hidden: Some(is_hidden),
                    description: duplicate_opt(&c.description),
                },
            );
            i = i + 1;
        }
        assert(views(r@) =~= column_rows(col@));
        r
    }
}

// ---------------------------------------------------------------------------
// The columns of a view.
// ---------------------------------------------------------------------------

/// A column of a view, with the fields inside it.
#[derive(Debug, PartialEq, Eq)]
pub struct Field {
    pub name: String,
    pub data_type: DataType,
    pub sub_fields: Vec<Field>,
    pub type_text: String,
}

/// The mathematical model of [`Field`].
#[verifier::ext_equal]
pub struct FieldModel {
    pub name: Seq<char>,
    pub data_type: DataTypeModel,
    pub sub_fields: Seq<FieldModel>,
    pub type_text: Seq<char>,
}

impl Field {
    pub open spec fn model(self) -> FieldModel
        decreases self,
    {
        FieldModel {
            name: self.name@,
            data_type: self.data_type@,
            sub_fields: field_models(self.sub_fields@),
            type_text: self.type_text@,
        }
    }
}

pub open spec fn field_models(q: Seq<Field>) -> Seq<FieldModel>
    decreases q,
{
    if q.len() == 0 {
        Seq::empty()
    } else {
        field_models(q.drop_last()).push(q.last().model())
    }
}

impl View for Field {
    type V = FieldModel;

    open spec fn view(&self) -> FieldModel {
        self.model()
    }
}

/// The column that a field of a view makes, with the identifier `id`. The fields inside it have
/// the identifier 0.
pub open spec fn desc_of_field(f: FieldModel, id: u32) -> ColumnDescModel
    decreases f,
{
    ColumnDescModel {
        column_id: id,
        name: f.name,
        data_type: f.data_type,
        field_descs: descs_of_fields(f.sub_fields),
        type_text: f.type_text,
        description: None,
    }
}

pub open spec fn descs_of_fields(q: Seq<FieldModel>) -> Seq<ColumnDescModel>
    decreases q,
{
    if q.len() == 0 {
        Seq::empty()
    } else {
        descs_of_fields(q.drop_last()).push(desc_of_field(q.last(), 0))
    }
}

impl ColumnDesc {
    pub fn from_field_with_column_id(field: &Field, id: u32) -> (r: ColumnDesc)
        ensures
            r@ == desc_of_field(field@, id),
        decreases field,
    {
        let ghost q = field.sub_fields@;
        let mut field_descs: Vec<ColumnDesc> = Vec::new();
        let mut i: usize = 0;
        assert(field_models(q.take(0)) =~= Seq::empty());
        assert(desc_models(field_descs@) =~= Seq::empty());
        while i < field.sub_fields.len()
            invariant
                i <= field.sub_fields.len(),
                q == field.sub_fields@,
                desc_models(field_descs@) == descs_of_fields(field_models(q.take(i as int))),
            decreases field.sub_fields.len() - i,
        {
            let ghost before = field_descs@;
            let desc = ColumnDesc::from_field_with_column_id(&field.sub_fields[i], 0);
            field_descs.push(desc);
            proof {
                assert(field_descs@.drop_last() =~= before);
                assert(q.take(i + 1).drop_last() =~= q.take(i as int));
                assert(q.take(i + 1).last() == q[i as int]);
                let taken = field_models(q.take(i + 1));
                assert(taken.drop_last() =~= field_models(q.take(i as int)));
            }
            i = i + 1;
        }
        assert(q.take(i as int) =~= q);
        ColumnDesc {
            column_id: id,
            name: field.name.clone(),
            data_type: field.data_type.duplicate(),
            field_descs,
            type_text: field.type_text.clone(),
            description: None,
        }
    }
}

} // verus!
