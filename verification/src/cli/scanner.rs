//! Declarative migrations: the models that a project's sources declare,
//! and the SQL that brings a database's tables in line with them.
use vstd::prelude::*;
use quote::ToTokens;
use crate::db::query::DatabaseType;
use crate::db::schema::{column_sql, create_sql, ColumnSchema, ColumnType, TableSchema};
use crate::text::{
    chars_of, concat, contains, ends_with, find_spec, find_str_from, lemma_find_spec, occurs_at,
    owned, push_str, starts_with, str_contains, str_ends_with, str_eq, str_starts_with,
    string_of_range, to_lowercase, unicode_lowercase, utf8_width, utf8_width_exec,
};

verus! {

/// A struct found in a source file: its name, its attributes (the path's
/// single identifier, if any, and the attribute's tokens as text) and, when
/// its fields are named, each field's name and type as token text.
#[derive(Debug)]
pub struct ScannedStruct {
    pub ident: String,
    pub attrs: Vec<(Option<String>, String)>,
    pub fields: Option<Vec<(String, String)>>,
}

/// A scanned struct as plain values.
pub struct StructView {
    pub ident: Seq<char>,
    pub attrs: Seq<(Option<Seq<char>>, Seq<char>)>,
    pub fields: Option<Seq<(Seq<char>, Seq<char>)>>,
}

pub open spec fn opt_text(o: Option<String>) -> Option<Seq<char>> {
    match o {
        Some(s) => Some(s@),
        None => None,
    }
}

pub open spec fn attr_views(a: Seq<(Option<String>, String)>) -> Seq<(Option<Seq<char>>, Seq<char>)> {
    a.map_values(|p: (Option<String>, String)| (opt_text(p.0), p.1@))
}

pub open spec fn field_views(f: Seq<(String, String)>) -> Seq<(Seq<char>, Seq<char>)> {
    f.map_values(|p: (String, String)| (p.0@, p.1@))
}

impl View for ScannedStruct {
    type V = StructView;

    open spec fn view(&self) -> StructView {
        StructView {
            ident: self.ident@,
            attrs: attr_views(self.attrs@),
            fields: match self.fields {
                Some(f) => Some(field_views(f@)),
                None => None,
            },
        }
    }
}

/// Names what `syn::parse_file` makes of a source text: the token text of
/// each of its items, in order, or the text of the parse error.
pub uninterp spec fn item_texts(content: Seq<char>) -> Result<Seq<Seq<char>>, Seq<char>>;

/// `syn::parse_file`, with each item written back as its token text.
#[verifier::external_body]
fn parse_item_texts(content: &str) -> (r: Result<Vec<String>, String>)
    ensures
        match r {
            Ok(v) => item_texts(content@) == Ok::<Seq<Seq<char>>, Seq<char>>(v@.map_values(|t: String| t@)),
            Err(m) => item_texts(content@) == Err::<Seq<Seq<char>>, Seq<char>>(m@),
        },
{
    match syn::parse_file(content) {
        Ok(file) => Ok(file.items.iter().map(|item| item.to_token_stream().to_string()).collect()),
        Err(e) => Err(e.to_string()),
    }
}

/// Names what `syn::parse_str::<syn::ItemStruct>` makes of an item's token
/// text: the struct as plain values, or none when the item is no struct.
pub uninterp spec fn item_struct(text: Seq<char>) -> Option<StructView>;

/// `syn::parse_str::<syn::ItemStruct>`, keeping the struct as plain values.
#[verifier::external_body]
fn parse_struct_item(text: &str) -> (r: Option<ScannedStruct>)
    ensures
        match r {
            Some(s) => item_struct(text@) == Some(s@),
            None => item_struct(text@) is None,
        },
{
    let s = syn::parse_str::<syn::ItemStruct>(text).ok()?;
    Some(ScannedStruct {
        ident: s.ident.to_string(),
        attrs: s.attrs.iter().map(|a| (a.path().get_ident().map(ToString::to_string), a.to_token_stream().to_string())).collect(),
        fields: match &s.fields {
            syn::Fields::Named(f) => Some(f.named.iter().map(|f| (f.ident.as_ref().map(ToString::to_string).unwrap_or_default(), f.ty.to_token_stream().to_string())).collect()),
            _ => None,
        },
    })
}

/// The structs among items given by their token text, in order.
pub open spec fn structs_of_items(texts: Seq<Seq<char>>) -> Seq<StructView>
    decreases texts.len(),
{
    if texts.len() == 0 {
        Seq::empty()
    } else {
        structs_of_items(texts.drop_last()) + match item_struct(texts.last()) {
            Some(st) => seq![st],
            None => Seq::empty(),
        }
    }
}

/// The structs of a source text, in order, or the parse error's text.
pub open spec fn parsed_structs(content: Seq<char>) -> Result<Seq<StructView>, Seq<char>> {
    match item_texts(content) {
        Ok(texts) => Ok(structs_of_items(texts)),
        Err(m) => Err(m),
    }
}

/// The structs of a source text, or the parser's message.
fn parse_structs(content: &str) -> (r: Result<Vec<ScannedStruct>, String>)
    ensures
        match r {
            Ok(v) => parsed_structs(content@) == Ok::<Seq<StructView>, Seq<char>>(v@.map_values(|s: ScannedStruct| s@)),
            Err(m) => parsed_structs(content@) == Err::<Seq<StructView>, Seq<char>>(m@),
        },
{
    let texts = match parse_item_texts(content) {
        Ok(t) => t,
        Err(m) => {
            return Err(m);
        },
    };
    let ghost tv = texts@.map_values(|t: String| t@);
    let mut out: Vec<ScannedStruct> = Vec::new();
    let mut i: usize = 0;
    while i < texts.len()
        invariant
            i <= texts@.len(),
            tv == texts@.map_values(|t: String| t@),
            out@.map_values(|s: ScannedStruct| s@) == structs_of_items(tv.take(i as int)),
        decreases texts.len() - i,
    {
        let ghost before = out@.map_values(|s: ScannedStruct| s@);
        proof {
            assert(tv.take(i + 1).drop_last() =~= tv.take(i as int));
            assert(tv.take(i + 1).last() == texts@[i as int]@);
        }
        match parse_struct_item(texts[i].as_str()) {
            Some(st) => {
                out.push(st);
                proof {
                    assert(out@.map_values(|s: ScannedStruct| s@) =~= before + seq![out@.last()@]);
                }
            },
            None => {
                proof {
                    assert(before + Seq::<StructView>::empty() =~= before);
                }
            },
        }
        i = i + 1;
    }
    proof {
        assert(tv.take(texts@.len() as int) =~= tv);
    }
    Ok(out)
}

/// A struct is a model when one of its `derive` attributes mentions
/// `Model`.
pub open spec fn is_model(attrs: Seq<(Option<Seq<char>>, Seq<char>)>) -> bool {
    exists|i: int|
        0 <= i < attrs.len() && (#[trigger] attrs[i]).0 == Some("derive"@) && contains(attrs[i].1, "Model"@)
}

/// The quoted value after `key` in an attribute's text: the text between
/// the end of the first `key` and the next `"`.
pub open spec fn quoted_after(text: Seq<char>, key: Seq<char>) -> Option<Seq<char>> {
    match find_spec(text, key, 0) {
        None => None,
        Some(start) => {
            let rest = text.skip(start + key.len());
            match find_spec(rest, "\""@, 0) {
                None => None,
                Some(end) => Some(rest.take(end)),
            }
        },
    }
}

/// The table named by one `model` attribute's text: `table_name = "..."`
/// first, then `table = "..."`.
pub open spec fn attr_table(text: Seq<char>) -> Option<Seq<char>> {
    match quoted_after(text, "table_name = \""@) {
        Some(t) => Some(t),
        None => quoted_after(text, "table = \""@),
    }
}

/// The table of a model: the first `model` attribute that names one, else
/// the lowercased struct name with an `s`.
pub open spec fn table_from_attrs(attrs: Seq<(Option<Seq<char>>, Seq<char>)>, lowered: Seq<char>) -> Seq<char>
    decreases attrs.len(),
{
    if attrs.len() == 0 {
        lowered + "s"@
    } else if attrs[0].0 == Some("model"@) && attr_table(attrs[0].1) is Some {
        attr_table(attrs[0].1)->0
    } else {
        table_from_attrs(attrs.drop_first(), lowered)
    }
}

fn quoted_after_exec(text: &str, key: &str) -> (r: Option<String>)
    ensures
        match r {
            Some(v) => quoted_after(text@, key@) == Some(v@),
            None => quoted_after(text@, key@) is None,
        },
{
    let vt = chars_of(text);
    let vk = chars_of(key);
    match find_str_from(&vt, &vk, 0) {
        None => None,
        Some(start) => {
            proof {
                lemma_find_spec(text@, key@, 0);
                assert(occurs_at(text@, key@, start as int));
            }
            assert(start + vk.len() <= vt.len());
            let rest = string_of_range(&vt, start + vk.len(), vt.len());
            assert(rest@ =~= text@.skip(start + key@.len()));
            let vr = chars_of(rest.as_str());
            let vq = chars_of("\"");
            match find_str_from(&vr, &vq, 0) {
                None => None,
                Some(end) => {
                    proof {
                        lemma_find_spec(rest@, "\""@, 0);
                    }
                    let v = string_of_range(&vr, 0, end);
                    assert(v@ =~= rest@.take(end as int));
                    Some(v)
                },
            }
        },
    }
}

fn attr_table_exec(text: &str) -> (r: Option<String>)
    ensures
        match r {
            Some(v) => attr_table(text@) == Some(v@),
            None => attr_table(text@) is None,
        },
{
    match quoted_after_exec(text, "table_name = \"") {
        Some(t) => Some(t),
        None => quoted_after_exec(text, "table = \""),
    }
}

/// The table of a scanned struct.
pub fn extract_table_name(s: &ScannedStruct) -> (r: String)
    ensures
        r@ == table_from_attrs(s@.attrs, unicode_lowercase(s@.ident)),
{
    let ghost av = attr_views(s.attrs@);
    let mut i: usize = 0;
    assert(av.skip(0) =~= av);
    while i < s.attrs.len()
        invariant
            i <= s.attrs@.len(),
            av == attr_views(s.attrs@),
            table_from_attrs(av, unicode_lowercase(s@.ident)) == table_from_attrs(
                av.skip(i as int),
                unicode_lowercase(s@.ident),
            ),
        decreases s.attrs.len() - i,
    {
        let ghost rest = av.skip(i as int);
        assert(rest[0] == (opt_text(s.attrs@[i as int].0), s.attrs@[i as int].1@));
        let is_model = match &s.attrs[i].0 {
            Some(p) => str_eq(p.as_str(), "model"),
            None => false,
        };
        if is_model {
            match attr_table_exec(s.attrs[i].1.as_str()) {
                Some(t) => {
                    return t;
                },
                None => {},
            }
        }
        assert(rest.drop_first() =~= av.skip(i + 1));
        i = i + 1;
    }
    let lower = to_lowercase(s.ident.as_str());
    concat(lower.as_str(), "s")
}

/// The column type of a type's token text, and whether it is nullable.
pub open spec fn column_of_type_text(t: Seq<char>) -> ColumnType {
    if t == "i64"@ {
        ColumnType::BigInt
    } else if t == "i32"@ {
        ColumnType::Int
    } else if t == "String"@ {
        ColumnType::Text
    } else if t == "bool"@ {
        ColumnType::Boolean
    } else if t == "f64"@ {
        ColumnType::Float
    } else if t == "DateTime < Utc >"@ || t == "chrono :: DateTime < chrono :: Utc >"@ {
        ColumnType::DateTime
    } else if t == "serde_json :: Value"@ || t == "Value"@ {
        ColumnType::Json
    } else if t == "uuid :: Uuid"@ || t == "Uuid"@ {
        ColumnType::Uuid
    } else {
        ColumnType::Text
    }
}

/// How many characters the byte slice `[8..len - 2]` leaves off the end
/// of a type text: the last two bytes must be whole characters, either one
/// character of two bytes or two of one byte each.
pub open spec fn option_tail_cut(t: Seq<char>) -> Option<int> {
    if t.len() >= 1 && utf8_width(t.last()) == 2 {
        Some(1)
    } else if t.len() >= 2 && utf8_width(t.last()) == 1 && utf8_width(t[t.len() - 2]) == 1 {
        Some(2)
    } else {
        None
    }
}

/// A type text that starts with `Option <` can be sliced `[8..len - 2]`:
/// the end falls between characters and not before the start.
pub open spec fn well_formed_option(t: Seq<char>) -> bool {
    starts_with(t, "Option <"@) ==> match option_tail_cut(t) {
        Some(k) => t.len() - k >= 8,
        None => false,
    }
}

/// The column of a field type's token text: a text that starts with
/// `Option <` is nullable, with the column of its bytes `[8..len - 2]`.
pub open spec fn column_of_field_type(t: Seq<char>) -> (ColumnType, bool) {
    if starts_with(t, "Option <"@) {
        (column_of_type_text(t.subrange(8, t.len() - option_tail_cut(t)->0)), true)
    } else {
        (column_of_type_text(t), false)
    }
}

/// Whether a type text can be taken apart (see `well_formed_option`).
fn option_text_ok(t: &str) -> (r: bool)
    ensures
        r == well_formed_option(t@),
{
    if !str_starts_with(t, "Option <") {
        return true;
    }
    let v = chars_of(t);
    let n = v.len();
    match tail_cut(&v) {
        Some(k) => n - k >= 8,
        None => false,
    }
}

fn tail_cut(v: &Vec<char>) -> (r: Option<usize>)
    ensures
        match r {
            Some(k) => option_tail_cut(v@) == Some(k as int) && k <= v@.len(),
            None => option_tail_cut(v@) is None,
        },
{
    let n = v.len();
    if n >= 1 && utf8_width_exec(v[n - 1]) == 2 {
        Some(1)
    } else if n >= 2 && utf8_width_exec(v[n - 1]) == 1 && utf8_width_exec(v[n - 2]) == 1 {
        Some(2)
    } else {
        None
    }
}

/// Models found by scanning.
#[derive(Debug)]
pub struct ModelScanner {
    models: Vec<TableSchema>,
}

impl ModelScanner {
    pub closed spec fn spec_models(&self) -> Seq<TableSchema> {
        self.models@
    }

    pub fn new() -> (r: ModelScanner)
        ensures
            r.spec_models().len() == 0,
    {
        ModelScanner { models: Vec::new() }
    }

    /// The column type of a type's token text (never nullable by itself).
    pub fn map_type_str(&self, ty: &str) -> (r: (ColumnType, bool))
        ensures
            r == (column_of_type_text(ty@), false),
    {
        let c = if str_eq(ty, "i64") {
            ColumnType::BigInt
        } else if str_eq(ty, "i32") {
            ColumnType::Int
        } else if str_eq(ty, "String") {
            ColumnType::Text
        } else if str_eq(ty, "bool") {
            ColumnType::Boolean
        } else if str_eq(ty, "f64") {
            ColumnType::Float
        } else if str_eq(ty, "DateTime < Utc >") || str_eq(ty, "chrono :: DateTime < chrono :: Utc >") {
            ColumnType::DateTime
        } else if str_eq(ty, "serde_json :: Value") || str_eq(ty, "Value") {
            ColumnType::Json
        } else if str_eq(ty, "uuid :: Uuid") || str_eq(ty, "Uuid") {
            ColumnType::Uuid
        } else {
            ColumnType::Text
        };
        (c, false)
    }

    /// The column of a field's type token text.
    pub fn map_type(&self, ty: &str) -> (r: (ColumnType, bool))
        requires
            well_formed_option(ty@),
        ensures
            r == column_of_field_type(ty@),
    {
        if str_starts_with(ty, "Option <") {
            let v = chars_of(ty);
            let k = match tail_cut(&v) {
                Some(k) => k,
                None => {
                    return (ColumnType::Text, true);
                },
            };
            let inner = string_of_range(&v, 8, v.len() - k);
            let (c, _) = self.map_type_str(inner.as_str());
            (c, true)
        } else {
            self.map_type_str(ty)
        }
    }

    /// The models scanned so far.
    pub fn models(&self) -> (r: &Vec<TableSchema>)
        ensures
            r@ == self.spec_models(),
    {
        &self.models
    }
}

/// `t` is the schema that scanning gives for the struct `s`.
pub open spec fn schema_of(s: StructView, t: TableSchema) -> bool {
    let fields = match s.fields {
        Some(f) => f,
        None => Seq::empty(),
    };
    &&& t.name@ == table_from_attrs(s.attrs, unicode_lowercase(s.ident))
    &&& t.columns@.len() == fields.len()
    &&& forall|i: int|
        0 <= i < fields.len() ==> {
            let c = #[trigger] t.columns@[i];
            &&& c.name@ == fields[i].0
            &&& (c.ty, c.nullable) == column_of_field_type(fields[i].1)
            &&& c.primary_key == (fields[i].0 == "id"@)
            &&& c.default is None
        }
}

/// The structs that are models, in order.
pub open spec fn model_structs(ss: Seq<StructView>) -> Seq<StructView>
    decreases ss.len(),
{
    if ss.len() == 0 {
        Seq::empty()
    } else if is_model(ss.last().attrs) {
        model_structs(ss.drop_last()).push(ss.last())
    } else {
        model_structs(ss.drop_last())
    }
}

/// Every field type of every model can be taken apart.
pub open spec fn types_well_formed(ss: Seq<StructView>) -> bool {
    forall|i: int|
        0 <= i < ss.len() && is_model((#[trigger] ss[i]).attrs) ==> match ss[i].fields {
            Some(f) => forall|j: int| 0 <= j < f.len() ==> well_formed_option(#[trigger] f[j].1),
            None => true,
        }
}

fn has_model_derive(attrs: &Vec<(Option<String>, String)>) -> (r: bool)
    ensures
        r == is_model(attr_views(attrs@)),
{
    let ghost av = attr_views(attrs@);
    let mut i: usize = 0;
    while i < attrs.len()
        invariant
            i <= attrs@.len(),
            av == attr_views(attrs@),
            forall|j: int|
                0 <= j < i ==> !((#[trigger] av[j]).0 == Some("derive"@) && contains(av[j].1, "Model"@)),
        decreases attrs.len() - i,
    {
        assert(av[i as int] == (opt_text(attrs@[i as int].0), attrs@[i as int].1@));
        let is_derive = match &attrs[i].0 {
            Some(p) => str_eq(p.as_str(), "derive"),
            None => false,
        };
        if is_derive && str_contains(attrs[i].1.as_str(), "Model") {
            assert(av[i as int].0 == Some("derive"@));
            return true;
        }
        i = i + 1;
    }
    false
}

fn extract_columns(scanner: &ModelScanner, s: &ScannedStruct) -> (r: Vec<ColumnSchema>)
    requires
        match s@.fields {
            Some(f) => forall|j: int| 0 <= j < f.len() ==> well_formed_option(#[trigger] f[j].1),
            None => true,
        },
    ensures
        ({
            let fields = match s@.fields {
                Some(f) => f,
                None => Seq::empty(),
            };
            &&& r@.len() == fields.len()
            &&& forall|i: int|
                0 <= i < fields.len() ==> {
                    let c = #[trigger] r@[i];
                    &&& c.name@ == fields[i].0
                    &&& (c.ty, c.nullable) == column_of_field_type(fields[i].1)
                    &&& c.primary_key == (fields[i].0 == "id"@)
                    &&& c.default is None
                }
        }),
{
    let mut r: Vec<ColumnSchema> = Vec::new();
    match &s.fields {
        None => {},
        Some(fields) => {
            let ghost fv = field_views(fields@);
            assert(s@.fields == Some(fv));
            proof {
                match s@.fields {
                    Some(f) => {
                        assert(f == fv);
                        assert forall|j: int| 0 <= j < fv.len() implies well_formed_option(#[trigger] fv[j].1) by {
                            assert(well_formed_option(f[j].1));
                        }
                    },
                    None => {},
                }
            }
            let mut i: usize = 0;
            while i < fields.len()
                invariant
                    i <= fields@.len(),
                    fv == field_views(fields@),
                    s@.fields == Some(fv),
                    forall|j: int| 0 <= j < fv.len() ==> well_formed_option(#[trigger] fv[j].1),
                    r@.len() == i,
                    forall|k: int|
                        0 <= k < i ==> {
                            let c = #[trigger] r@[k];
                            &&& c.name@ == fv[k].0
                            &&& (c.ty, c.nullable) == column_of_field_type(fv[k].1)
                            &&& c.primary_key == (fv[k].0 == "id"@)
                            &&& c.default is None
                        },
                decreases fields.len() - i,
            {
                assert(fv[i as int] == (fields@[i as int].0@, fields@[i as int].1@));
                assert(well_formed_option(fv[i as int].1));
                let (ty, nullable) = scanner.map_type(fields[i].1.as_str());
                let pk = str_eq(fields[i].0.as_str(), "id");
                r.push(
                    ColumnSchema {
                        name: owned(fields[i].0.as_str()),
                        ty,
                        nullable,
                        primary_key: pk,
                        default: None,
                    },
                );
                i = i + 1;
            }
        },
    }
    r
}

pub open spec fn struct_views(v: Seq<ScannedStruct>) -> Seq<StructView> {
    v.map_values(|s: ScannedStruct| s@)
}

impl ModelScanner {
    /// Adds the schema of every model among `structs`, in order.
    pub fn scan_structs(&mut self, structs: &Vec<ScannedStruct>)
        requires
            types_well_formed(struct_views(structs@)),
        ensures
            final(self).spec_models().len() == old(self).spec_models().len() + model_structs(
                struct_views(structs@),
            ).len(),
            forall|k: int|
                0 <= k < old(self).spec_models().len() ==> final(self).spec_models()[k] == old(
                    self,
                ).spec_models()[k],
            forall|k: int|
                0 <= k < model_structs(struct_views(structs@)).len() ==> schema_of(
                    model_structs(struct_views(structs@))[k],
                    #[trigger] final(self).spec_models()[old(self).spec_models().len() + k],
                ),
    {
        let ghost sv = struct_views(structs@);
        let ghost start = self.models@;
        let mut i: usize = 0;
        assert(sv.take(0) =~= Seq::<StructView>::empty());
        while i < structs.len()
            invariant
                i <= structs@.len(),
                sv == struct_views(structs@),
                types_well_formed(sv),
                self.models@.len() == start.len() + model_structs(sv.take(i as int)).len(),
                forall|k: int| 0 <= k < start.len() ==> self.models@[k] == start[k],
                forall|k: int|
                    0 <= k < model_structs(sv.take(i as int)).len() ==> schema_of(
                        model_structs(sv.take(i as int))[k],
                        #[trigger] self.models@[start.len() + k],
                    ),
            decreases structs.len() - i,
        {
            let ghost t = sv.take(i + 1);
            assert(t.drop_last() =~= sv.take(i as int));
            assert(t.last() == structs@[i as int]@);
            let st = &structs[i];
            assert(sv[i as int] == st@);
            if has_model_derive(&st.attrs) {
                let name = extract_table_name(st);
                let columns = extract_columns(self, st);
                let ghost before = self.models@;
                self.models.push(TableSchema { name, columns });
                assert forall|k: int| 0 <= k < model_structs(t).len() implies schema_of(
                    model_structs(t)[k],
                    #[trigger] self.models@[start.len() + k],
                ) by {
                    if k < model_structs(sv.take(i as int)).len() {
                        assert(self.models@[start.len() + k] == before[start.len() + k]);
                    } else {
                        assert(model_structs(t)[k] == st@);
                    }
                }
            }
            i = i + 1;
        }
        assert(sv.take(structs@.len() as int) =~= sv);
    }
}

/// Why scanning a source file failed.
#[derive(Debug)]
pub enum ScanError {
    /// The file is not valid Rust; the parser's message.
    Parse(String),
    /// A model field's type text starts with `Option <` but cannot be
    /// sliced `[8..len - 2]` (the slice would end inside a character or
    /// before it starts); the text.
    MalformedType(String),
}

fn check_types(structs: &Vec<ScannedStruct>) -> (r: Option<String>)
    ensures
        r is None <==> types_well_formed(struct_views(structs@)),
{
    let ghost sv = struct_views(structs@);
    let mut i: usize = 0;
    while i < structs.len()
        invariant
            i <= structs@.len(),
            sv == struct_views(structs@),
            forall|k: int|
                0 <= k < i && is_model((#[trigger] sv[k]).attrs) ==> match sv[k].fields {
                    Some(f) => forall|j: int| 0 <= j < f.len() ==> well_formed_option(#[trigger] f[j].1),
                    None => true,
                },
        decreases structs.len() - i,
    {
        assert(sv[i as int] == structs@[i as int]@);
        if has_model_derive(&structs[i].attrs) {
            match &structs[i].fields {
                None => {},
                Some(fields) => {
                    let ghost fv = field_views(fields@);
                    assert(sv[i as int].fields == Some(fv));
                    let mut j: usize = 0;
                    while j < fields.len()
                        invariant
                            j <= fields@.len(),
                            i < structs@.len(),
                            sv == struct_views(structs@),
                            fv == field_views(fields@),
                            sv[i as int].fields == Some(fv),
                            is_model(sv[i as int].attrs),
                            forall|m: int| 0 <= m < j ==> well_formed_option(#[trigger] fv[m].1),
                        decreases fields.len() - j,
                    {
                        assert(fv[j as int] == (fields@[j as int].0@, fields@[j as int].1@));
                        let t = fields[j].1.as_str();
                        if !option_text_ok(t) {
                            assert(!well_formed_option(fv[j as int].1));
                            proof {
                                if types_well_formed(sv) {
                                    let st = sv[i as int];
                                    match st.fields {
                                        Some(f) => {
                                            assert(f == fv);
                                            assert(well_formed_option(f[j as int].1));
                                        },
                                        None => {},
                                    }
                                    assert(false);
                                }
                            }
                            return Some(owned(t));
                        }
                        j = j + 1;
                    }
                },
            }
        }
        i = i + 1;
    }
    None
}

impl ModelScanner {
    /// Scans one source text for models; a text that does not parse, or
    /// holds a model field type that cannot be sliced, adds nothing.
    pub fn scan_source(&mut self, content: &str) -> (r: Result<(), ScanError>)
        ensures
            match parsed_structs(content@) {
                Err(m) => r matches Err(ScanError::Parse(x)) && x@ == m && final(self).spec_models()
                    == old(self).spec_models(),
                Ok(ss) => if types_well_formed(ss) {
                    &&& r is Ok
                    &&& final(self).spec_models().len() == old(self).spec_models().len()
                        + model_structs(ss).len()
                    &&& forall|k: int|
                        0 <= k < old(self).spec_models().len() ==> final(self).spec_models()[k]
                            == old(self).spec_models()[k]
                    &&& forall|k: int|
                        0 <= k < model_structs(ss).len() ==> schema_of(
                            model_structs(ss)[k],
                            #[trigger] final(self).spec_models()[old(self).spec_models().len() + k],
                        )
                } else {
                    r matches Err(ScanError::MalformedType(_)) && final(self).spec_models() == old(
                        self,
                    ).spec_models()
                },
            },
    {
        match parse_structs(content) {
            Err(m) => Err(ScanError::Parse(m)),
            Ok(structs) => {
                assert(struct_views(structs@) == structs@.map_values(|s: ScannedStruct| s@));
                match check_types(&structs) {
                    Some(t) => Err(ScanError::MalformedType(t)),
                    None => {
                        self.scan_structs(&structs);
                        Ok(())
                    },
                }
            },
        }
    }
}

/// A change between a model and its table.
#[derive(Debug)]
pub enum SchemaChange {
    NewColumn { table: String, column: String },
    DroppedColumn { table: String, column: String },
    NewTable { table: String },
}

/// A change as plain values.
pub enum ChangeView {
    NewColumn(Seq<char>, Seq<char>),
    DroppedColumn(Seq<char>, Seq<char>),
    NewTable(Seq<char>),
}

pub open spec fn change_view(c: SchemaChange) -> ChangeView {
    match c {
        SchemaChange::NewColumn { table, column } => ChangeView::NewColumn(table@, column@),
        SchemaChange::DroppedColumn { table, column } => ChangeView::DroppedColumn(table@, column@),
        SchemaChange::NewTable { table } => ChangeView::NewTable(table@),
    }
}

/// The SQL that moves a database to the models, and back, with the
/// changes found.
#[derive(Debug)]
pub struct MigrationDiff {
    pub up: String,
    pub down: String,
    pub changes: Vec<SchemaChange>,
}

/// What a diff holds: up SQL, down SQL and changes.
pub type DiffView = (Seq<char>, Seq<char>, Seq<ChangeView>);

pub open spec fn join_diff(a: DiffView, b: DiffView) -> DiffView {
    (a.0 + b.0, a.1 + b.1, a.2 + b.2)
}

pub open spec fn has_column(cols: Seq<ColumnSchema>, name: Seq<char>) -> bool {
    exists|i: int| 0 <= i < cols.len() && (#[trigger] cols[i]).name@ == name
}

/// A column's definition when it is added to a table.
pub open spec fn column_definition(c: ColumnSchema, db: DatabaseType) -> Seq<char> {
    c.name@ + " "@ + column_sql(c.ty, db) + (if !c.nullable {
        " NOT NULL"@
    } else {
        Seq::empty()
    }) + match c.default {
        Some(d) => " DEFAULT "@ + d@,
        None => Seq::empty(),
    }
}

/// The part of the diff for the first `n` columns of the model that the
/// table lacks.
pub open spec fn added_columns(model: TableSchema, n: int, current: Seq<ColumnSchema>, db: DatabaseType) -> DiffView
    decreases n,
{
    if n <= 0 {
        (Seq::empty(), Seq::empty(), Seq::empty())
    } else {
        let p = added_columns(model, n - 1, current, db);
        let c = model.columns@[n - 1];
        if !has_column(current, c.name@) {
            join_diff(
                p,
                (
                    "ALTER TABLE "@ + model.name@ + " ADD COLUMN "@ + column_definition(c, db) + ";\n"@,
                    "ALTER TABLE "@ + model.name@ + " DROP COLUMN "@ + c.name@ + ";\n"@,
                    seq![ChangeView::NewColumn(model.name@, c.name@)],
                ),
            )
        } else {
            p
        }
    }
}

/// The part of the diff for the first `n` columns of the table that the
/// model lacks; the down side only notes that the column must be restored
/// by hand.
pub open spec fn dropped_columns(model: TableSchema, current: Seq<ColumnSchema>, n: int) -> DiffView
    decreases n,
{
    if n <= 0 {
        (Seq::empty(), Seq::empty(), Seq::empty())
    } else {
        let p = dropped_columns(model, current, n - 1);
        let c = current[n - 1];
        if !has_column(model.columns@, c.name@) {
            join_diff(
                p,
                (
                    "ALTER TABLE "@ + model.name@ + " DROP COLUMN "@ + c.name@ + ";\n"@,
                    "-- TODO: Manual rollback for dropped column "@ + model.name@ + "."@ + c.name@
                        + "\n"@,
                    seq![ChangeView::DroppedColumn(model.name@, c.name@)],
                ),
            )
        } else {
            p
        }
    }
}

/// The diff of one model against its table, if the table exists.
pub open spec fn table_diff(model: TableSchema, current: Option<TableSchema>, db: DatabaseType) -> DiffView {
    match current {
        Some(cur) => join_diff(
            added_columns(model, model.columns@.len() as int, cur.columns@, db),
            dropped_columns(model, cur.columns@, cur.columns@.len() as int),
        ),
        None => (
            create_sql(model, db) + "\n"@,
            "DROP TABLE "@ + model.name@ + ";\n"@,
            seq![ChangeView::NewTable(model.name@)],
        ),
    }
}

/// The diff of the first `n` models against their tables.
pub open spec fn schema_diff(models: Seq<TableSchema>, current: Seq<Option<TableSchema>>, n: int, db: DatabaseType) -> DiffView
    decreases n,
{
    if n <= 0 {
        (Seq::empty(), Seq::empty(), Seq::empty())
    } else {
        join_diff(schema_diff(models, current, n - 1, db), table_diff(models[n - 1], current[n - 1], db))
    }
}

pub open spec fn diff_view(d: MigrationDiff) -> DiffView {
    (d.up@, d.down@, d.changes@.map_values(|c: SchemaChange| change_view(c)))
}

fn column_present(cols: &Vec<ColumnSchema>, name: &str) -> (r: bool)
    ensures
        r == has_column(cols@, name@),
{
    let mut i: usize = 0;
    while i < cols.len()
        invariant
            i <= cols@.len(),
            forall|j: int| 0 <= j < i ==> (#[trigger] cols@[j]).name@ != name@,
        decreases cols.len() - i,
    {
        if str_eq(cols[i].name.as_str(), name) {
            return true;
        }
        i = i + 1;
    }
    false
}

fn column_definition_exec(c: &ColumnSchema, db: DatabaseType) -> (r: String)
    ensures
        r@ == column_definition(*c, db),
{
    let mut r = concat(c.name.as_str(), " ");
    let t = c.ty.to_sql(db);
    push_str(&mut r, t.as_str());
    if !c.nullable {
        push_str(&mut r, " NOT NULL");
    }
    match &c.default {
        Some(d) => {
            push_str(&mut r, " DEFAULT ");
            push_str(&mut r, d.as_str());
        },
        None => {},
    }
    proof {
        reveal_strlit("");
    }
    r
}

fn push_change(v: &mut Vec<SchemaChange>, c: SchemaChange)
    ensures
        final(v)@.map_values(|x: SchemaChange| change_view(x)) == old(v)@.map_values(
            |x: SchemaChange| change_view(x),
        ).push(change_view(c)),
{
    let ghost before = v@;
    let ghost cv = change_view(c);
    v.push(c);
    assert(v@.map_values(|x: SchemaChange| change_view(x)) =~= before.map_values(
        |x: SchemaChange| change_view(x),
    ).push(cv));
}

fn diff_table(d: &mut MigrationDiff, model: &TableSchema, current: &Option<TableSchema>, db: DatabaseType)
    ensures
        diff_view(*final(d)) == join_diff(diff_view(*old(d)), table_diff(*model, *current, db)),
{
    let ghost start = diff_view(*d);
    match current {
        None => {
            let sql = model.to_create_sql(db);
            push_str(&mut d.up, sql.as_str());
            push_str(&mut d.up, "\n");
            push_str(&mut d.down, "DROP TABLE ");
            push_str(&mut d.down, model.name.as_str());
            push_str(&mut d.down, ";\n");
            push_change(&mut d.changes, SchemaChange::NewTable { table: owned(model.name.as_str()) });
            assert(diff_view(*d) =~= join_diff(start, table_diff(*model, *current, db)));
        },
        Some(cur) => {
            let mut i: usize = 0;
            while i < model.columns.len()
                invariant
                    i <= model.columns@.len(),
                    diff_view(*d) == join_diff(start, added_columns(*model, i as int, cur.columns@, db)),
                decreases model.columns.len() - i,
            {
                let c = &model.columns[i];
                if !column_present(&cur.columns, c.name.as_str()) {
                    let ghost before = diff_view(*d);
                    push_str(&mut d.up, "ALTER TABLE ");
                    push_str(&mut d.up, model.name.as_str());
                    push_str(&mut d.up, " ADD COLUMN ");
                    let def = column_definition_exec(c, db);
                    push_str(&mut d.up, def.as_str());
                    push_str(&mut d.up, ";\n");
                    push_str(&mut d.down, "ALTER TABLE ");
                    push_str(&mut d.down, model.name.as_str());
                    push_str(&mut d.down, " DROP COLUMN ");
                    push_str(&mut d.down, c.name.as_str());
                    push_str(&mut d.down, ";\n");
                    push_change(
                        &mut d.changes,
                        SchemaChange::NewColumn {
                            table: owned(model.name.as_str()),
                            column: owned(c.name.as_str()),
                        },
                    );
                    assert(diff_view(*d) =~= join_diff(start, added_columns(*model, i + 1, cur.columns@, db)));
                }
                i = i + 1;
            }
            let ghost mid = diff_view(*d);
            let mut j: usize = 0;
            while j < cur.columns.len()
                invariant
                    j <= cur.columns@.len(),
                    mid == join_diff(start, added_columns(*model, model.columns@.len() as int, cur.columns@, db)),
                    diff_view(*d) == join_diff(mid, dropped_columns(*model, cur.columns@, j as int)),
                decreases cur.columns.len() - j,
            {
                let c = &cur.columns[j];
                if !column_present(&model.columns, c.name.as_str()) {
                    push_str(&mut d.up, "ALTER TABLE ");
                    push_str(&mut d.up, model.name.as_str());
                    push_str(&mut d.up, " DROP COLUMN ");
                    push_str(&mut d.up, c.name.as_str());
                    push_str(&mut d.up, ";\n");
                    push_str(&mut d.down, "-- TODO: Manual rollback for dropped column ");
                    push_str(&mut d.down, model.name.as_str());
                    push_str(&mut d.down, ".");
                    push_str(&mut d.down, c.name.as_str());
                    push_str(&mut d.down, "\n");
                    push_change(
                        &mut d.changes,
                        SchemaChange::DroppedColumn {
                            table: owned(model.name.as_str()),
                            column: owned(c.name.as_str()),
                        },
                    );
                    assert(diff_view(*d) =~= join_diff(mid, dropped_columns(*model, cur.columns@, j + 1)));
                }
                j = j + 1;
            }
            assert(diff_view(*d) =~= join_diff(start, table_diff(*model, *current, db)));
        },
    }
}

/// The migration that brings the database's tables (`current[i]` is the
/// table of `models[i]`, if it exists) in line with the models.
pub fn make_migration_diff(models: &Vec<TableSchema>, current: &Vec<Option<TableSchema>>, db: DatabaseType) -> (r: MigrationDiff)
    requires
        models@.len() == current@.len(),
    ensures
        diff_view(r) == schema_diff(models@, current@, models@.len() as int, db),
{
    let mut d = MigrationDiff { up: String::new(), down: String::new(), changes: Vec::new() };
    assert(diff_view(d) =~= schema_diff(models@, current@, 0, db));
    let mut i: usize = 0;
    while i < models.len()
        invariant
            i <= models@.len(),
            models@.len() == current@.len(),
            diff_view(d) == schema_diff(models@, current@, i as int, db),
        decreases models.len() - i,
    {
        diff_table(&mut d, &models[i], &current[i], db);
        i = i + 1;
    }
    d
}

proof fn lemma_no_added_columns(model: TableSchema, n: int, cur: Seq<ColumnSchema>, db: DatabaseType)
    requires
        0 <= n <= model.columns@.len(),
        forall|j: int| 0 <= j < n ==> has_column(cur, (#[trigger] model.columns@[j]).name@),
    ensures
        added_columns(model, n, cur, db) == (Seq::<char>::empty(), Seq::<char>::empty(), Seq::<ChangeView>::empty()),
    decreases n,
{
    if n > 0 {
        lemma_no_added_columns(model, n - 1, cur, db);
        assert(has_column(cur, model.columns@[n - 1].name@));
    }
}

proof fn lemma_no_dropped_columns(model: TableSchema, cur: Seq<ColumnSchema>, n: int)
    requires
        0 <= n <= cur.len(),
        forall|j: int| 0 <= j < n ==> has_column(model.columns@, (#[trigger] cur[j]).name@),
    ensures
        dropped_columns(model, cur, n) == (Seq::<char>::empty(), Seq::<char>::empty(), Seq::<ChangeView>::empty()),
    decreases n,
{
    if n > 0 {
        lemma_no_dropped_columns(model, cur, n - 1);
        assert(has_column(model.columns@, cur[n - 1].name@));
    }
}

/// Once every table matches its model, the models produce an empty
/// migration: no SQL either way and no change.
pub proof fn lemma_synced_schema_has_empty_diff(models: Seq<TableSchema>, n: int, db: DatabaseType)
    requires
        0 <= n <= models.len(),
    ensures
        schema_diff(models, models.map_values(|m: TableSchema| Some(m)), n, db) == (
            Seq::<char>::empty(),
            Seq::<char>::empty(),
            Seq::<ChangeView>::empty(),
        ),
    decreases n,
{
    let current = models.map_values(|m: TableSchema| Some(m));
    if n > 0 {
        lemma_synced_schema_has_empty_diff(models, n - 1, db);
        let m = models[n - 1];
        assert(current[n - 1] == Some(m));
        assert forall|j: int| 0 <= j < m.columns@.len() implies has_column(
            m.columns@,
            (#[trigger] m.columns@[j]).name@,
        ) by {
            assert(m.columns@[j].name@ == m.columns@[j].name@);
        }
        lemma_no_added_columns(m, m.columns@.len() as int, m.columns@, db);
        lemma_no_dropped_columns(m, m.columns@, m.columns@.len() as int);
        assert(table_diff(m, current[n - 1], db) =~= (
            Seq::<char>::empty(),
            Seq::<char>::empty(),
            Seq::<ChangeView>::empty(),
        ));
        let e = (Seq::<char>::empty(), Seq::<char>::empty(), Seq::<ChangeView>::empty());
        assert(join_diff(e, e).0 =~= e.0);
        assert(join_diff(e, e).1 =~= e.1);
        assert(join_diff(e, e).2 =~= e.2);
    }
}

} // verus!
