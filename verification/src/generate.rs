//! Artifact generator: turns the classified member lists of one annotated
//! query into (a) a structured description of the generated artifact and
//! (b) the Rust source text of its row type, params type and query
//! descriptor.
//!
//! All indices are positional: the materialization lines read columns
//! `0, 1, ...` in select-member order, and the binding lines bind parameters
//! `1, 2, ...` in parameter-member order, exactly the order the annotations
//! stand in the SQL.

use vstd::prelude::*;
use vstd::string::{StrSliceExecFns, StringExecFns};

use crate::classify::{ClassifyOut, MemberView, QueryShape, SqlMember, members_view, parse,
    spec_parse};
use crate::error::GenError;
use crate::text::{concat_all, escape_str_literal, lemma_concat_all_push, spec_dec, spec_escape,
    usize_to_string};

verus! {

/// A generated type: its name and its ordered fields.
#[derive(Debug, Clone, PartialEq, Eq)]
pub struct TypeDef {
    pub name: String,
    pub fields: Vec<SqlMember>,
}

/// Whether a query descriptor takes bound parameters: gates which execution
/// entry points the generated code offers.
#[derive(Debug, Clone, Copy, PartialEq, Eq, Structural)]
pub enum Capability {
    NoParams,
    HasParams,
}

/// The structured output of generation for one annotated query.
#[derive(Debug, Clone, PartialEq, Eq)]
pub struct GeneratedArtifact {
    pub row_type: TypeDef,
    pub params_type: Option<TypeDef>,
    pub capability: Capability,
    pub sql_text: String,
}

/// Derives the artifact description: the row type `<name>Row` with one field
/// per select member in order, the params type `<name>Params` with one field
/// per parameter member in order — absent when there are none — the
/// capability marker, and the SQL text kept verbatim.
pub fn build_artifact(logical_name: &str, shape: QueryShape, sql: &str) -> (a: GeneratedArtifact)
    ensures
        a.row_type.name@ == logical_name@ + "Row"@,
        a.row_type.fields == shape.select_members,
        a.sql_text@ == sql@,
        shape.param_members@.len() == 0 ==> a.params_type is None && a.capability
            == Capability::NoParams,
        shape.param_members@.len() != 0 ==> a.capability == Capability::HasParams && (match a
            .params_type {
            Some(t) => t.name@ == logical_name@ + "Params"@ && t.fields == shape.param_members,
            None => false,
        }),
{
    let row_name = logical_name.to_owned().concat("Row");
    if shape.param_members.len() == 0 {
        GeneratedArtifact {
            row_type: TypeDef { name: row_name, fields: shape.select_members },
            params_type: None,
            capability: Capability::NoParams,
            sql_text: sql.to_owned(),
        }
    } else {
        let params_name = logical_name.to_owned().concat("Params");
        GeneratedArtifact {
            row_type: TypeDef { name: row_name, fields: shape.select_members },
            params_type: Some(TypeDef { name: params_name, fields: shape.param_members }),
            capability: Capability::HasParams,
            sql_text: sql.to_owned(),
        }
    }
}

/// One field declaration line of a generated struct.
pub open spec fn spec_decl_line(m: MemberView) -> Seq<char> {
    "    "@ + m.name + ": "@ + m.ty + ",\n"@
}

/// The field declaration lines of a generated struct, in member order.
pub open spec fn spec_decl_lines(ms: Seq<MemberView>) -> Seq<char> {
    concat_all(ms.map_values(|m: MemberView| spec_decl_line(m)))
}

/// A generated struct definition.
pub open spec fn spec_struct_def(sname: Seq<char>, fields: Seq<MemberView>) -> Seq<char> {
    "struct "@ + sname + " {\n"@ + spec_decl_lines(fields) + "}\n"@
}

/// One materialization line: the field read from the row buffer by its
/// 0-based positional column index.
pub open spec fn spec_read_line(m: MemberView, idx: nat) -> Seq<char> {
    "            "@ + m.name + ": row.get("@ + spec_dec(idx) + ")?,\n"@
}

/// The materialization lines, index equal to list position.
pub open spec fn spec_read_lines(ms: Seq<MemberView>) -> Seq<char> {
    concat_all(Seq::new(ms.len(), |i: int| spec_read_line(ms[i], i as nat)))
}

/// One binding line: the field bound by its 1-based positional placeholder
/// index.
pub open spec fn spec_bind_line(m: MemberView, idx: nat) -> Seq<char> {
    "        s.raw_bind_parameter("@ + spec_dec(idx) + ", &self."@ + m.name + ")?;\n"@
}

/// The binding lines, index equal to list position plus one.
pub open spec fn spec_bind_lines(ms: Seq<MemberView>) -> Seq<char> {
    concat_all(Seq::new(ms.len(), |i: int| spec_bind_line(ms[i], (i + 1) as nat)))
}

/// The generated `sql_str` method: the SQL text, escaped, as a literal.
pub open spec fn spec_sql_fn(esc: Seq<char>) -> Seq<char> {
    "    fn sql_str() -> &'static str {\n        \""@ + esc + "\"\n    }\n"@
}

/// The generated `TaggedRow` impl for the row type.
pub open spec fn spec_row_impl(rname: Seq<char>, esc: Seq<char>, fields: Seq<MemberView>) -> Seq<
    char,
> {
    "impl tagged_rusqlite::TaggedRow for "@ + rname + " {\n"@ + spec_sql_fn(esc)
        + "    fn from_row(row: &rusqlite::Row<'_>) -> Result<Self, rusqlite::Error> {\n        Ok(Self {\n"@
        + spec_read_lines(fields) + "        })\n    }\n}\n"@
}

/// The generated `TaggedParams` impl for the params type.
pub open spec fn spec_params_impl(pname: Seq<char>, fields: Seq<MemberView>) -> Seq<char> {
    "impl tagged_rusqlite::TaggedParams for "@ + pname
        + " {\n    fn bind_all(&self, s: &mut rusqlite::Statement<'_>) -> Result<(), rusqlite::Error> {\n"@
        + spec_bind_lines(fields) + "        Ok(())\n    }\n}\n"@
}

/// The generated query descriptor struct and its `TaggedQuery` impl.
pub open spec fn spec_query_impl(name: Seq<char>, esc: Seq<char>) -> Seq<char> {
    "struct "@ + name + " {}\nimpl tagged_rusqlite::TaggedQuery for "@ + name
        + " {\n    type Row = "@ + name + "Row;\n    type Params = "@ + name + "Params;\n"@
        + spec_sql_fn(esc) + "}\n"@
}

/// The generated `prepare` convenience method of the query descriptor.
pub open spec fn spec_prepare_impl(name: Seq<char>) -> Seq<char> {
    "impl "@ + name
        + " {\n    pub fn prepare<'a>(connection: &'a rusqlite::Connection) -> Result<tagged_rusqlite::StatementHolder<'a, "@
        + name + ">, tagged_rusqlite::DbError> {\n        tagged_rusqlite::StatementHolder::new(connection)\n    }\n}\n"@
}

/// The generated capability marker impl.
pub open spec fn spec_marker_impl(name: Seq<char>, has_params: bool) -> Seq<char> {
    if has_params {
        "impl tagged_rusqlite::HasParams for "@ + name + " {}\n"@
    } else {
        "impl tagged_rusqlite::NoParams for "@ + name + " {}\n"@
    }
}

/// The whole generated source text for one annotated query.
pub open spec fn spec_generated(
    name: Seq<char>,
    selects: Seq<MemberView>,
    params: Seq<MemberView>,
    sql: Seq<char>,
) -> Seq<char> {
    "#[derive(PartialOrd, PartialEq, Debug)]\n"@ + spec_struct_def(name + "Row"@, selects)
        + spec_row_impl(name + "Row"@, spec_escape(sql), selects)
        + spec_struct_def(name + "Params"@, params) + spec_params_impl(name + "Params"@, params)
        + spec_query_impl(name, spec_escape(sql)) + spec_prepare_impl(name) + spec_marker_impl(
        name,
        params.len() != 0,
    )
}

fn decl_line(m: &SqlMember) -> (r: String)
    ensures
        r@ == spec_decl_line(m@),
{
    let mut r = String::new();
    r.append("    ");
    r.append(m.name.as_str());
    r.append(": ");
    r.append(m.type_desc.as_str());
    r.append(",\n");
    proof {
        assert(r@ =~= spec_decl_line(m@));
    }
    r
}

fn decl_lines(ms: &Vec<SqlMember>) -> (r: String)
    ensures
        r@ == spec_decl_lines(members_view(ms@)),
{
    let n = ms.len();
    let mut r = String::new();
    let mut i: usize = 0;
    proof {
        let mvs = members_view(ms@);
        assert(mvs.take(0) =~= Seq::<MemberView>::empty());
        assert(mvs.take(0).map_values(|m: MemberView| spec_decl_line(m)) =~= Seq::<
            Seq<char>,
        >::empty());
    }
    while i < n
        invariant
            0 <= i <= n,
            n == ms@.len(),
            r@ == concat_all(
                members_view(ms@).take(i as int).map_values(|m: MemberView| spec_decl_line(m)),
            ),
        decreases n - i,
    {
        let line = decl_line(&ms[i]);
        r.append(line.as_str());
        proof {
            let mvs = members_view(ms@);
            let f = |m: MemberView| spec_decl_line(m);
            assert(mvs.take(i + 1 as int) =~= mvs.take(i as int).push(mvs[i as int]));
            assert(mvs.take(i + 1 as int).map_values(f) =~= mvs.take(i as int).map_values(f).push(
                f(mvs[i as int]),
            ));
            lemma_concat_all_push(mvs.take(i as int).map_values(f), f(mvs[i as int]));
        }
        i = i + 1;
    }
    proof {
        let mvs = members_view(ms@);
        assert(mvs.take(n as int) =~= mvs);
    }
    r
}

fn struct_def(sname: &str, fields: &Vec<SqlMember>) -> (r: String)
    ensures
        r@ == spec_struct_def(sname@, members_view(fields@)),
{
    let mut r = String::new();
    r.append("struct ");
    r.append(sname);
    r.append(" {\n");
    let lines = decl_lines(fields);
    r.append(lines.as_str());
    r.append("}\n");
    proof {
        assert(r@ =~= spec_struct_def(sname@, members_view(fields@)));
    }
    r
}

fn read_line(m: &SqlMember, idx: usize) -> (r: String)
    ensures
        r@ == spec_read_line(m@, idx as nat),
{
    let mut r = String::new();
    r.append("            ");
    r.append(m.name.as_str());
    r.append(": row.get(");
    let d = usize_to_string(idx);
    r.append(d.as_str());
    r.append(")?,\n");
    proof {
        assert(r@ =~= spec_read_line(m@, idx as nat));
    }
    r
}

fn read_lines(ms: &Vec<SqlMember>) -> (r: String)
    ensures
        r@ == spec_read_lines(members_view(ms@)),
{
    let n = ms.len();
    let mut r = String::new();
    let mut i: usize = 0;
    while i < n
        invariant
            0 <= i <= n,
            n == ms@.len(),
            r@ == concat_all(
                Seq::new(
                    i as nat,
                    |k: int| spec_read_line(members_view(ms@)[k], k as nat),
                ),
            ),
        decreases n - i,
    {
        let line = read_line(&ms[i], i);
        r.append(line.as_str());
        proof {
            let mvs = members_view(ms@);
            let g = |k: int| spec_read_line(mvs[k], k as nat);
            assert(Seq::new((i + 1) as nat, g) =~= Seq::new(i as nat, g).push(
                g(i as int),
            ));
            lemma_concat_all_push(Seq::new(i as nat, g), g(i as int));
        }
        i = i + 1;
    }
    proof {
        let mvs = members_view(ms@);
        assert(Seq::new(n as nat, |k: int| spec_read_line(mvs[k], k as nat)) =~= Seq::new(
            mvs.len(),
            |k: int| spec_read_line(mvs[k], k as nat),
        ));
    }
    r
}

fn bind_line(m: &SqlMember, idx: usize) -> (r: String)
    requires
        idx < usize::MAX,
    ensures
        r@ == spec_bind_line(m@, (idx + 1) as nat),
{
    let mut r = String::new();
    r.append("        s.raw_bind_parameter(");
    let d = usize_to_string(idx + 1);
    r.append(d.as_str());
    r.append(", &self.");
    r.append(m.name.as_str());
    r.append(")?;\n");
    proof {
        assert(r@ =~= spec_bind_line(m@, (idx + 1) as nat));
    }
    r
}

fn bind_lines(ms: &Vec<SqlMember>) -> (r: String)
    ensures
        r@ == spec_bind_lines(members_view(ms@)),
{
    let n = ms.len();
    let mut r = String::new();
    let mut i: usize = 0;
    while i < n
        invariant
            0 <= i <= n,
            n == ms@.len(),
            r@ == concat_all(
                Seq::new(
                    i as nat,
                    |k: int| spec_bind_line(members_view(ms@)[k], (k + 1) as nat),
                ),
            ),
        decreases n - i,
    {
        let line = bind_line(&ms[i], i);
        r.append(line.as_str());
        proof {
            let mvs = members_view(ms@);
            let g = |k: int| spec_bind_line(mvs[k], (k + 1) as nat);
            assert(Seq::new((i + 1) as nat, g) =~= Seq::new(i as nat, g).push(
                g(i as int),
            ));
            lemma_concat_all_push(Seq::new(i as nat, g), g(i as int));
        }
        i = i + 1;
    }
    proof {
        let mvs = members_view(ms@);
        assert(Seq::new(n as nat, |k: int| spec_bind_line(mvs[k], (k + 1) as nat)) =~= Seq::new(
            mvs.len(),
            |k: int| spec_bind_line(mvs[k], (k + 1) as nat),
        ));
    }
    r
}

fn sql_fn_text(esc: &str) -> (r: String)
    ensures
        r@ == spec_sql_fn(esc@),
{
    let mut r = String::new();
    r.append("    fn sql_str() -> &'static str {\n        \"");
    r.append(esc);
    r.append("\"\n    }\n");
    proof {
        assert(r@ =~= spec_sql_fn(esc@));
    }
    r
}

fn row_impl(rname: &str, esc: &str, fields: &Vec<SqlMember>) -> (r: String)
    ensures
        r@ == spec_row_impl(rname@, esc@, members_view(fields@)),
{
    let mut r = String::new();
    r.append("impl tagged_rusqlite::TaggedRow for ");
    r.append(rname);
    r.append(" {\n");
    let sf = sql_fn_text(esc);
    r.append(sf.as_str());
    r.append(
        "    fn from_row(row: &rusqlite::Row<'_>) -> Result<Self, rusqlite::Error> {\n        Ok(Self {\n",
    );
    let rl = read_lines(fields);
    r.append(rl.as_str());
    r.append("        })\n    }\n}\n");
    proof {
        assert(r@ =~= spec_row_impl(rname@, esc@, members_view(fields@)));
    }
    r
}

fn params_impl(pname: &str, fields: &Vec<SqlMember>) -> (r: String)
    ensures
        r@ == spec_params_impl(pname@, members_view(fields@)),
{
    let mut r = String::new();
    r.append("impl tagged_rusqlite::TaggedParams for ");
    r.append(pname);
    r.append(
        " {\n    fn bind_all(&self, s: &mut rusqlite::Statement<'_>) -> Result<(), rusqlite::Error> {\n",
    );
    let bl = bind_lines(fields);
    r.append(bl.as_str());
    r.append("        Ok(())\n    }\n}\n");
    proof {
        assert(r@ =~= spec_params_impl(pname@, members_view(fields@)));
    }
    r
}

fn query_impl(name: &str, esc: &str) -> (r: String)
    ensures
        r@ == spec_query_impl(name@, esc@),
{
    let mut r = String::new();
    r.append("struct ");
    r.append(name);
    r.append(" {}\nimpl tagged_rusqlite::TaggedQuery for ");
    r.append(name);
    r.append(" {\n    type Row = ");
    r.append(name);
    r.append("Row;\n    type Params = ");
    r.append(name);
    r.append("Params;\n");
    let sf = sql_fn_text(esc);
    r.append(sf.as_str());
    r.append("}\n");
    proof {
        assert(r@ =~= spec_query_impl(name@, esc@));
    }
    r
}

fn prepare_impl(name: &str) -> (r: String)
    ensures
        r@ == spec_prepare_impl(name@),
{
    let mut r = String::new();
    r.append("impl ");
    r.append(name);
    r.append(
        " {\n    pub fn prepare<'a>(connection: &'a rusqlite::Connection) -> Result<tagged_rusqlite::StatementHolder<'a, ",
    );
    r.append(name);
    r.append(
        ">, tagged_rusqlite::DbError> {\n        tagged_rusqlite::StatementHolder::new(connection)\n    }\n}\n",
    );
    proof {
        assert(r@ =~= spec_prepare_impl(name@));
    }
    r
}

fn marker_impl(name: &str, has_params: bool) -> (r: String)
    ensures
        r@ == spec_marker_impl(name@, has_params),
{
    let mut r = String::new();
    if has_params {
        r.append("impl tagged_rusqlite::HasParams for ");
    } else {
        r.append("impl tagged_rusqlite::NoParams for ");
    }
    r.append(name);
    r.append(" {}\n");
    proof {
        assert(r@ =~= spec_marker_impl(name@, has_params));
    }
    r
}

/// Compiles one annotated SQL text: scans and classifies it, then emits the
/// Rust source text of the row type, the params type, the query descriptor
/// with its capability marker, and the `prepare` entry point — or the first
/// refusal, in source order.
pub fn tagged_sql(struct_name_str: &str, sql: &str) -> (r: Result<String, GenError>)
    ensures
        (match r {
            Ok(text) => (match spec_parse(sql@) {
                ClassifyOut::Members { selects, params } => text@ == spec_generated(
                    struct_name_str@,
                    selects,
                    params,
                    sql@,
                ),
                ClassifyOut::Fail(e) => false,
            }),
            Err(e) => spec_parse(sql@) == ClassifyOut::Fail(e),
        }),
{
    let shape = match parse(sql) {
        Ok(s) => s,
        Err(e) => {
            return Err(e);
        },
    };
    let row_name = struct_name_str.to_owned().concat("Row");
    let params_name = struct_name_str.to_owned().concat("Params");
    let esc = escape_str_literal(sql);
    let has_params = shape.param_members.len() != 0;
    let mut out = String::new();
    out.append("#[derive(PartialOrd, PartialEq, Debug)]\n");
    let s1 = struct_def(row_name.as_str(), &shape.select_members);
    out.append(s1.as_str());
    let s2 = row_impl(row_name.as_str(), esc.as_str(), &shape.select_members);
    out.append(s2.as_str());
    let s3 = struct_def(params_name.as_str(), &shape.param_members);
    out.append(s3.as_str());
    let s4 = params_impl(params_name.as_str(), &shape.param_members);
    out.append(s4.as_str());
    let s5 = query_impl(struct_name_str, esc.as_str());
    out.append(s5.as_str());
    let s6 = prepare_impl(struct_name_str);
    out.append(s6.as_str());
    let s7 = marker_impl(struct_name_str, has_params);
    out.append(s7.as_str());
    proof {
        assert(out@ =~= spec_generated(
            struct_name_str@,
            members_view(shape.select_members@),
            members_view(shape.param_members@),
            sql@,
        ));
    }
    Ok(out)
}

} // verus!
