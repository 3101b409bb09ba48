//! Signature introspection and schema assembly.
//!
//! A function declaration is represented as data: a name and an ordered list
//! of parameters, each with a declared type expression. Introspection flattens
//! every declared type to its outermost tag, skips a receiver-style implicit
//! parameter, and rejects only declarations whose structure is unusable: an
//! empty function name, an empty parameter name, or a duplicated parameter
//! name. The assembler merges the introspected signature with parsed
//! documentation into a `ToolSchema`, which serializes to a canonical JSON
//! document with a fixed field order.

use vstd::prelude::*;

use crate::docstring::kv_views;
use crate::docstring::joined_doc;
use crate::docstring::spec_description;
use crate::docstring::spec_param_docs;
use crate::docstring::extract_docstring;
use crate::docstring::parse_docstring;
use crate::docstring::ParamDocs;
use crate::json::append_quoted;
use crate::json::quoted;
use crate::text::strip_leading_underscore;
use crate::text::string_views;
use crate::text::trimmed;
use crate::text::str_eq;
use crate::text::strip_underscore;

verus! {

/// A declared parameter type: a named type with generic arguments, an
/// optional (nullable) variant of a type, or an anonymous type with no name.
pub enum TypeExpr {
    Named { name: String, args: Vec<TypeExpr> },
    Optional(Box<TypeExpr>),
    Unnamed,
}

/// The tag recorded for a parameter whose declared type has no name.
pub open spec fn unknown_tag() -> Seq<char> {
    seq!['u', 'n', 'k', 'n', 'o', 'w', 'n']
}

/// The tag of a declared type: the outermost type name, looked up through an
/// optional marker; generic arguments are deliberately flattened away, and a
/// structural type degrades to the tag `unknown`.
pub open spec fn spec_type_tag(t: TypeExpr) -> Seq<char>
    decreases t,
{
    match t {
        TypeExpr::Named { name, args } => name@,
        TypeExpr::Optional(inner) => spec_type_tag(*inner),
        TypeExpr::Unnamed => unknown_tag(),
    }
}

/// Returns the tag of a declared type.
pub fn type_tag(t: &TypeExpr) -> (r: String)
    ensures
        r@ == spec_type_tag(*t),
    decreases *t,
{
    match t {
        TypeExpr::Named { name, args: _ } => name.clone(),
        TypeExpr::Optional(inner) => type_tag(inner),
        TypeExpr::Unnamed => {
            let r: String = "unknown".to_owned();
            proof {
                reveal_strlit("unknown");
                assert(r@ =~= unknown_tag());
            }
            r
        },
    }
}

/// One parameter of a declaration: either a receiver-style implicit
/// parameter, which carries no schema information, or a named, typed one.
pub enum Param {
    Receiver,
    Typed { name: String, ty: TypeExpr },
}

/// A function declaration: its identifier and its ordered parameter list.
pub struct FnDecl {
    pub name: String,
    pub params: Vec<Param>,
}

/// The introspected signature: (name, type tag) for each typed parameter, in
/// declaration order, receivers excluded.
pub open spec fn sig_pairs(ps: Seq<Param>) -> Seq<(Seq<char>, Seq<char>)>
    decreases ps.len(),
{
    if ps.len() == 0 {
        Seq::empty()
    } else {
        let rest = sig_pairs(ps.drop_last());
        match ps.last() {
            Param::Receiver => rest,
            Param::Typed { name, ty } => rest.push((name@, spec_type_tag(ty))),
        }
    }
}

/// Some introspected parameter has an empty name.
pub open spec fn has_empty_param(sig: Seq<(Seq<char>, Seq<char>)>) -> bool {
    exists|i: int| 0 <= i < sig.len() && (#[trigger] sig[i]).0.len() == 0
}

/// Two introspected parameters share a name.
pub open spec fn has_dup_param(sig: Seq<(Seq<char>, Seq<char>)>) -> bool {
    exists|i: int, j: int| 0 <= i < j < sig.len() && (#[trigger] sig[i]).0 == (#[trigger] sig[j]).0
}

/// A declaration is well formed when its identifier is non-empty and its
/// parameter names are non-empty and pairwise distinct.
pub open spec fn decl_wf(d: FnDecl) -> bool {
    &&& d.name@.len() > 0
    &&& !has_empty_param(sig_pairs(d.params@))
    &&& !has_dup_param(sig_pairs(d.params@))
}

/// Why a declaration could not be turned into a schema.
#[derive(Clone, Copy, Debug, PartialEq, Eq, Structural)]
pub enum IntrospectionError {
    EmptyFunctionName,
    EmptyParameterName,
    DuplicateParameterName,
}

/// Exactly which error a declaration that is not well formed produces: the
/// first failing check of name, parameter names, and parameter uniqueness.
pub open spec fn introspection_error_matches(d: FnDecl, e: IntrospectionError) -> bool {
    &&& (e == IntrospectionError::EmptyFunctionName <==> d.name@.len() == 0)
    &&& (e == IntrospectionError::EmptyParameterName <==> d.name@.len() > 0 && has_empty_param(
        sig_pairs(d.params@),
    ))
    &&& (e == IntrospectionError::DuplicateParameterName <==> d.name@.len() > 0
        && !has_empty_param(sig_pairs(d.params@)) && has_dup_param(sig_pairs(d.params@)))
}

/// Introspects a declaration into its (name, type tag) pairs, in declaration
/// order. Fails exactly on declarations that are not well formed; unknown or
/// structural parameter types never fail.
pub fn introspect(d: &FnDecl) -> (r: Result<Vec<(String, String)>, IntrospectionError>)
    ensures
        r is Ok <==> decl_wf(*d),
        match r {
            Ok(sig) => kv_views(sig@) == sig_pairs(d.params@),
            Err(e) => introspection_error_matches(*d, e),
        },
{
    let ghost all = sig_pairs(d.params@);
    let mut sig: Vec<(String, String)> = Vec::new();
    let mut i: usize = 0;
    proof {
        assert(kv_views(sig@) =~= sig_pairs(d.params@.take(0)));
        assert(d.params@.take(0) =~= Seq::<Param>::empty());
    }
    while i < d.params.len()
        invariant
            i <= d.params.len(),
            kv_views(sig@) == sig_pairs(d.params@.take(i as int)),
        decreases d.params.len() - i,
    {
        proof {
            assert(d.params@.take(i + 1).drop_last() =~= d.params@.take(i as int));
            assert(d.params@.take(i + 1).last() == d.params@[i as int]);
        }
        match &d.params[i] {
            Param::Receiver => {},
            Param::Typed { name, ty } => {
                let tag = type_tag(ty);
                sig.push((name.clone(), tag));
                proof {
                    assert(kv_views(sig@) =~= kv_views(sig@.drop_last()).push(
                        (sig@.last().0@, sig@.last().1@),
                    ));
                }
            },
        }
        proof {
            assert(kv_views(sig@) =~= sig_pairs(d.params@.take(i + 1)));
        }
        i = i + 1;
    }
    proof {
        assert(d.params@.take(d.params@.len() as int) =~= d.params@);
        assert(kv_views(sig@) == all);
    }
    if d.name.as_str().is_empty() {
        return Err(IntrospectionError::EmptyFunctionName);
    }
    let mut i: usize = 0;
    while i < sig.len()
        invariant
            i <= sig.len(),
            kv_views(sig@) == all,
            forall|k: int| 0 <= k < i ==> (#[trigger] all[k]).0.len() > 0,
        decreases sig.len() - i,
    {
        if sig[i].0.as_str().is_empty() {
            proof {
                assert(all[i as int].0.len() == 0);
            }
            return Err(IntrospectionError::EmptyParameterName);
        }
        i = i + 1;
    }
    assert(!has_empty_param(all));
    let mut i: usize = 0;
    while i < sig.len()
        invariant
            i <= sig.len(),
            kv_views(sig@) == all,
            forall|a: int, b: int| 0 <= a < b < all.len() && a < i ==> (#[trigger] all[a]).0 != (
            #[trigger] all[b]).0,
        decreases sig.len() - i,
    {
        let mut j: usize = i + 1;
        while j < sig.len()
            invariant
                i < j <= sig.len(),
                kv_views(sig@) == all,
                forall|b: int| i < b < j ==> all[i as int].0 != (#[trigger] all[b]).0,
            decreases sig.len() - j,
        {
            if str_eq(sig[i].0.as_str(), sig[j].0.as_str()) {
                proof {
                    assert(all[i as int].0 == all[j as int].0);
                }
                return Err(IntrospectionError::DuplicateParameterName);
            }
            j = j + 1;
        }
        i = i + 1;
    }
    assert(!has_dup_param(all));
    Ok(sig)
}

/// One entry of a schema's `properties` mapping.
#[derive(Debug)]
pub struct ParameterSpec {
    pub name: String,
    pub param_type: String,
    pub description: String,
}

/// The structured description of one callable function.
#[derive(Debug)]
pub struct ToolSchema {
    pub name: String,
    pub description: String,
    pub properties: Vec<ParameterSpec>,
    pub required: Vec<String>,
}

/// The schema invariant: `required` lists exactly the property names, in the
/// same order, and property names are pairwise distinct.
pub open spec fn schema_wf(s: ToolSchema) -> bool {
    &&& s.required@.len() == s.properties@.len()
    &&& forall|i: int|
        0 <= i < s.properties@.len() ==> (#[trigger] s.required@[i])@ == s.properties@[i].name@
    &&& forall|i: int, j: int|
        0 <= i < j < s.properties@.len() ==> (#[trigger] s.properties@[i]).name@ != (
        #[trigger] s.properties@[j]).name@
}

/// The documentation text for a declared parameter name: looked up with a
/// single leading underscore removed, and empty when no tag line matched.
pub open spec fn doc_text_for(docs: Map<Seq<char>, Seq<char>>, name: Seq<char>) -> Seq<char> {
    let key = strip_leading_underscore(name);
    if docs.contains_key(key) {
        docs[key]
    } else {
        Seq::empty()
    }
}

/// The (name, type tag, description) triples of an assembled schema.
pub open spec fn assembled_triples(
    sig: Seq<(Seq<char>, Seq<char>)>,
    docs: Map<Seq<char>, Seq<char>>,
) -> Seq<(Seq<char>, Seq<char>, Seq<char>)> {
    Seq::new(sig.len(), |i: int| (sig[i].0, sig[i].1, doc_text_for(docs, sig[i].0)))
}

/// The parameter names of an introspected signature, in declaration order.
pub open spec fn sig_names(sig: Seq<(Seq<char>, Seq<char>)>) -> Seq<Seq<char>> {
    Seq::new(sig.len(), |i: int| sig[i].0)
}

/// The views of a schema's properties.
pub open spec fn prop_views(ps: Seq<ParameterSpec>) -> Seq<(Seq<char>, Seq<char>, Seq<char>)> {
    Seq::new(ps.len(), |i: int| (ps[i].name@, ps[i].param_type@, ps[i].description@))
}

/// The views of a schema's required list.
pub open spec fn req_views(names: Seq<String>) -> Seq<Seq<char>> {
    Seq::new(names.len(), |i: int| names[i]@)
}

/// Merges an introspected signature with parsed documentation into a
/// `ToolSchema`. Every declared parameter is listed in `required`, in
/// declaration order; descriptions default to the empty string.
pub fn assemble(
    name: &str,
    description: String,
    sig: &Vec<(String, String)>,
    docs: &ParamDocs,
) -> (r: ToolSchema)
    ensures
        r.name@ == name@,
        r.description@ == description@,
        prop_views(r.properties@) == assembled_triples(kv_views(sig@), docs@),
        req_views(r.required@) == sig_names(kv_views(sig@)),
{
    let mut properties: Vec<ParameterSpec> = Vec::new();
    let mut required: Vec<String> = Vec::new();
    let mut i: usize = 0;
    while i < sig.len()
        invariant
            i <= sig.len(),
            properties@.len() == i,
            required@.len() == i,
            forall|k: int|
                0 <= k < i ==> ((#[trigger] properties@[k]).name@ == sig@[k].0@
                    && properties@[k].param_type@ == sig@[k].1@ && properties@[k].description@
                    == doc_text_for(docs@, sig@[k].0@)),
            forall|k: int| 0 <= k < i ==> (#[trigger] required@[k])@ == sig@[k].0@,
        decreases sig.len() - i,
    {
        let declared = sig[i].0.as_str();
        let text: String = match docs.get(strip_underscore(declared)) {
            Some(t) => t.clone(),
            None => String::new(),
        };
        properties.push(
            ParameterSpec {
                name: sig[i].0.clone(),
                param_type: sig[i].1.clone(),
                description: text,
            },
        );
        required.push(sig[i].0.clone());
        i = i + 1;
    }
    let r = ToolSchema { name: name.to_owned(), description, properties, required };
    proof {
        let triples = assembled_triples(kv_views(sig@), docs@);
        assert forall|k: int| 0 <= k < sig@.len() implies prop_views(r.properties@)[k]
            == triples[k] by {
            assert(kv_views(sig@)[k] == (sig@[k].0@, sig@[k].1@));
            assert(prop_views(r.properties@)[k] == (
                r.properties@[k].name@,
                r.properties@[k].param_type@,
                r.properties@[k].description@,
            ));
        }
        assert(prop_views(r.properties@) =~= triples);
        assert forall|k: int| 0 <= k < sig@.len() implies req_views(r.required@)[k] == sig_names(
            kv_views(sig@),
        )[k] by {
            assert(kv_views(sig@)[k] == (sig@[k].0@, sig@[k].1@));
            assert(req_views(r.required@)[k] == r.required@[k]@);
        }
        assert(req_views(r.required@) =~= sig_names(kv_views(sig@)));
    }
    r
}

/// The JSON fragment for one property entry of the `properties` object.
pub open spec fn json_prop(p: (Seq<char>, Seq<char>, Seq<char>)) -> Seq<char> {
    quoted(p.0) + ":{\"type\":"@ + quoted(p.1) + ",\"description\":"@ + quoted(p.2) + "}"@
}

/// The comma-separated property entries, in order.
pub open spec fn json_properties(ps: Seq<(Seq<char>, Seq<char>, Seq<char>)>) -> Seq<char>
    decreases ps.len(),
{
    if ps.len() == 0 {
        Seq::empty()
    } else if ps.len() == 1 {
        json_prop(ps[0])
    } else {
        json_properties(ps.drop_last()) + ","@ + json_prop(ps.last())
    }
}

/// The comma-separated elements of the `required` array, in order.
pub open spec fn json_required(names: Seq<Seq<char>>) -> Seq<char>
    decreases names.len(),
{
    if names.len() == 0 {
        Seq::empty()
    } else if names.len() == 1 {
        quoted(names[0])
    } else {
        json_required(names.drop_last()) + ","@ + quoted(names.last())
    }
}

/// The canonical JSON document for a schema, with the fixed field order
/// `name`, `description`, `parameters` (itself `type`, `properties`,
/// `required`).
pub open spec fn json_schema(
    name: Seq<char>,
    description: Seq<char>,
    props: Seq<(Seq<char>, Seq<char>, Seq<char>)>,
    req: Seq<Seq<char>>,
) -> Seq<char> {
    "{\"name\":"@ + quoted(name) + ",\"description\":"@ + quoted(description)
        + ",\"parameters\":{\"type\":\"object\",\"properties\":{"@ + json_properties(props)
        + "},\"required\":["@ + json_required(req) + "]}}"@
}

/// Appends the comma-separated property entries to `out`.
fn append_properties(out: &mut String, ps: &Vec<ParameterSpec>)
    ensures
        final(out)@ == old(out)@ + json_properties(prop_views(ps@)),
{
    let ghost props = prop_views(ps@);
    let ghost base = out@;
    proof {
        assert(props.take(0) =~= Seq::<(Seq<char>, Seq<char>, Seq<char>)>::empty());
        assert(out@ =~= base + json_properties(props.take(0)));
    }
    let mut i: usize = 0;
    while i < ps.len()
        invariant
            i <= ps.len(),
            out@ == base + json_properties(props.take(i as int)),
        decreases ps.len() - i,
    {
        if i > 0 {
            out.append(",");
        }
        append_quoted(out, ps[i].name.as_str());
        out.append(":{\"type\":");
        append_quoted(out, ps[i].param_type.as_str());
        out.append(",\"description\":");
        append_quoted(out, ps[i].description.as_str());
        out.append("}");
        proof {
            assert(props.take(i + 1).drop_last() =~= props.take(i as int));
            assert(props.take(i + 1).last() == props[i as int]);
            assert(props[i as int] == (
                ps@[i as int].name@,
                ps@[i as int].param_type@,
                ps@[i as int].description@,
            ));
            assert(out@ =~= base + json_properties(props.take(i + 1)));
        }
        i = i + 1;
    }
    proof {
        assert(props.take(ps@.len() as int) =~= props);
    }
}

/// Appends the comma-separated `required` elements to `out`.
fn append_required(out: &mut String, names: &Vec<String>)
    ensures
        final(out)@ == old(out)@ + json_required(req_views(names@)),
{
    let ghost req = req_views(names@);
    let ghost base = out@;
    proof {
        assert(req.take(0) =~= Seq::<Seq<char>>::empty());
        assert(out@ =~= base + json_required(req.take(0)));
    }
    let mut i: usize = 0;
    while i < names.len()
        invariant
            i <= names.len(),
            out@ == base + json_required(req.take(i as int)),
        decreases names.len() - i,
    {
        if i > 0 {
            out.append(",");
        }
        append_quoted(out, names[i].as_str());
        proof {
            assert(req.take(i + 1).drop_last() =~= req.take(i as int));
            assert(req.take(i + 1).last() == req[i as int]);
            assert(req[i as int] == names@[i as int]@);
            assert(out@ =~= base + json_required(req.take(i + 1)));
        }
        i = i + 1;
    }
    proof {
        assert(req.take(names@.len() as int) =~= req);
    }
}

/// Serializes a schema to its canonical JSON document. The rendering is a
/// pure function of the schema, so equal schemas give byte-identical output.
pub fn schema_to_json(s: &ToolSchema) -> (r: String)
    ensures
        r@ == json_schema(
            s.name@,
            s.description@,
            prop_views(s.properties@),
            req_views(s.required@),
        ),
{
    let mut out = String::new();
    out.append("{\"name\":");
    append_quoted(&mut out, s.name.as_str());
    out.append(",\"description\":");
    append_quoted(&mut out, s.description.as_str());
    out.append(",\"parameters\":{\"type\":\"object\",\"properties\":{");
    append_properties(&mut out, &s.properties);
    out.append("},\"required\":[");
    append_required(&mut out, &s.required);
    out.append("]}}");
    proof {
        assert(out@ =~= json_schema(
            s.name@,
            s.description@,
            prop_views(s.properties@),
            req_views(s.required@),
        ));
    }
    out
}

/// An assembled schema satisfies the schema invariant whenever its signature
/// had pairwise distinct parameter names.
pub proof fn lemma_assembled_wf(s: ToolSchema, sig: Seq<(Seq<char>, Seq<char>)>, docs: Map<
    Seq<char>,
    Seq<char>,
>)
    requires
        prop_views(s.properties@) == assembled_triples(sig, docs),
        req_views(s.required@) == sig_names(sig),
        !has_dup_param(sig),
    ensures
        schema_wf(s),
{
    let props = s.properties@;
    let req = s.required@;
    assert(prop_views(props).len() == props.len());
    assert(req_views(req).len() == req.len());
    assert(props.len() == sig.len());
    assert(req.len() == sig.len());
    assert forall|i: int| 0 <= i < props.len() implies (#[trigger] req[i])@ == props[i].name@ by {
        assert(prop_views(props)[i] == assembled_triples(sig, docs)[i]);
        assert(req_views(req)[i] == sig_names(sig)[i]);
        assert(prop_views(props)[i].0 == props[i].name@);
        assert(req_views(req)[i] == req[i]@);
        assert(assembled_triples(sig, docs)[i].0 == sig[i].0);
        assert(sig_names(sig)[i] == sig[i].0);
    }
    assert forall|i: int, j: int| 0 <= i < j < props.len() implies (#[trigger] props[i]).name@ != (
    #[trigger] props[j]).name@ by {
        assert(prop_views(props)[i] == assembled_triples(sig, docs)[i]);
        assert(prop_views(props)[j] == assembled_triples(sig, docs)[j]);
        assert(prop_views(props)[i].0 == props[i].name@);
        assert(prop_views(props)[j].0 == props[j].name@);
        assert(assembled_triples(sig, docs)[i].0 == sig[i].0);
        assert(assembled_triples(sig, docs)[j].0 == sig[j].0);
        if sig[i].0 == sig[j].0 {
            assert(has_dup_param(sig));
        }
    }
}

/// The canonical JSON document that a declaration and its documentation
/// lines determine. A pure function of its inputs: generating twice from the
/// same declaration and documentation yields byte-identical output.
pub open spec fn spec_tools_config(d: FnDecl, doc_lines: Seq<Seq<char>>) -> Seq<char> {
    let doc = trimmed(joined_doc(doc_lines));
    let sig = sig_pairs(d.params@);
    json_schema(
        d.name@,
        spec_description(doc),
        assembled_triples(sig, spec_param_docs(doc)),
        sig_names(sig),
    )
}

/// Builds the schema for one declaration and its documentation lines:
/// extracts the docstring, parses it, introspects the signature, and merges
/// the two. Succeeds exactly on well-formed declarations.
pub fn generate_tool_schema(d: &FnDecl, doc_lines: &Vec<String>) -> (r: Result<
    ToolSchema,
    IntrospectionError,
>)
    ensures
        r is Ok <==> decl_wf(*d),
        match r {
            Ok(s) => {
                let doc = trimmed(joined_doc(string_views(doc_lines@)));
                &&& s.name@ == d.name@
                &&& s.description@ == spec_description(doc)
                &&& prop_views(s.properties@) == assembled_triples(
                    sig_pairs(d.params@),
                    spec_param_docs(doc),
                )
                &&& req_views(s.required@) == sig_names(sig_pairs(d.params@))
                &&& schema_wf(s)
            },
            Err(e) => introspection_error_matches(*d, e),
        },
{
    let doc = extract_docstring(doc_lines);
    let (description, docs) = parse_docstring(doc.as_str());
    match introspect(d) {
        Err(e) => Err(e),
        Ok(sig) => {
            let s = assemble(d.name.as_str(), description, &sig, &docs);
            proof {
                lemma_assembled_wf(s, sig_pairs(d.params@), docs@);
            }
            Ok(s)
        },
    }
}

/// Builds the schema for one declaration and serializes it to the canonical
/// JSON document. Succeeds exactly on well-formed declarations.
pub fn generate_tools_config(d: &FnDecl, doc_lines: &Vec<String>) -> (r: Result<
    String,
    IntrospectionError,
>)
    ensures
        r is Ok <==> decl_wf(*d),
        match r {
            Ok(json) => json@ == spec_tools_config(*d, string_views(doc_lines@)),
            Err(e) => introspection_error_matches(*d, e),
        },
{
    match generate_tool_schema(d, doc_lines) {
        Err(e) => Err(e),
        Ok(s) => Ok(schema_to_json(&s)),
    }
}

/// The view of one schema: name, description, property triples, required
/// names.
pub open spec fn schema_view(s: ToolSchema) -> (
    Seq<char>,
    Seq<char>,
    Seq<(Seq<char>, Seq<char>, Seq<char>)>,
    Seq<Seq<char>>,
) {
    (s.name@, s.description@, prop_views(s.properties@), req_views(s.required@))
}

/// The views of a sequence of schemas.
pub open spec fn schema_views(ss: Seq<ToolSchema>) -> Seq<
    (Seq<char>, Seq<char>, Seq<(Seq<char>, Seq<char>, Seq<char>)>, Seq<Seq<char>>),
> {
    Seq::new(ss.len(), |i: int| schema_view(ss[i]))
}

/// The comma-separated schema documents, in registration order.
pub open spec fn json_schema_list(
    vs: Seq<(Seq<char>, Seq<char>, Seq<(Seq<char>, Seq<char>, Seq<char>)>, Seq<Seq<char>>)>,
) -> Seq<char>
    decreases vs.len(),
{
    if vs.len() == 0 {
        Seq::empty()
    } else if vs.len() == 1 {
        json_schema(vs[0].0, vs[0].1, vs[0].2, vs[0].3)
    } else {
        json_schema_list(vs.drop_last()) + ","@ + json_schema(
            vs.last().0,
            vs.last().1,
            vs.last().2,
            vs.last().3,
        )
    }
}

/// An ordered collection of schemas accumulated across registrations and
/// serialized once, as a JSON list, instead of one overwritten single-schema
/// artifact: this makes registering several tools in one run well defined.
pub struct ToolRegistry {
    pub schemas: Vec<ToolSchema>,
}

impl ToolRegistry {
    /// A registry with nothing registered.
    pub fn new() -> (r: Self)
        ensures
            r.schemas@ == Seq::<ToolSchema>::empty(),
    {
        let r = ToolRegistry { schemas: Vec::new() };
        proof {
            assert(r.schemas@ =~= Seq::<ToolSchema>::empty());
        }
        r
    }

    /// Registers one declaration: appends its schema, in registration order.
    /// A declaration that is not well formed is rejected and leaves the
    /// registry unchanged.
    pub fn register(&mut self, d: &FnDecl, doc_lines: &Vec<String>) -> (r: Result<
        (),
        IntrospectionError,
    >)
        ensures
            r is Ok <==> decl_wf(*d),
            match r {
                Ok(()) => {
                    let doc = trimmed(joined_doc(string_views(doc_lines@)));
                    let sig = sig_pairs(d.params@);
                    &&& final(self).schemas@.drop_last() == old(self).schemas@
                    &&& final(self).schemas@.len() == old(self).schemas@.len() + 1
                    &&& schema_view(final(self).schemas@.last()) == (
                        d.name@,
                        spec_description(doc),
                        assembled_triples(sig, spec_param_docs(doc)),
                        sig_names(sig),
                    )
                    &&& schema_wf(final(self).schemas@.last())
                },
                Err(e) => final(self).schemas@ == old(self).schemas@
                    && introspection_error_matches(*d, e),
            },
    {
        match generate_tool_schema(d, doc_lines) {
            Err(e) => Err(e),
            Ok(s) => {
                self.schemas.push(s);
                proof {
                    assert(self.schemas@.drop_last() =~= old(self).schemas@);
                }
                Ok(())
            },
        }
    }

    /// Serializes every registered schema, in order, as one JSON list.
    pub fn serialize_all(&self) -> (r: String)
        ensures
            r@ == "["@ + json_schema_list(schema_views(self.schemas@)) + "]"@,
    {
        let ghost views = schema_views(self.schemas@);
        let mut out = String::new();
        out.append("[");
        let ghost base = out@;
        proof {
            assert(views.take(0) =~= Seq::<
                (Seq<char>, Seq<char>, Seq<(Seq<char>, Seq<char>, Seq<char>)>, Seq<Seq<char>>),
            >::empty());
            assert(out@ =~= base + json_schema_list(views.take(0)));
        }
        let mut i: usize = 0;
        while i < self.schemas.len()
            invariant
                i <= self.schemas.len(),
                out@ == base + json_schema_list(views.take(i as int)),
            decreases self.schemas.len() - i,
        {
            if i > 0 {
                out.append(",");
            }
            let piece = schema_to_json(&self.schemas[i]);
            out.append(piece.as_str());
            proof {
                assert(views.take(i + 1).drop_last() =~= views.take(i as int));
                assert(views.take(i + 1).last() == views[i as int]);
                assert(views[i as int] == schema_view(self.schemas@[i as int]));
                assert(out@ =~= base + json_schema_list(views.take(i + 1)));
            }
            i = i + 1;
        }
        proof {
            assert(views.take(self.schemas@.len() as int) =~= views);
        }
        out.append("]");
        proof {
            assert(out@ =~= "["@ + json_schema_list(views) + "]"@);
        }
        out
    }
}

/// A declaration with no parameters yields a schema whose properties and
/// required list are both empty.
pub proof fn lemma_zero_params(d: FnDecl, docs: Map<Seq<char>, Seq<char>>)
    requires
        d.params@.len() == 0,
    ensures
        sig_pairs(d.params@).len() == 0,
        assembled_triples(sig_pairs(d.params@), docs).len() == 0,
        sig_names(sig_pairs(d.params@)).len() == 0,
{
}

/// Generation is deterministic: two serialized outputs obtained from the
/// same declaration and documentation lines are byte-identical.
pub proof fn lemma_generation_deterministic(
    out1: String,
    out2: String,
    d: FnDecl,
    doc_lines: Seq<Seq<char>>,
)
    requires
        out1@ == spec_tools_config(d, doc_lines),
        out2@ == spec_tools_config(d, doc_lines),
    ensures
        out1@ == out2@,
{
}

/// An underscore-prefixed declared parameter finds the documentation that
/// tags its bare name.
pub proof fn lemma_underscore_stripping(docs: Map<Seq<char>, Seq<char>>, name: Seq<char>)
    requires
        name.len() > 0,
        name[0] == '_',
        docs.contains_key(name.skip(1)),
    ensures
        doc_text_for(docs, name) == docs[name.skip(1)],
{
}

/// A declared type with no name degrades to the tag `unknown` instead of
/// failing introspection.
pub proof fn lemma_unnamed_type_tag(t: TypeExpr)
    requires
        t is Unnamed,
    ensures
        spec_type_tag(t) == unknown_tag(),
{
}

} // verus!
