use assist::schema::FnDecl;
use assist::schema::IntrospectionError;
use assist::schema::Param;
use assist::schema::TypeExpr;
use assist::schema::generate_tool_schema;
use assist::schema::generate_tools_config;
use assist::schema::introspect;
use assist::schema::type_tag;

fn named(name: &str, args: Vec<TypeExpr>) -> TypeExpr {
    TypeExpr::Named { name: name.to_string(), args }
}

fn typed(name: &str, ty: TypeExpr) -> Param {
    Param::Typed { name: name.to_string(), ty }
}

fn example_decl() -> FnDecl {
    FnDecl {
        name: "example_function".to_string(),
        params: vec![
            typed("decision", named("bool", Vec::new())),
            typed("confidence", named("list", vec![named("list", vec![named("float", Vec::new())])])),
            typed("answer", named("string", Vec::new())),
            typed("reasoning", TypeExpr::Optional(Box::new(named("string", Vec::new())))),
        ],
    }
}

fn example_doc_lines() -> Vec<String> {
    vec![
        "Forces the AI to make a yes/no choice on the situation at hand.".to_string(),
        "param decision: The answer to the decision, true for yes, false for no.".to_string(),
        "param confidence: Floating point confidence values of the decisions.".to_string(),
        "param answer: Yes or no string which represents the decision.".to_string(),
        "param reasoning: The justification as to why the decision was made.".to_string(),
    ]
}

#[test]
fn end_to_end_example_function() {
    let schema = generate_tool_schema(&example_decl(), &example_doc_lines()).unwrap();
    assert_eq!(schema.name.as_str(), "example_function");
    assert_eq!(
        schema.description.as_str(),
        "Forces the AI to make a yes/no choice on the situation at hand."
    );
    assert_eq!(schema.properties.len(), 4);
    let names: Vec<&str> = schema.properties.iter().map(|p| p.name.as_str()).collect();
    assert_eq!(names, vec!["decision", "confidence", "answer", "reasoning"]);
    let tags: Vec<&str> = schema.properties.iter().map(|p| p.param_type.as_str()).collect();
    assert_eq!(tags, vec!["bool", "list", "string", "string"]);
    assert_eq!(
        schema.properties[0].description.as_str(),
        "The answer to the decision, true for yes, false for no."
    );
    assert_eq!(
        schema.properties[1].description.as_str(),
        "Floating point confidence values of the decisions."
    );
    assert_eq!(
        schema.properties[2].description.as_str(),
        "Yes or no string which represents the decision."
    );
    assert_eq!(
        schema.properties[3].description.as_str(),
        "The justification as to why the decision was made."
    );
    let required: Vec<&str> = schema.required.iter().map(|s| s.as_str()).collect();
    assert_eq!(required, vec!["decision", "confidence", "answer", "reasoning"]);
}

#[test]
fn end_to_end_serialized_document() {
    let json = generate_tools_config(&example_decl(), &example_doc_lines()).unwrap();
    let expected = "{\"name\":\"example_function\",\"description\":\"Forces the AI to make a yes/no choice on the situation at hand.\",\"parameters\":{\"type\":\"object\",\"properties\":{\"decision\":{\"type\":\"bool\",\"description\":\"The answer to the decision, true for yes, false for no.\"},\"confidence\":{\"type\":\"list\",\"description\":\"Floating point confidence values of the decisions.\"},\"answer\":{\"type\":\"string\",\"description\":\"Yes or no string which represents the decision.\"},\"reasoning\":{\"type\":\"string\",\"description\":\"The justification as to why the decision was made.\"}},\"required\":[\"decision\",\"confidence\",\"answer\",\"reasoning\"]}}";
    assert_eq!(json.as_str(), expected);
}

#[test]
fn zero_parameters_yield_empty_schema() {
    let decl = FnDecl { name: "f".to_string(), params: Vec::new() };
    let schema = generate_tool_schema(&decl, &vec!["Does a thing.".to_string()]).unwrap();
    assert!(schema.properties.is_empty());
    assert!(schema.required.is_empty());
    let json = generate_tools_config(&decl, &vec!["Does a thing.".to_string()]).unwrap();
    assert_eq!(
        json.as_str(),
        "{\"name\":\"f\",\"description\":\"Does a thing.\",\"parameters\":{\"type\":\"object\",\"properties\":{},\"required\":[]}}"
    );
}

#[test]
fn generation_is_idempotent() {
    let a = generate_tools_config(&example_decl(), &example_doc_lines()).unwrap();
    let b = generate_tools_config(&example_decl(), &example_doc_lines()).unwrap();
    assert_eq!(a, b);
}

#[test]
fn required_keeps_declaration_order() {
    let decl = FnDecl {
        name: "f".to_string(),
        params: vec![
            typed("zebra", named("int", Vec::new())),
            typed("apple", named("int", Vec::new())),
            typed("mango", named("int", Vec::new())),
        ],
    };
    let schema = generate_tool_schema(&decl, &Vec::new()).unwrap();
    let required: Vec<&str> = schema.required.iter().map(|s| s.as_str()).collect();
    assert_eq!(required, vec!["zebra", "apple", "mango"]);
}

#[test]
fn underscore_parameter_matches_bare_doc_tag() {
    let decl = FnDecl {
        name: "f".to_string(),
        params: vec![typed("_reasoning", named("string", Vec::new()))],
    };
    let doc = vec!["param reasoning: The justification.".to_string()];
    let schema = generate_tool_schema(&decl, &doc).unwrap();
    assert_eq!(schema.properties[0].name.as_str(), "_reasoning");
    assert_eq!(schema.properties[0].description.as_str(), "The justification.");
}

#[test]
fn unnamed_type_degrades_to_unknown() {
    let decl = FnDecl {
        name: "f".to_string(),
        params: vec![typed("x", TypeExpr::Unnamed)],
    };
    let schema = generate_tool_schema(&decl, &Vec::new()).unwrap();
    assert_eq!(schema.properties[0].param_type.as_str(), "unknown");
}

#[test]
fn type_tags_flatten_to_outermost_name() {
    assert_eq!(type_tag(&named("bool", Vec::new())).as_str(), "bool");
    let nested = named("list", vec![named("list", vec![named("float", Vec::new())])]);
    assert_eq!(type_tag(&nested).as_str(), "list");
    let optional = TypeExpr::Optional(Box::new(named("string", Vec::new())));
    assert_eq!(type_tag(&optional).as_str(), "string");
    assert_eq!(type_tag(&TypeExpr::Unnamed).as_str(), "unknown");
}

#[test]
fn receiver_parameter_is_excluded() {
    let decl = FnDecl {
        name: "m".to_string(),
        params: vec![Param::Receiver, typed("x", named("int", Vec::new()))],
    };
    let schema = generate_tool_schema(&decl, &Vec::new()).unwrap();
    assert_eq!(schema.properties.len(), 1);
    assert_eq!(schema.properties[0].name.as_str(), "x");
}

#[test]
fn missing_doc_entry_gives_empty_description() {
    let decl = FnDecl { name: "f".to_string(), params: vec![typed("x", named("int", Vec::new()))] };
    let schema = generate_tool_schema(&decl, &vec!["Text.".to_string()]).unwrap();
    assert_eq!(schema.properties[0].description.as_str(), "");
}

#[test]
fn empty_function_name_is_rejected() {
    let decl = FnDecl { name: String::new(), params: Vec::new() };
    let e = generate_tool_schema(&decl, &Vec::new()).unwrap_err();
    assert_eq!(e, IntrospectionError::EmptyFunctionName);
}

#[test]
fn empty_parameter_name_is_rejected() {
    let decl = FnDecl {
        name: "f".to_string(),
        params: vec![typed("", named("int", Vec::new()))],
    };
    let e = introspect(&decl).unwrap_err();
    assert_eq!(e, IntrospectionError::EmptyParameterName);
}

#[test]
fn duplicate_parameter_name_is_rejected() {
    let decl = FnDecl {
        name: "f".to_string(),
        params: vec![
            typed("x", named("int", Vec::new())),
            typed("x", named("bool", Vec::new())),
        ],
    };
    let e = introspect(&decl).unwrap_err();
    assert_eq!(e, IntrospectionError::DuplicateParameterName);
}

#[test]
fn introspect_lists_pairs_in_order() {
    let decl = FnDecl {
        name: "f".to_string(),
        params: vec![
            typed("a", named("bool", Vec::new())),
            typed("b", TypeExpr::Unnamed),
        ],
    };
    let sig = introspect(&decl).unwrap();
    assert_eq!(sig.len(), 2);
    assert_eq!(sig[0].0.as_str(), "a");
    assert_eq!(sig[0].1.as_str(), "bool");
    assert_eq!(sig[1].0.as_str(), "b");
    assert_eq!(sig[1].1.as_str(), "unknown");
}

#[test]
fn descriptions_are_json_escaped() {
    let decl = FnDecl { name: "f".to_string(), params: vec![typed("x", named("int", Vec::new()))] };
    let doc = vec![
        "Say \"hi\" with a \\ backslash.".to_string(),
        "param x: tab\there".to_string(),
    ];
    let json = generate_tools_config(&decl, &doc).unwrap();
    let expected = "{\"name\":\"f\",\"description\":\"Say \\\"hi\\\" with a \\\\ backslash.\",\"parameters\":{\"type\":\"object\",\"properties\":{\"x\":{\"type\":\"int\",\"description\":\"tab\\there\"}},\"required\":[\"x\"]}}";
    assert_eq!(json.as_str(), expected);
}

#[test]
fn registry_serializes_registrations_in_order() {
    let mut registry = assist::schema::ToolRegistry::new();
    let f = FnDecl { name: "f".to_string(), params: vec![typed("x", named("int", Vec::new()))] };
    let g = FnDecl { name: "g".to_string(), params: Vec::new() };
    registry.register(&f, &vec!["Doc f.".to_string()]).unwrap();
    registry.register(&g, &vec!["Doc g.".to_string()]).unwrap();
    let json = registry.serialize_all();
    let expected = "[{\"name\":\"f\",\"description\":\"Doc f.\",\"parameters\":{\"type\":\"object\",\"properties\":{\"x\":{\"type\":\"int\",\"description\":\"\"}},\"required\":[\"x\"]}},{\"name\":\"g\",\"description\":\"Doc g.\",\"parameters\":{\"type\":\"object\",\"properties\":{},\"required\":[]}}]";
    assert_eq!(json.as_str(), expected);
}

#[test]
fn registry_rejects_and_stays_unchanged() {
    let mut registry = assist::schema::ToolRegistry::new();
    let bad = FnDecl { name: String::new(), params: Vec::new() };
    let e = registry.register(&bad, &Vec::new()).unwrap_err();
    assert_eq!(e, IntrospectionError::EmptyFunctionName);
    assert!(registry.schemas.is_empty());
    assert_eq!(registry.serialize_all().as_str(), "[]");
}
