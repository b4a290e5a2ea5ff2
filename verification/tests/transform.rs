use add_display_name::ast::AssignOp;
use add_display_name::ast::Declarator;
use add_display_name::ast::Expr;
use add_display_name::ast::MemberProp;
use add_display_name::ast::Name;
use add_display_name::ast::Pat;
use add_display_name::ast::Stmt;
use add_display_name::classify::is_component_producing;
use add_display_name::extract::Component;
use add_display_name::extract::extract_candidates;
use add_display_name::labels::scan_existing_labels;
use add_display_name::pass::process_transform;
use add_display_name::schedule::add_display_names;
use add_display_name::schedule::insertion_plan;

fn name(t: &str) -> Name {
    Name { text: t.to_string(), ctxt: 0 }
}

fn name_ctxt(t: &str, c: u32) -> Name {
    Name { text: t.to_string(), ctxt: c }
}

fn ident(t: &str) -> Expr {
    Expr::Ident(name(t))
}

fn call(callee: Expr, args: Vec<Expr>) -> Expr {
    Expr::Call(Box::new(callee), args)
}

fn member(obj: Expr, prop: &str) -> Expr {
    Expr::Member(Box::new(obj), MemberProp::Named(prop.to_string()))
}

/// `() => <div />`: an arrow whose body returns a JSX element.
fn arrow_jsx() -> Expr {
    Expr::Func(vec![], vec![Stmt::Other(vec![Expr::Jsx(vec![])], vec![])])
}

/// `() => <></>`: an arrow whose body returns a JSX fragment.
fn arrow_fragment() -> Expr {
    Expr::Func(vec![], vec![Stmt::Other(vec![Expr::JsxFragment(vec![])], vec![])])
}

fn var_decl(exported: bool, n: &str, init: Expr) -> Stmt {
    Stmt::VarDecl {
        exported,
        decls: vec![Declarator { pat: Pat::Simple(name(n)), init: Some(init) }],
    }
}

/// The canonical synthesized statement `n.displayName = "n";`.
fn label_of(n: &str) -> Stmt {
    Stmt::ExprStmt(Expr::Assign(
        AssignOp::Plain,
        Box::new(member(ident(n), "displayName")),
        Box::new(Expr::StrLit(n.to_string())),
    ))
}

/// A manual label `n.displayName = "<text>";`.
fn manual_label(n: &str, text: &str) -> Stmt {
    Stmt::ExprStmt(Expr::Assign(
        AssignOp::Plain,
        Box::new(member(ident(n), "displayName")),
        Box::new(Expr::StrLit(text.to_string())),
    ))
}

#[test]
fn basic_export() {
    let input = vec![var_decl(true, "Component", arrow_jsx())];
    let expected = vec![var_decl(true, "Component", arrow_jsx()), label_of("Component")];
    assert_eq!(process_transform(input), expected);
}

#[test]
fn basic_non_export() {
    let input = vec![var_decl(false, "Component", arrow_jsx())];
    let expected = vec![var_decl(false, "Component", arrow_jsx()), label_of("Component")];
    assert_eq!(process_transform(input), expected);
}

#[test]
fn returning_fragment() {
    let input = vec![var_decl(true, "Component", arrow_fragment())];
    let expected = vec![var_decl(true, "Component", arrow_fragment()), label_of("Component")];
    assert_eq!(process_transform(input), expected);
}

#[test]
fn fn_expression_export_multiline() {
    // const a = {};
    // export const Component = function() { return <div />; }
    // export default Component;
    let input = vec![
        var_decl(false, "a", Expr::Object(vec![])),
        var_decl(true, "Component", arrow_jsx()),
        Stmt::DefaultExportExpr(ident("Component")),
    ];
    let expected = vec![
        var_decl(false, "a", Expr::Object(vec![])),
        var_decl(true, "Component", arrow_jsx()),
        label_of("Component"),
        Stmt::DefaultExportExpr(ident("Component")),
    ];
    assert_eq!(process_transform(input), expected);
}

#[test]
fn fn_declaration_export() {
    let input = vec![Stmt::FnDecl {
        exported: true,
        name: name("Component"),
        params: vec![],
        body: vec![Stmt::Other(vec![Expr::Jsx(vec![])], vec![])],
    }];
    let expected = vec![
        Stmt::FnDecl {
            exported: true,
            name: name("Component"),
            params: vec![],
            body: vec![Stmt::Other(vec![Expr::Jsx(vec![])], vec![])],
        },
        label_of("Component"),
    ];
    assert_eq!(process_transform(input), expected);
}

#[test]
fn fn_declaration_default_export() {
    let input = vec![Stmt::DefaultExportFn {
        name: Some(name("Component")),
        params: vec![],
        body: vec![Stmt::Other(vec![Expr::Jsx(vec![])], vec![])],
    }];
    let out = process_transform(input);
    assert_eq!(out.len(), 2);
    assert_eq!(out[1], label_of("Component"));
}

#[test]
fn anonymous_default_export_fn_ignored() {
    let input = vec![Stmt::DefaultExportFn {
        name: None,
        params: vec![],
        body: vec![Stmt::Other(vec![Expr::Jsx(vec![])], vec![])],
    }];
    let expected = vec![Stmt::DefaultExportFn {
        name: None,
        params: vec![],
        body: vec![Stmt::Other(vec![Expr::Jsx(vec![])], vec![])],
    }];
    assert_eq!(process_transform(input), expected);
}

#[test]
fn memo_wrapped_component() {
    let input = vec![var_decl(true, "Component", call(ident("memo"), vec![arrow_jsx()]))];
    let expected = vec![
        var_decl(true, "Component", call(ident("memo"), vec![arrow_jsx()])),
        label_of("Component"),
    ];
    assert_eq!(process_transform(input), expected);
}

#[test]
fn two_components() {
    let input = vec![
        var_decl(true, "Foo", arrow_jsx()),
        var_decl(true, "Bar", call(ident("memo"), vec![arrow_jsx()])),
    ];
    let expected = vec![
        var_decl(true, "Foo", arrow_jsx()),
        label_of("Foo"),
        var_decl(true, "Bar", call(ident("memo"), vec![arrow_jsx()])),
        label_of("Bar"),
    ];
    assert_eq!(process_transform(input), expected);
}

#[test]
fn three_components() {
    let input = vec![
        var_decl(true, "Foo", arrow_jsx()),
        var_decl(true, "Bar", call(ident("memo"), vec![arrow_jsx()])),
        var_decl(true, "Baz", call(ident("observer"), vec![arrow_jsx()])),
    ];
    let out = process_transform(input);
    assert_eq!(out.len(), 6);
    assert_eq!(out[1], label_of("Foo"));
    assert_eq!(out[3], label_of("Bar"));
    assert_eq!(out[5], label_of("Baz"));
}

#[test]
fn one_const_statement_multiple_declarators() {
    // const Foo = () => <div />, Bar = memo(() => <div />);
    let input = vec![Stmt::VarDecl {
        exported: false,
        decls: vec![
            Declarator { pat: Pat::Simple(name("Foo")), init: Some(arrow_jsx()) },
            Declarator {
                pat: Pat::Simple(name("Bar")),
                init: Some(call(ident("memo"), vec![arrow_jsx()])),
            },
        ],
    }];
    let out = process_transform(input);
    assert_eq!(out.len(), 3);
    assert_eq!(out[1], label_of("Foo"));
    assert_eq!(out[2], label_of("Bar"));
}

#[test]
fn should_not_work_on_normal_fn() {
    // export const fn = () => console.log();
    let body = Expr::Func(
        vec![],
        vec![Stmt::Other(vec![call(member(ident("console"), "log"), vec![])], vec![])],
    );
    let input = vec![var_decl(true, "fn", body)];
    let out = process_transform(input);
    assert_eq!(out.len(), 1);
}

#[test]
fn should_not_work_on_default_export_expr() {
    // export default (() => <div />);
    let input = vec![Stmt::DefaultExportExpr(Expr::Paren(Box::new(arrow_jsx())))];
    let expected = vec![Stmt::DefaultExportExpr(Expr::Paren(Box::new(arrow_jsx())))];
    assert_eq!(process_transform(input), expected);
}

#[test]
fn should_not_work_on_non_top_level_fns() {
    // const fn = () => { const render = () => <div />; return render; };
    let outer = Expr::Func(
        vec![],
        vec![
            var_decl(false, "render", arrow_jsx()),
            Stmt::Other(vec![ident("render")], vec![]),
        ],
    );
    let input = vec![var_decl(false, "fn", outer)];
    let out = process_transform(input);
    assert_eq!(out.len(), 2);
    assert_eq!(out[1], label_of("fn"));
    // The inner binding got no label anywhere.
    assert!(!out.contains(&label_of("render")));
}

#[test]
fn should_not_work_on_direct_jsx_element() {
    let input = vec![
        var_decl(false, "foo", Expr::Jsx(vec![])),
        var_decl(false, "bar", Expr::JsxFragment(vec![])),
    ];
    let out = process_transform(input);
    assert_eq!(out.len(), 2);
}

#[test]
fn should_not_work_on_object_literal() {
    // const foo = { bar: <div /> };
    let input = vec![var_decl(false, "foo", Expr::Object(vec![Expr::Jsx(vec![])]))];
    let out = process_transform(input);
    assert_eq!(out.len(), 1);
}

#[test]
fn should_not_work_on_parenthesized() {
    let input = vec![var_decl(false, "foo", Expr::Paren(Box::new(arrow_jsx())))];
    let out = process_transform(input);
    assert_eq!(out.len(), 1);
}

#[test]
fn should_not_duplicate_existed() {
    let input = vec![var_decl(true, "Component", arrow_jsx()), label_of("Component")];
    let expected = vec![var_decl(true, "Component", arrow_jsx()), label_of("Component")];
    assert_eq!(process_transform(input), expected);
}

#[test]
fn should_not_rewrite_existed() {
    let input = vec![
        var_decl(true, "Component", arrow_jsx()),
        manual_label("Component", "CustomName"),
    ];
    let expected = vec![
        var_decl(true, "Component", arrow_jsx()),
        manual_label("Component", "CustomName"),
    ];
    assert_eq!(process_transform(input), expected);
}

#[test]
fn compound_assignment_does_not_suppress() {
    // Component.displayName += "x"; does not count as an existing label.
    let compound = Stmt::ExprStmt(Expr::Assign(
        AssignOp::Compound,
        Box::new(member(ident("Component"), "displayName")),
        Box::new(Expr::StrLit("x".to_string())),
    ));
    let input = vec![var_decl(true, "Component", arrow_jsx()), compound];
    let out = process_transform(input);
    assert_eq!(out.len(), 3);
    assert_eq!(out[1], label_of("Component"));
}

#[test]
fn other_property_does_not_suppress() {
    // Component.somethingElse = "x"; does not count as a label.
    let other = Stmt::ExprStmt(Expr::Assign(
        AssignOp::Plain,
        Box::new(member(ident("Component"), "somethingElse")),
        Box::new(Expr::StrLit("x".to_string())),
    ));
    let input = vec![var_decl(true, "Component", arrow_jsx()), other];
    let out = process_transform(input);
    assert_eq!(out.len(), 3);
    assert_eq!(out[1], label_of("Component"));
}

#[test]
fn jsx_runtime_call() {
    // export const Component = () => jsx("div", { children: "hello" });
    let body = Expr::Func(
        vec![],
        vec![Stmt::Other(
            vec![call(
                ident("jsx"),
                vec![Expr::StrLit("div".to_string()), Expr::Object(vec![])],
            )],
            vec![],
        )],
    );
    let input = vec![var_decl(true, "Component", body)];
    let out = process_transform(input);
    assert_eq!(out.len(), 2);
    assert_eq!(out[1], label_of("Component"));
}

#[test]
fn namespace_create_element_call() {
    // export const Component = () => React.createElement("div", null, "hello");
    let body = Expr::Func(
        vec![],
        vec![Stmt::Other(
            vec![call(
                member(ident("React"), "createElement"),
                vec![Expr::StrLit("div".to_string())],
            )],
            vec![],
        )],
    );
    let input = vec![var_decl(true, "Component", body)];
    let out = process_transform(input);
    assert_eq!(out.len(), 2);
    assert_eq!(out[1], label_of("Component"));
}

#[test]
fn styled_component_template() {
    // const Button = styled.button`...`;
    let tpl = Expr::TaggedTpl(Box::new(member(ident("styled"), "button")), vec![]);
    let input = vec![var_decl(false, "Button", tpl)];
    let out = process_transform(input);
    assert_eq!(out.len(), 2);
    assert_eq!(out[1], label_of("Button"));
}

#[test]
fn unknown_call_not_component() {
    let input = vec![var_decl(
        true,
        "Component",
        call(ident("someOtherFunction"), vec![Expr::StrLit("div".to_string())]),
    )];
    let out = process_transform(input);
    assert_eq!(out.len(), 1);
}

#[test]
fn nested_namespace_gets_its_own_pass() {
    // A nested module block is processed at its own top level.
    let inner = vec![var_decl(true, "Inner", arrow_jsx())];
    let input = vec![Stmt::Nested(inner), var_decl(false, "Outer", arrow_jsx())];
    let out = process_transform(input);
    assert_eq!(out.len(), 3);
    assert_eq!(
        out[0],
        Stmt::Nested(vec![var_decl(true, "Inner", arrow_jsx()), label_of("Inner")])
    );
    assert_eq!(out[2], label_of("Outer"));
}

#[test]
fn idempotence_on_concrete_input() {
    let input = || {
        vec![
            var_decl(true, "Foo", arrow_jsx()),
            var_decl(false, "a", Expr::Object(vec![])),
            var_decl(true, "Bar", call(ident("memo"), vec![arrow_jsx()])),
        ]
    };
    let once = process_transform(input());
    let twice = process_transform(process_transform(input()));
    assert_eq!(once, twice);
}

#[test]
fn scope_token_carried_into_label() {
    let input = vec![Stmt::VarDecl {
        exported: false,
        decls: vec![Declarator {
            pat: Pat::Simple(name_ctxt("Component", 7)),
            init: Some(arrow_jsx()),
        }],
    }];
    let out = process_transform(input);
    assert_eq!(out.len(), 2);
    let expected_label = Stmt::ExprStmt(Expr::Assign(
        AssignOp::Plain,
        Box::new(Expr::Member(
            Box::new(Expr::Ident(name_ctxt("Component", 7))),
            MemberProp::Named("displayName".to_string()),
        )),
        Box::new(Expr::StrLit("Component".to_string())),
    ));
    assert_eq!(out[1], expected_label);
}

#[test]
fn suppression_is_text_based_across_scopes() {
    // A label for a same-named identifier in another scope still
    // suppresses synthesis: the scan is scope-insensitive.
    let foreign_label = Stmt::ExprStmt(Expr::Assign(
        AssignOp::Plain,
        Box::new(Expr::Member(
            Box::new(Expr::Ident(name_ctxt("Component", 9))),
            MemberProp::Named("displayName".to_string()),
        )),
        Box::new(Expr::StrLit("Component".to_string())),
    ));
    let input = vec![var_decl(true, "Component", arrow_jsx()), foreign_label];
    let out = process_transform(input);
    assert_eq!(out.len(), 2);
}

#[test]
fn destructuring_binding_never_a_candidate() {
    // const { a } = something_with_jsx; yields no candidate even though
    // the initializer produces UI.
    let input = vec![Stmt::VarDecl {
        exported: false,
        decls: vec![Declarator {
            pat: Pat::Complex(vec![]),
            init: Some(arrow_jsx()),
        }],
    }];
    let out = process_transform(input);
    assert_eq!(out.len(), 1);
}

#[test]
fn classifier_accepts_element_names() {
    for n in ["jsx", "jsxs", "_jsx", "_jsxs", "jsxDEV", "_jsxDEV", "createElement"] {
        assert!(is_component_producing(&call(ident(n), vec![])));
        assert!(is_component_producing(&call(member(ident("NS"), n), vec![])));
    }
}

#[test]
fn classifier_accepts_component_api_names() {
    for n in ["createContext", "observer", "connect", "styled"] {
        assert!(is_component_producing(&call(ident(n), vec![])));
        assert!(is_component_producing(&call(member(ident("Lib"), n), vec![])));
    }
}

#[test]
fn classifier_rejects_plain_code() {
    assert!(!is_component_producing(&ident("jsx")));
    assert!(!is_component_producing(&Expr::StrLit("jsx".to_string())));
    assert!(!is_component_producing(&call(ident("jsxx"), vec![])));
    assert!(!is_component_producing(&call(ident("JSX"), vec![])));
    assert!(!is_component_producing(&Expr::TaggedTpl(Box::new(ident("styledx")), vec![])));
}

#[test]
fn classifier_finds_jsx_deep_inside() {
    let deep = Expr::Other(vec![Expr::Other(vec![Expr::Member(
        Box::new(ident("x")),
        MemberProp::Computed(Box::new(Expr::Jsx(vec![]))),
    )])]);
    assert!(is_component_producing(&deep));
}

#[test]
fn classifier_styled_tag_requires_named_prop() {
    let computed_tag = Expr::TaggedTpl(
        Box::new(Expr::Member(
            Box::new(ident("styled")),
            MemberProp::Computed(Box::new(Expr::StrLit("div".to_string()))),
        )),
        vec![],
    );
    assert!(!is_component_producing(&computed_tag));
}

#[test]
fn extract_candidates_positions_and_names() {
    let input = vec![
        var_decl(false, "a", Expr::Object(vec![])),
        var_decl(true, "Foo", arrow_jsx()),
        var_decl(true, "Bar", arrow_jsx()),
    ];
    let comps: Vec<Component> = extract_candidates(&input);
    assert_eq!(comps.len(), 2);
    assert_eq!(comps[0].pos, 1);
    assert_eq!(comps[0].name.text, "Foo");
    assert_eq!(comps[1].pos, 2);
    assert_eq!(comps[1].name.text, "Bar");
}

#[test]
fn scan_existing_labels_collects_targets() {
    let input = vec![
        label_of("Foo"),
        Stmt::ExprStmt(Expr::Assign(
            AssignOp::Compound,
            Box::new(member(ident("Bar"), "displayName")),
            Box::new(Expr::StrLit("Bar".to_string())),
        )),
        manual_label("Baz", "Custom"),
    ];
    let labels = scan_existing_labels(&input);
    assert_eq!(labels, vec!["Foo".to_string(), "Baz".to_string()]);
}

#[test]
fn create_display_name_stmt_shape() {
    let comp = Component { pos: 0, name: name_ctxt("Widget", 3) };
    let stmt = comp.create_display_name_stmt();
    let expected = Stmt::ExprStmt(Expr::Assign(
        AssignOp::Plain,
        Box::new(Expr::Member(
            Box::new(Expr::Ident(name_ctxt("Widget", 3))),
            MemberProp::Named("displayName".to_string()),
        )),
        Box::new(Expr::StrLit("Widget".to_string())),
    ));
    assert_eq!(stmt, expected);
}

#[test]
fn add_display_names_appends_when_candidate_is_last() {
    let input = vec![var_decl(false, "OnlyOne", arrow_jsx())];
    let out = add_display_names(input);
    assert_eq!(out.len(), 2);
    assert_eq!(out[1], label_of("OnlyOne"));
}

#[test]
fn suppressed_candidate_adds_no_offset() {
    // export const Foo = () => <div />;
    // export const Bar = () => <div />;
    // Foo.displayName = "Foo";
    // Foo is suppressed by the manual label; Bar's label still lands
    // directly after Bar's declaration.
    let input = vec![
        var_decl(true, "Foo", arrow_jsx()),
        var_decl(true, "Bar", arrow_jsx()),
        label_of("Foo"),
    ];
    let expected = vec![
        var_decl(true, "Foo", arrow_jsx()),
        var_decl(true, "Bar", arrow_jsx()),
        label_of("Bar"),
        label_of("Foo"),
    ];
    assert_eq!(process_transform(input), expected);
}

#[test]
fn suppressed_candidate_between_later_statements() {
    // A is suppressed by its custom label; B's label goes directly
    // after B's declaration, before the trailing statement.
    let input = vec![
        var_decl(false, "A", arrow_jsx()),
        manual_label("A", "custom"),
        var_decl(false, "B", arrow_jsx()),
        var_decl(false, "c", Expr::Object(vec![])),
    ];
    let expected = vec![
        var_decl(false, "A", arrow_jsx()),
        manual_label("A", "custom"),
        var_decl(false, "B", arrow_jsx()),
        label_of("B"),
        var_decl(false, "c", Expr::Object(vec![])),
    ];
    assert_eq!(process_transform(input), expected);
}

#[test]
fn insertion_plan_skips_suppressed() {
    let input = vec![
        var_decl(true, "Foo", arrow_jsx()),
        var_decl(true, "Bar", arrow_jsx()),
        label_of("Foo"),
    ];
    let comps = extract_candidates(&input);
    let labeled = scan_existing_labels(&input);
    let plan = insertion_plan(input.len(), &comps, &labeled);
    assert_eq!(plan, vec![(1, 2)]);
}

#[test]
fn insertion_plan_lists_all_unsuppressed() {
    let input = vec![
        var_decl(true, "Foo", arrow_jsx()),
        var_decl(false, "a", Expr::Object(vec![])),
        var_decl(true, "Bar", arrow_jsx()),
    ];
    let comps = extract_candidates(&input);
    let labeled = scan_existing_labels(&input);
    let plan = insertion_plan(input.len(), &comps, &labeled);
    assert_eq!(plan, vec![(0, 1), (1, 4)]);
}
