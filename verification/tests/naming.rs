use std::collections::HashMap;

use luau_lifter::ast::{
    Assign, Binary, BinaryOperation, Block, Call, Closure, Index, LValue, Literal, LocalNames,
    MethodCall, RValue, Return, Select, Statement, Table,
};
use luau_lifter::naming::{
    classify_table, extract_base_name, extract_last_index_name, extract_name,
    extract_require_arg, extract_string_arg, find_first_field_assign, find_require_cache_name,
    find_returned_local, rename_services,
};

fn string(s: &str) -> RValue {
    RValue::Literal(Literal::String(s.as_bytes().to_vec()))
}

fn global(s: &str) -> RValue {
    RValue::Global(s.as_bytes().to_vec())
}

fn index(left: RValue, right: RValue) -> RValue {
    RValue::Index(Index { left: Box::new(left), right: Box::new(right) })
}

fn method_call(value: RValue, method: &str, arguments: Vec<RValue>) -> MethodCall {
    MethodCall { value: Box::new(value), method: method.to_string(), arguments }
}

fn call(value: RValue, arguments: Vec<RValue>) -> Call {
    Call { value: Box::new(value), arguments }
}

fn local_decl(local: usize, value: RValue) -> Statement {
    Statement::Assign(Assign { left: vec![LValue::Local(local)], right: vec![value], prefix: true })
}

fn assign(left: LValue, value: RValue) -> Statement {
    Statement::Assign(Assign { left: vec![left], right: vec![value], prefix: false })
}

fn ret(local: usize) -> Statement {
    Statement::Return(Return { values: vec![RValue::Local(local)] })
}

fn get_service(name: &str) -> RValue {
    RValue::Select(Select::MethodCall(method_call(global("game"), "GetService", vec![string(name)])))
}

fn require(path: RValue) -> RValue {
    RValue::Call(call(global("require"), vec![path]))
}

fn named(pairs: &[(usize, &str)]) -> LocalNames {
    let mut names = HashMap::new();
    for (local, name) in pairs {
        names.insert(*local, name.to_string());
    }
    names
}

fn name_of(names: &LocalNames, local: usize) -> Option<&str> {
    names.get(&local).map(|s| s.as_str())
}

#[test]
fn readme_module_and_place_id() {
    // local v1 = {}
    // local v2 = game.PlaceId
    // v1.Products = {}
    // return v1
    let body = Block(vec![
        local_decl(1, RValue::Table(Table(vec![]))),
        local_decl(2, index(global("game"), string("PlaceId"))),
        assign(
            LValue::Index(Index {
                left: Box::new(RValue::Local(1)),
                right: Box::new(string("Products")),
            }),
            RValue::Table(Table(vec![])),
        ),
        ret(1),
    ]);
    let mut names = named(&[(1, "v1"), (2, "v2")]);
    rename_services(&body, &mut names);
    assert_eq!(name_of(&names, 1), Some("Module"));
    assert_eq!(name_of(&names, 2), Some("PlaceId"));
}

#[test]
fn services_are_numbered_when_repeated() {
    let mut stmts = Vec::new();
    for local in 0..12 {
        stmts.push(local_decl(local, get_service("Players")));
    }
    let body = Block(stmts);
    let mut names = LocalNames::new();
    rename_services(&body, &mut names);
    assert_eq!(name_of(&names, 0), Some("Players"));
    assert_eq!(name_of(&names, 1), Some("Players_2"));
    assert_eq!(name_of(&names, 8), Some("Players_9"));
    assert_eq!(name_of(&names, 9), Some("Players_10"));
    assert_eq!(name_of(&names, 11), Some("Players_12"));
}

#[test]
fn clone_uses_the_name_just_given() {
    // local v1 = game:GetService("ReplicatedStorage")
    // local v2 = v1:Clone()
    let body = Block(vec![
        local_decl(1, get_service("ReplicatedStorage")),
        local_decl(2, RValue::MethodCall(method_call(RValue::Local(1), "Clone", vec![]))),
    ]);
    let mut names = named(&[(1, "v1"), (2, "v2")]);
    rename_services(&body, &mut names);
    assert_eq!(name_of(&names, 1), Some("ReplicatedStorage"));
    assert_eq!(name_of(&names, 2), Some("ReplicatedStorage_Clone"));
}

#[test]
fn clone_of_underscore_local_is_not_named() {
    let body = Block(vec![local_decl(
        2,
        RValue::MethodCall(method_call(RValue::Local(1), "Clone", vec![])),
    )]);
    let mut names = named(&[(1, "_"), (2, "v2")]);
    rename_services(&body, &mut names);
    assert_eq!(name_of(&names, 2), Some("v2"));
    assert_eq!(name_of(&names, 1), Some("_"));
}

#[test]
fn instances_children_and_modules() {
    // local a = Instance.new("Part")
    // local b = workspace:WaitForChild("Map")
    // local c = require(script.Parent.Remote)
    // local d = require(script:FindFirstChild("Util"))
    let body = Block(vec![
        local_decl(
            1,
            RValue::Call(call(index(global("Instance"), string("new")), vec![string("Part")])),
        ),
        local_decl(
            2,
            RValue::Select(Select::MethodCall(method_call(
                global("workspace"),
                "WaitForChild",
                vec![string("Map")],
            ))),
        ),
        local_decl(3, require(index(index(global("script"), string("Parent")), string("Remote")))),
        local_decl(
            4,
            RValue::Select(Select::Call(call(
                global("require"),
                vec![RValue::MethodCall(method_call(
                    global("script"),
                    "FindFirstChild",
                    vec![string("Util")],
                ))],
            ))),
        ),
    ]);
    let mut names = LocalNames::new();
    rename_services(&body, &mut names);
    assert_eq!(name_of(&names, 1), Some("Part"));
    assert_eq!(name_of(&names, 2), Some("Map"));
    assert_eq!(name_of(&names, 3), Some("Remote"));
    assert_eq!(name_of(&names, 4), Some("Util"));
}

#[test]
fn tables_are_named_by_kind() {
    let closure = RValue::Closure(Closure { body: Block(vec![]) });
    let body = Block(vec![
        local_decl(1, RValue::Table(Table(vec![(None, string("a"))]))),
        local_decl(2, RValue::Table(Table(vec![(Some(string("k")), string("a"))]))),
        local_decl(3, RValue::Table(Table(vec![(Some(string("f")), closure)]))),
        local_decl(
            4,
            RValue::Table(Table(vec![
                (Some(string("x")), RValue::Literal(Literal::Integer(3))),
                (Some(string("y")), RValue::Literal(Literal::Number(2.5f64.to_bits()))),
            ])),
        ),
        local_decl(
            5,
            RValue::Table(Table(vec![
                (Some(string("x")), RValue::Literal(Literal::Boolean(true))),
                (Some(string("y")), string("s")),
            ])),
        ),
        local_decl(6, RValue::Table(Table(vec![(None, string("b"))]))),
    ]);
    let mut names = LocalNames::new();
    rename_services(&body, &mut names);
    assert_eq!(name_of(&names, 1), Some("List"));
    assert_eq!(name_of(&names, 2), Some("Strings"));
    assert_eq!(name_of(&names, 3), Some("Handlers"));
    assert_eq!(name_of(&names, 4), Some("IDs"));
    assert_eq!(name_of(&names, 5), Some("Config"));
    assert_eq!(name_of(&names, 6), Some("List_2"));
}

#[test]
fn classify_empty_table() {
    assert_eq!(classify_table(&Table(vec![])), "Strings");
}

#[test]
fn empty_table_named_after_first_field() {
    // local t = {}
    // t["not a name"] = 1
    // t.Settings = 2
    let body = Block(vec![
        local_decl(7, RValue::Table(Table(vec![]))),
        assign(
            LValue::Index(Index {
                left: Box::new(RValue::Local(7)),
                right: Box::new(string("not a name")),
            }),
            RValue::Literal(Literal::Integer(1)),
        ),
        assign(
            LValue::Index(Index {
                left: Box::new(RValue::Local(7)),
                right: Box::new(string("Settings")),
            }),
            RValue::Literal(Literal::Integer(2)),
        ),
    ]);
    assert_eq!(find_first_field_assign(&body, 7), Some("Settings".to_string()));
    assert_eq!(find_first_field_assign(&body, 8), None);
    let mut names = LocalNames::new();
    rename_services(&body, &mut names);
    assert_eq!(name_of(&names, 7), Some("Settings_Table"));
}

#[test]
fn returned_local_is_the_last_return() {
    let body = Block(vec![ret(1), Statement::Other, ret(2), Statement::Return(Return { values: vec![] })]);
    assert_eq!(find_returned_local(&body), Some(2));
    assert_eq!(find_returned_local(&Block(vec![])), None);
}

#[test]
fn nil_local_named_after_cached_module() {
    let cache = |local: usize, module: &str| {
        assign(
            LValue::Local(local),
            RValue::Binary(Binary {
                left: Box::new(RValue::Local(local)),
                right: Box::new(require(index(global("script"), string(module)))),
                operation: BinaryOperation::Or,
            }),
        )
    };
    // local a = nil; a = a or require(script.Loader)
    // local b = nil; local f = function() b = b or require(script.Lazy) end
    let body = Block(vec![
        local_decl(1, RValue::Literal(Literal::Nil)),
        cache(1, "Loader"),
        local_decl(2, RValue::Literal(Literal::Nil)),
        local_decl(3, RValue::Closure(Closure { body: Block(vec![cache(2, "Lazy")]) })),
        local_decl(4, RValue::Literal(Literal::Nil)),
    ]);
    assert_eq!(find_require_cache_name(&body, 1), Some("Loader".to_string()));
    assert_eq!(find_require_cache_name(&body, 2), Some("Lazy".to_string()));
    assert_eq!(find_require_cache_name(&body, 4), None);
    let mut names = named(&[(4, "v4")]);
    rename_services(&body, &mut names);
    assert_eq!(name_of(&names, 1), Some("Loader"));
    assert_eq!(name_of(&names, 2), Some("Lazy"));
    assert_eq!(name_of(&names, 4), Some("v4"));
    assert_eq!(name_of(&names, 3), None);
}

#[test]
fn undeclared_locals_keep_their_names() {
    // v1 = game:GetService("Players")   (not a declaration)
    let body = Block(vec![assign(LValue::Local(1), get_service("Players"))]);
    let mut names = named(&[(1, "v1")]);
    rename_services(&body, &mut names);
    assert_eq!(name_of(&names, 1), Some("v1"));
}

#[test]
fn string_arguments_must_be_names() {
    assert_eq!(extract_string_arg(&string("Players")), Some("Players".to_string()));
    assert_eq!(extract_string_arg(&string("Two Words")), None);
    assert_eq!(extract_string_arg(&string("")), None);
    assert_eq!(extract_string_arg(&string("snake_case_1")), Some("snake_case_1".to_string()));
    assert_eq!(extract_string_arg(&string("Über")), Some("Über".to_string()));
    assert_eq!(extract_string_arg(&RValue::Literal(Literal::String(vec![0xff, 0x41]))), None);
    assert_eq!(extract_string_arg(&global("Players")), None);
}

#[test]
fn field_names_must_start_like_names() {
    let names = LocalNames::new();
    assert_eq!(extract_name(&index(global("game"), string("1st")), &names), None);
    assert_eq!(extract_name(&index(global("game"), string("_x1")), &names), Some("_x1".to_string()));
    assert_eq!(extract_last_index_name(&index(global("script"), string("1st"))), Some("1st".to_string()));
}

#[test]
fn require_needs_one_argument() {
    let two = RValue::Call(call(global("require"), vec![string("a"), string("b")]));
    assert_eq!(extract_require_arg(&two), None);
    let other = RValue::Call(call(global("load"), vec![index(global("script"), string("M"))]));
    assert_eq!(extract_require_arg(&other), None);
    assert_eq!(
        extract_require_arg(&require(index(global("script"), string("M")))),
        Some("M".to_string())
    );
}

#[test]
fn base_names_of_globals_and_locals() {
    let names = named(&[(1, "Camera")]);
    assert_eq!(extract_base_name(&RValue::Local(1), &names), Some("Camera".to_string()));
    assert_eq!(extract_base_name(&RValue::Local(2), &names), None);
    assert_eq!(extract_base_name(&global("workspace"), &names), Some("workspace".to_string()));
    assert_eq!(extract_base_name(&string("x"), &names), None);
    let clone = RValue::MethodCall(method_call(global("workspace"), "Clone", vec![]));
    assert_eq!(extract_name(&clone, &names), Some("workspace_Clone".to_string()));
    let clone_with_arg = RValue::MethodCall(method_call(global("workspace"), "Clone", vec![string("x")]));
    assert_eq!(extract_name(&clone_with_arg, &names), None);
}

#[test]
fn get_service_only_on_game() {
    let names = LocalNames::new();
    let other = RValue::MethodCall(method_call(global("other"), "GetService", vec![string("Players")]));
    assert_eq!(extract_name(&other, &names), None);
    assert_eq!(extract_name(&get_service("Players"), &names), Some("Players".to_string()));
}
