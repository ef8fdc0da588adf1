//! Names for the locals of a decompiled module, guessed from what they are
//! first assigned: `local Players = game:GetService("Players")`,
//! `local Remote = require(script.Remote)`, `local Module = {}` for the table a
//! module returns, and so on.

use vstd::prelude::*;
use vstd::utf8::encode_utf8;
use vstd::string::*;
use rustc_hash::FxHashMap;

use crate::ast::{
    BinaryOperation, Block, Call, LValue, Literal, LocalId, LocalNames, MethodCall, RValue, Select,
    Statement, Table, local_names,
};
use crate::counts::{name_counts, new_name_counts, get_name_count, set_name_count};
use crate::text::{
    bytes_are_word, decimal, identifier, identifier_from_bytes, leading_char_ok, opt_text,
    push_decimal, starts_like_name, text_is, utf8_string, utf8_text,
};

verus! {

broadcast use vstd::std_specs::hash::group_hash_axioms;

// ---------------------------------------------------------------------------
// What each piece of the pass computes
// ---------------------------------------------------------------------------

/// `r` is the global variable spelled `word`.
pub open spec fn is_global_word(r: RValue, word: Seq<char>) -> bool {
    match r {
        RValue::Global(g) => g@ == encode_utf8(word),
        _ => false,
    }
}

/// The methods that look a child up by its name.
pub open spec fn is_child_lookup(method: Seq<char>) -> bool {
    method == "WaitForChild"@ || method == "FindFirstChild"@
}

/// The name spelled by a string literal argument.
pub open spec fn string_arg(r: RValue) -> Option<Seq<char>> {
    match r {
        RValue::Literal(Literal::String(bytes)) => identifier(bytes@),
        _ => None,
    }
}

/// The name of the child that `x:WaitForChild("Name")` or
/// `x:FindFirstChild("Name")` looks up.
pub open spec fn child_lookup_name(mc: MethodCall) -> Option<Seq<char>> {
    if is_child_lookup(mc.method@) && mc.arguments@.len() == 1 {
        string_arg(mc.arguments@[0])
    } else {
        None
    }
}

/// The name at the end of a path such as `script.Parent.Remote` or
/// `script:WaitForChild("Remote")`.
pub open spec fn last_index_name(r: RValue) -> Option<Seq<char>> {
    match r {
        RValue::Index(index) => match *index.right {
            RValue::Literal(Literal::String(field)) => identifier(field@),
            _ => None,
        },
        RValue::MethodCall(mc) => child_lookup_name(mc),
        RValue::Select(Select::MethodCall(mc)) => child_lookup_name(mc),
        _ => None,
    }
}

/// The name of the module that `require(path)` loads, named by the end of
/// its path.
pub open spec fn require_name(call: Call) -> Option<Seq<char>> {
    if is_global_word(*call.value, "require"@) && call.arguments@.len() == 1 {
        last_index_name(call.arguments@[0])
    } else {
        None
    }
}

/// The module name of an expression that is a call of `require`.
pub open spec fn require_arg(r: RValue) -> Option<Seq<char>> {
    match r {
        RValue::Call(call) => require_name(call),
        RValue::Select(Select::Call(call)) => require_name(call),
        _ => None,
    }
}

/// The name that a local already has, unless it is missing or `_`; for a
/// global, its name.
pub open spec fn base_name(r: RValue, names: Map<LocalId, Seq<char>>) -> Option<Seq<char>> {
    match r {
        RValue::Local(l) => if names.contains_key(l) && names[l] != "_"@ {
            Some(names[l])
        } else {
            None
        },
        RValue::Global(g) => utf8_text(g@),
        _ => None,
    }
}

/// The name for the result of a method call: the service of
/// `game:GetService("Name")`, the child of a lookup, or `Base_Clone` for
/// `base:Clone()`.
pub open spec fn method_call_name(mc: MethodCall, names: Map<LocalId, Seq<char>>) -> Option<
    Seq<char>,
> {
    if mc.method@ == "GetService"@ && is_global_word(*mc.value, "game"@) && mc.arguments@.len()
        == 1 {
        string_arg(mc.arguments@[0])
    } else if is_child_lookup(mc.method@) && mc.arguments@.len() == 1 {
        string_arg(mc.arguments@[0])
    } else if mc.method@ == "Clone"@ && mc.arguments@.len() == 0 {
        match base_name(*mc.value, names) {
            Some(base) => Some(base + "_Clone"@),
            None => None,
        }
    } else {
        None
    }
}

/// `Instance.new(...)` is called.
pub open spec fn is_instance_new(call: Call) -> bool {
    match *call.value {
        RValue::Index(index) => is_global_word(*index.left, "Instance"@) && match *index.right {
            RValue::Literal(Literal::String(field)) => field@ == encode_utf8("new"@),
            _ => false,
        },
        _ => false,
    }
}

/// The name for the result of a call: the class of `Instance.new("Class")`,
/// or the module of `require(path)`.
pub open spec fn call_name(call: Call) -> Option<Seq<char>> {
    if is_instance_new(call) && call.arguments@.len() >= 1 {
        string_arg(call.arguments@[0])
    } else if is_global_word(*call.value, "require"@) && call.arguments@.len() == 1 {
        last_index_name(call.arguments@[0])
    } else {
        None
    }
}

/// The name for a local from the expression it is declared with.
pub open spec fn rvalue_name(r: RValue, names: Map<LocalId, Seq<char>>) -> Option<Seq<char>> {
    match r {
        RValue::Select(Select::MethodCall(mc)) => method_call_name(mc, names),
        RValue::Select(Select::Call(call)) => call_name(call),
        RValue::MethodCall(mc) => method_call_name(mc, names),
        RValue::Call(call) => call_name(call),
        RValue::Index(index) => match *index.right {
            RValue::Literal(Literal::String(field)) => match identifier(field@) {
                Some(s) => if leading_char_ok(s) {
                    Some(s)
                } else {
                    None
                },
                None => None,
            },
            _ => None,
        },
        _ => None,
    }
}

/// A string literal.
pub open spec fn is_string_literal(r: RValue) -> bool {
    r matches RValue::Literal(Literal::String(_))
}

/// A function expression.
pub open spec fn is_closure(r: RValue) -> bool {
    r matches RValue::Closure(_)
}

/// A number literal.
pub open spec fn is_number_literal(r: RValue) -> bool {
    ||| r matches RValue::Literal(Literal::Number(_))
    ||| r matches RValue::Literal(Literal::Integer(_))
}

/// The kind of a table constructor: a `List` unless every entry has a key;
/// then `Strings`, `Handlers` or `IDs` when every value is a string, a
/// function or a number; else `Config`.
pub open spec fn table_kind(t: Table) -> Seq<char> {
    let entries = t.0@;
    if !(forall|i: int| 0 <= i < entries.len() ==> (#[trigger] entries[i]).0 is Some) {
        "List"@
    } else if forall|i: int| 0 <= i < entries.len() ==> is_string_literal((#[trigger] entries[i]).1) {
        "Strings"@
    } else if forall|i: int| 0 <= i < entries.len() ==> is_closure((#[trigger] entries[i]).1) {
        "Handlers"@
    } else if forall|i: int| 0 <= i < entries.len() ==> is_number_literal(
        (#[trigger] entries[i]).1,
    ) {
        "IDs"@
    } else {
        "Config"@
    }
}

/// The names of the locals, and how often each base name has been handed out.
pub type NamingState = (Map<LocalId, Seq<char>>, Map<Seq<char>, usize>);

/// How often `name` has been handed out.
pub open spec fn count_of(counts: Map<Seq<char>, usize>, name: Seq<char>) -> nat {
    if counts.contains_key(name) {
        counts[name] as nat
    } else {
        0
    }
}

/// The name handed out for the `count`-th use of `name`: `name` itself the
/// first time, then `name_2`, `name_3`, and so on.
pub open spec fn numbered_name(name: Seq<char>, count: nat) -> Seq<char> {
    if count == 1 {
        name
    } else {
        name + "_"@ + decimal(count)
    }
}

/// The state after `local` is given the next free variant of `name`.
pub open spec fn applied(st: NamingState, local: LocalId, name: Seq<char>) -> NamingState {
    let count = count_of(st.1, name) + 1;
    (st.0.insert(local, numbered_name(name, count)), st.1.insert(name, count as usize))
}

/// The local that a statement declares and the one expression it is declared
/// with: `local x = e`.
pub open spec fn declared_local(s: Statement) -> Option<(LocalId, RValue)> {
    match s {
        Statement::Assign(a) => if a.prefix && a.left@.len() == 1 && a.right@.len() == 1 {
            match a.left@[0] {
                LValue::Local(l) => Some((l, a.right@[0])),
                _ => None,
            }
        } else {
            None
        },
        _ => None,
    }
}

/// One statement of the first walk over the block: a local declared with a
/// non-empty table is named by the table's kind; one declared with an empty
/// table or with `nil` is set aside; one declared with anything else is named
/// from it when a name can be found.
pub open spec fn first_step(
    s: Statement,
    st: NamingState,
    tables: Seq<LocalId>,
    nils: Seq<LocalId>,
) -> (NamingState, Seq<LocalId>, Seq<LocalId>) {
    match declared_local(s) {
        Some((l, r)) => match r {
            RValue::Table(t) => if t.0@.len() == 0 {
                (st, tables.push(l), nils)
            } else {
                (applied(st, l, table_kind(t)), tables, nils)
            },
            RValue::Literal(Literal::Nil) => (st, tables, nils.push(l)),
            _ => match rvalue_name(r, st.0) {
                Some(name) => (applied(st, l, name), tables, nils),
                None => (st, tables, nils),
            },
        },
        None => (st, tables, nils),
    }
}

/// The first walk over the first `i` statements.
pub open spec fn first_pass(stmts: Seq<Statement>, i: nat, st: NamingState) -> (
    NamingState,
    Seq<LocalId>,
    Seq<LocalId>,
)
    decreases i,
{
    if i == 0 {
        (st, Seq::empty(), Seq::empty())
    } else {
        let prev = first_pass(stmts, (i - 1) as nat, st);
        first_step(stmts[i - 1], prev.0, prev.1, prev.2)
    }
}

/// The local that a statement `return x` returns.
pub open spec fn returned_by(s: Statement) -> Option<LocalId> {
    match s {
        Statement::Return(ret) => if ret.values@.len() == 1 {
            match ret.values@[0] {
                RValue::Local(l) => Some(l),
                _ => None,
            }
        } else {
            None
        },
        _ => None,
    }
}

/// The local returned by the last `return x` among the first `i` statements.
pub open spec fn returned_local_before(stmts: Seq<Statement>, i: nat) -> Option<LocalId>
    decreases i,
{
    if i == 0 {
        None
    } else {
        match returned_by(stmts[i - 1]) {
            Some(l) => Some(l),
            None => returned_local_before(stmts, (i - 1) as nat),
        }
    }
}

/// The field name of `target.Field = ...` when `s` is such an assignment.
pub open spec fn field_assign_name(s: Statement, target: LocalId) -> Option<Seq<char>> {
    match s {
        Statement::Assign(a) => if !a.prefix && a.left@.len() >= 1 {
            match a.left@[0] {
                LValue::Index(index) => match *index.left {
                    RValue::Local(l) => if l == target {
                        match *index.right {
                            RValue::Literal(Literal::String(field)) => identifier(field@),
                            _ => None,
                        }
                    } else {
                        None
                    },
                    _ => None,
                },
                _ => None,
            }
        } else {
            None
        },
        _ => None,
    }
}

/// The field of the first `target.Field = ...` from statement `i` on.
pub open spec fn first_field_assign_from(stmts: Seq<Statement>, target: LocalId, i: nat) -> Option<
    Seq<char>,
>
    decreases stmts.len() - i,
{
    if i >= stmts.len() {
        None
    } else {
        match field_assign_name(stmts[i as int], target) {
            Some(name) => Some(name),
            None => first_field_assign_from(stmts, target, i + 1),
        }
    }
}

/// The module name when `s` is `target = target or require(path)`.
pub open spec fn require_cache_assign(s: Statement, target: LocalId) -> Option<Seq<char>> {
    match s {
        Statement::Assign(a) => if !a.prefix && a.left@.len() == 1 && a.right@.len() == 1 {
            match a.left@[0] {
                LValue::Local(l) => if l == target {
                    match a.right@[0] {
                        RValue::Binary(binary) => match binary.operation {
                            BinaryOperation::Or => require_arg(*binary.right),
                            _ => None,
                        },
                        _ => None,
                    }
                } else {
                    None
                },
                _ => None,
            }
        } else {
            None
        },
        _ => None,
    }
}

/// The module name of the first such assignment from statement `i` on.
pub open spec fn require_cache_in_block_from(stmts: Seq<Statement>, target: LocalId, i: nat) -> Option<
    Seq<char>,
>
    decreases stmts.len() - i,
{
    if i >= stmts.len() {
        None
    } else {
        match require_cache_assign(stmts[i as int], target) {
            Some(name) => Some(name),
            None => require_cache_in_block_from(stmts, target, i + 1),
        }
    }
}

/// The module name found in the body of the first function expression, from
/// expression `i` on, whose body holds such an assignment.
pub open spec fn require_cache_in_rvalues_from(rs: Seq<RValue>, target: LocalId, i: nat) -> Option<
    Seq<char>,
>
    decreases rs.len() - i,
{
    if i >= rs.len() {
        None
    } else {
        match rs[i as int] {
            RValue::Closure(closure) => match require_cache_in_block_from(
                closure.body.0@,
                target,
                0,
            ) {
                Some(name) => Some(name),
                None => require_cache_in_rvalues_from(rs, target, i + 1),
            },
            _ => require_cache_in_rvalues_from(rs, target, i + 1),
        }
    }
}

/// The module name that a statement gives a local declared as `nil`: from the
/// statement itself, or from a function assigned in it.
pub open spec fn require_cache_in_statement(s: Statement, target: LocalId) -> Option<Seq<char>> {
    match require_cache_assign(s, target) {
        Some(name) => Some(name),
        None => match s {
            Statement::Assign(a) => require_cache_in_rvalues_from(a.right@, target, 0),
            _ => None,
        },
    }
}

/// The module name of the first statement from `i` on that gives one.
pub open spec fn require_cache_name_from(stmts: Seq<Statement>, target: LocalId, i: nat) -> Option<
    Seq<char>,
>
    decreases stmts.len() - i,
{
    if i >= stmts.len() {
        None
    } else {
        match require_cache_in_statement(stmts[i as int], target) {
            Some(name) => Some(name),
            None => require_cache_name_from(stmts, target, i + 1),
        }
    }
}

/// The second walk, over the first `j` locals declared with an empty table:
/// the returned one is named `Module`, another one after the first field
/// assigned into it (`Field_Table`).
pub open spec fn table_pass(
    stmts: Seq<Statement>,
    ret: Option<LocalId>,
    tables: Seq<LocalId>,
    j: nat,
    st: NamingState,
) -> NamingState
    decreases j,
{
    if j == 0 {
        st
    } else {
        let prev = table_pass(stmts, ret, tables, (j - 1) as nat, st);
        let l = tables[j - 1];
        if ret == Some(l) {
            applied(prev, l, "Module"@)
        } else {
            match first_field_assign_from(stmts, l, 0) {
                Some(field) => applied(prev, l, field + "_Table"@),
                None => prev,
            }
        }
    }
}

/// The third walk, over the first `j` locals declared as `nil`: each is named
/// after the module cached into it, when there is one.
pub open spec fn nil_pass(stmts: Seq<Statement>, nils: Seq<LocalId>, j: nat, st: NamingState) -> NamingState
    decreases j,
{
    if j == 0 {
        st
    } else {
        let prev = nil_pass(stmts, nils, (j - 1) as nat, st);
        let l = nils[j - 1];
        match require_cache_name_from(stmts, l, 0) {
            Some(name) => applied(prev, l, name),
            None => prev,
        }
    }
}

/// The names of the locals after the pass over the statements `stmts`,
/// starting from the names `names`.
pub open spec fn renamed(stmts: Seq<Statement>, names: Map<LocalId, Seq<char>>) -> Map<
    LocalId,
    Seq<char>,
> {
    let first = first_pass(stmts, stmts.len(), (names, Map::empty()));
    let ret = returned_local_before(stmts, stmts.len());
    let second = table_pass(stmts, ret, first.1, first.1.len(), first.0);
    let third = nil_pass(stmts, first.2, first.2.len(), second);
    third.0
}

// ---------------------------------------------------------------------------
// The pass
// ---------------------------------------------------------------------------

/// `r` is the global spelled `word`.
fn is_global_named(r: &RValue, word: &str) -> (b: bool)
    ensures
        b == is_global_word(*r, word@),
{
    match r {
        RValue::Global(g) => bytes_are_word(g.as_slice(), word),
        _ => false,
    }
}

/// The name spelled by a string literal argument.
pub fn extract_string_arg(rvalue: &RValue) -> (r: Option<String>)
    ensures
        opt_text(r) == string_arg(*rvalue),
{
    if let RValue::Literal(Literal::String(name)) = rvalue {
        identifier_from_bytes(name.as_slice())
    } else {
        None
    }
}

/// The child named in `x:WaitForChild("Name")` or `x:FindFirstChild("Name")`.
fn child_lookup_arg(mc: &MethodCall) -> (r: Option<String>)
    ensures
        opt_text(r) == child_lookup_name(*mc),
{
    if (text_is(&mc.method, "WaitForChild") || text_is(&mc.method, "FindFirstChild"))
        && mc.arguments.len() == 1 {
        extract_string_arg(&mc.arguments[0])
    } else {
        None
    }
}

/// The name at the end of the path of a required module.
pub fn extract_last_index_name(rvalue: &RValue) -> (r: Option<String>)
    ensures
        opt_text(r) == last_index_name(*rvalue),
{
    match rvalue {
        RValue::Index(index) => {
            if let RValue::Literal(Literal::String(field)) = &*index.right {
                identifier_from_bytes(field.as_slice())
            } else {
                None
            }
        },
        RValue::MethodCall(mc) => child_lookup_arg(mc),
        RValue::Select(Select::MethodCall(mc)) => child_lookup_arg(mc),
        _ => None,
    }
}

/// The module named by a call `require(path)`.
pub fn extract_require_arg(rvalue: &RValue) -> (r: Option<String>)
    ensures
        opt_text(r) == require_arg(*rvalue),
{
    let call = match rvalue {
        RValue::Call(call) => call,
        RValue::Select(Select::Call(call)) => call,
        _ => return None,
    };
    let is_require = is_global_named(&call.value, "require");
    if !is_require || call.arguments.len() != 1 {
        return None;
    }
    extract_last_index_name(&call.arguments[0])
}

/// The name of a local (unless missing or `_`), or of a global.
pub fn extract_base_name(rvalue: &RValue, names: &LocalNames) -> (r: Option<String>)
    ensures
        opt_text(r) == base_name(*rvalue, local_names(*names)),
{
    match rvalue {
        RValue::Local(local) => {
            match names.get(local) {
                Some(name) => {
                    if text_is(name, "_") {
                        None
                    } else {
                        Some(name.clone())
                    }
                },
                None => None,
            }
        },
        RValue::Global(g) => utf8_string(g.as_slice()),
        _ => None,
    }
}

/// The name for the result of a method call.
pub fn extract_name_from_method_call(mc: &MethodCall, names: &LocalNames) -> (r: Option<String>)
    ensures
        opt_text(r) == method_call_name(*mc, local_names(*names)),
{
    if text_is(&mc.method, "GetService") && is_global_named(&mc.value, "game")
        && mc.arguments.len() == 1 {
        return extract_string_arg(&mc.arguments[0]);
    }
    if (text_is(&mc.method, "WaitForChild") || text_is(&mc.method, "FindFirstChild"))
        && mc.arguments.len() == 1 {
        return extract_string_arg(&mc.arguments[0]);
    }
    if text_is(&mc.method, "Clone") && mc.arguments.len() == 0 {
        if let Some(base) = extract_base_name(&mc.value, names) {
            let mut name = base;
            name.append("_Clone");
            return Some(name);
        }
    }
    None
}

/// The name for the result of a call.
pub fn extract_name_from_call(call: &Call) -> (r: Option<String>)
    ensures
        opt_text(r) == call_name(*call),
{
    if let RValue::Index(index) = &*call.value {
        if let RValue::Global(g) = &*index.left {
            if bytes_are_word(g.as_slice(), "Instance") {
                if let RValue::Literal(Literal::String(field)) = &*index.right {
                    if bytes_are_word(field.as_slice(), "new") && call.arguments.len() >= 1 {
                        return extract_string_arg(&call.arguments[0]);
                    }
                }
            }
        }
    }
    if is_global_named(&call.value, "require") {
        if call.arguments.len() == 1 {
            return extract_last_index_name(&call.arguments[0]);
        }
    }
    None
}

/// The name for a local from the expression it is declared with.
pub fn extract_name(rvalue: &RValue, names: &LocalNames) -> (r: Option<String>)
    ensures
        opt_text(r) == rvalue_name(*rvalue, local_names(*names)),
{
    match rvalue {
        RValue::Select(select) => match select {
            Select::MethodCall(mc) => extract_name_from_method_call(mc, names),
            Select::Call(call) => extract_name_from_call(call),
            _ => None,
        },
        RValue::MethodCall(mc) => extract_name_from_method_call(mc, names),
        RValue::Call(call) => extract_name_from_call(call),
        RValue::Index(index) => {
            if let RValue::Literal(Literal::String(field)) = &*index.right {
                match identifier_from_bytes(field.as_slice()) {
                    Some(s) => {
                        if starts_like_name(&s) {
                            Some(s)
                        } else {
                            None
                        }
                    },
                    None => None,
                }
            } else {
                None
            }
        },
        _ => None,
    }
}


/// Every entry of the table has a key.
fn all_keyed(t: &Table) -> (b: bool)
    ensures
        b == (forall|i: int| 0 <= i < t.0@.len() ==> (#[trigger] t.0@[i]).0 is Some),
{
    let n = t.0.len();
    let mut i: usize = 0;
    while i < n
        invariant
            n == t.0@.len(),
            i <= n,
            forall|j: int| 0 <= j < i ==> (#[trigger] t.0@[j]).0 is Some,
        decreases n - i,
    {
        if t.0[i].0.is_none() {
            return false;
        }
        i = i + 1;
    }
    true
}

/// Every value of the table is a string literal.
fn all_string_values(t: &Table) -> (b: bool)
    ensures
        b == (forall|i: int| 0 <= i < t.0@.len() ==> is_string_literal((#[trigger] t.0@[i]).1)),
{
    let n = t.0.len();
    let mut i: usize = 0;
    while i < n
        invariant
            n == t.0@.len(),
            i <= n,
            forall|j: int| 0 <= j < i ==> is_string_literal((#[trigger] t.0@[j]).1),
        decreases n - i,
    {
        match &t.0[i].1 {
            RValue::Literal(Literal::String(_)) => {},
            _ => return false,
        }
        i = i + 1;
    }
    true
}

/// Every value of the table is a function expression.
fn all_closure_values(t: &Table) -> (b: bool)
    ensures
        b == (forall|i: int| 0 <= i < t.0@.len() ==> is_closure((#[trigger] t.0@[i]).1)),
{
    let n = t.0.len();
    let mut i: usize = 0;
    while i < n
        invariant
            n == t.0@.len(),
            i <= n,
            forall|j: int| 0 <= j < i ==> is_closure((#[trigger] t.0@[j]).1),
        decreases n - i,
    {
        match &t.0[i].1 {
            RValue::Closure(_) => {},
            _ => return false,
        }
        i = i + 1;
    }
    true
}

/// Every value of the table is a number literal.
fn all_number_values(t: &Table) -> (b: bool)
    ensures
        b == (forall|i: int| 0 <= i < t.0@.len() ==> is_number_literal((#[trigger] t.0@[i]).1)),
{
    let n = t.0.len();
    let mut i: usize = 0;
    while i < n
        invariant
            n == t.0@.len(),
            i <= n,
            forall|j: int| 0 <= j < i ==> is_number_literal((#[trigger] t.0@[j]).1),
        decreases n - i,
    {
        match &t.0[i].1 {
            RValue::Literal(Literal::Number(_)) => {},
            RValue::Literal(Literal::Integer(_)) => {},
            _ => return false,
        }
        i = i + 1;
    }
    true
}

/// The kind of a table constructor, as a base name for the local it is
/// assigned to.
pub fn classify_table(table: &Table) -> (r: String)
    ensures
        r@ == table_kind(*table),
{
    if !all_keyed(table) {
        return "List".to_owned();
    }
    if all_string_values(table) {
        "Strings".to_owned()
    } else if all_closure_values(table) {
        "Handlers".to_owned()
    } else if all_number_values(table) {
        "IDs".to_owned()
    } else {
        "Config".to_owned()
    }
}

/// Gives `local` the next free variant of `name`: `name` the first time the
/// name is handed out, `name_2` the second time, and so on.
pub fn apply_name(
    used_names: &mut FxHashMap<String, usize>,
    names: &mut LocalNames,
    local: LocalId,
    name: String,
)
    requires
        count_of(name_counts(*old(used_names)), name@) < usize::MAX,
    ensures
        (local_names(*final(names)), name_counts(*final(used_names))) == applied(
            (local_names(*old(names)), name_counts(*old(used_names))),
            local,
            name@,
        ),
{
    let count: usize = match get_name_count(used_names, &name) {
        Some(c) => c + 1,
        None => 1,
    };
    set_name_count(used_names, name.clone(), count);
    let final_name = if count == 1 {
        name
    } else {
        let mut numbered = name;
        numbered.append("_");
        push_decimal(&mut numbered, count);
        numbered
    };
    names.insert(local, final_name);
    assert(local_names(*names) =~= local_names(*old(names)).insert(
        local,
        numbered_name(name@, count as nat),
    ));
}


/// The field name of the first statement `target.Field = ...` in the block,
/// when the field is a name.
pub fn find_first_field_assign(body: &Block, target: LocalId) -> (r: Option<String>)
    ensures
        opt_text(r) == first_field_assign_from(body.0@, target, 0),
{
    let n = body.0.len();
    let mut i: usize = 0;
    while i < n
        invariant
            n == body.0@.len(),
            i <= n,
            first_field_assign_from(body.0@, target, 0) == first_field_assign_from(
                body.0@,
                target,
                i as nat,
            ),
        decreases n - i,
    {
        match &body.0[i] {
            Statement::Assign(assign) => {
                if !assign.prefix && assign.left.len() >= 1 {
                    if let LValue::Index(index) = &assign.left[0] {
                        if let RValue::Local(l) = &*index.left {
                            if *l == target {
                                if let RValue::Literal(Literal::String(field)) = &*index.right {
                                    if let Some(s) = identifier_from_bytes(field.as_slice()) {
                                        return Some(s);
                                    }
                                }
                            }
                        }
                    }
                }
            },
            _ => {},
        }
        i = i + 1;
    }
    None
}

/// The module name when `stat` is `target = target or require(path)`.
pub fn check_assign_for_require_cache(stat: &Statement, target: LocalId) -> (r: Option<String>)
    ensures
        opt_text(r) == require_cache_assign(*stat, target),
{
    if let Statement::Assign(assign) = stat {
        if !assign.prefix && assign.left.len() == 1 && assign.right.len() == 1 {
            if let Some(local) = assign.left[0].as_local() {
                if local == target {
                    if let RValue::Binary(binary) = &assign.right[0] {
                        if let BinaryOperation::Or = binary.operation {
                            let require_arg = extract_require_arg(&binary.right);
                            if let Some(name) = require_arg {
                                return Some(name);
                            }
                        }
                    }
                }
            }
        }
    }
    None
}

/// The module name of the first statement of `body` that caches a required
/// module into `target`.
pub fn find_require_cache_in_block(body: &Block, target: LocalId) -> (r: Option<String>)
    ensures
        opt_text(r) == require_cache_in_block_from(body.0@, target, 0),
{
    let n = body.0.len();
    let mut i: usize = 0;
    while i < n
        invariant
            n == body.0@.len(),
            i <= n,
            require_cache_in_block_from(body.0@, target, 0) == require_cache_in_block_from(
                body.0@,
                target,
                i as nat,
            ),
        decreases n - i,
    {
        if let Some(result) = check_assign_for_require_cache(&body.0[i], target) {
            return Some(result);
        }
        i = i + 1;
    }
    None
}

/// The module name cached into `target` by a statement of `body`, or by a
/// statement in the body of a function assigned in one.
pub fn find_require_cache_name(body: &Block, target: LocalId) -> (r: Option<String>)
    ensures
        opt_text(r) == require_cache_name_from(body.0@, target, 0),
{
    let n = body.0.len();
    let mut i: usize = 0;
    while i < n
        invariant
            n == body.0@.len(),
            i <= n,
            require_cache_name_from(body.0@, target, 0) == require_cache_name_from(
                body.0@,
                target,
                i as nat,
            ),
        decreases n - i,
    {
        let stat = &body.0[i];
        if let Some(result) = check_assign_for_require_cache(stat, target) {
            return Some(result);
        }
        match stat {
            Statement::Assign(assign) => {
                let m = assign.right.len();
                let mut k: usize = 0;
                #[verifier::loop_isolation(false)]
                while k < m
                    invariant
                        m == assign.right@.len(),
                        k <= m,
                        require_cache_in_rvalues_from(assign.right@, target, 0)
                            == require_cache_in_rvalues_from(assign.right@, target, k as nat),
                    decreases m - k,
                {
                    if let RValue::Closure(closure) = &assign.right[k] {
                        if let Some(result) = find_require_cache_in_block(&closure.body, target) {
                            return Some(result);
                        }
                    }
                    k = k + 1;
                }
            },
            _ => {},
        }
        i = i + 1;
    }
    None
}

/// The local returned by the last statement `return x` of the block.
pub fn find_returned_local(body: &Block) -> (r: Option<LocalId>)
    ensures
        r == returned_local_before(body.0@, body.0@.len()),
{
    let mut i: usize = body.0.len();
    while i > 0
        invariant
            i <= body.0@.len(),
            returned_local_before(body.0@, body.0@.len()) == returned_local_before(
                body.0@,
                i as nat,
            ),
        decreases i,
    {
        if let Statement::Return(ret) = &body.0[i - 1] {
            if ret.values.len() == 1 {
                if let RValue::Local(local) = &ret.values[0] {
                    return Some(*local);
                }
            }
        }
        i = i - 1;
    }
    None
}


/// No name has been handed out more than `k` times.
pub open spec fn counts_at_most(counts: Map<Seq<char>, usize>, k: nat) -> bool {
    forall|name: Seq<char>| #[trigger] counts.contains_key(name) ==> counts[name] <= k
}

/// Names the locals declared at the top level of a decompiled block after
/// what they are declared with: services (`game:GetService("Name")`), children
/// (`x:WaitForChild("Name")`), created instances (`Instance.new("Class")`),
/// required modules (`require(path)`), clones (`Base_Clone`), fields
/// (`x.Name`), table constructors by their kind, `Module` for the empty table
/// that the block returns, `Field_Table` for another empty table after the
/// first field assigned into it, and the module cached into a local declared
/// as `nil`. A name handed out again gets a number: `Name_2`, `Name_3`, ...
pub fn rename_services(body: &Block, names: &mut LocalNames)
    ensures
        local_names(*final(names)) == renamed(body.0@, local_names(*old(names))),
{
    let ghost stmts = body.0@;
    let ghost st0: NamingState = (local_names(*old(names)), Map::empty());
    let mut used_names = new_name_counts();
    assert(name_counts(used_names) =~= Map::<Seq<char>, usize>::empty());
    let returned_local = find_returned_local(body);
    let mut empty_table_locals: Vec<LocalId> = Vec::new();
    let mut nil_locals: Vec<LocalId> = Vec::new();
    let ghost mut applies: nat = 0;

    let n = body.0.len();
    let mut i: usize = 0;
    while i < n
        invariant
            n == stmts.len(),
            stmts == body.0@,
            i <= n,
            first_pass(stmts, i as nat, st0) == (
                (local_names(*names), name_counts(used_names)),
                empty_table_locals@,
                nil_locals@,
            ),
            counts_at_most(name_counts(used_names), applies),
            applies + empty_table_locals@.len() + nil_locals@.len() <= i,
        decreases n - i,
    {
        match &body.0[i] {
            Statement::Assign(assign) => {
                if assign.prefix && assign.left.len() == 1 && assign.right.len() == 1 {
                    if let Some(local) = assign.left[0].as_local() {
                        match &assign.right[0] {
                            RValue::Table(t) => {
                                if t.0.len() == 0 {
                                    empty_table_locals.push(local);
                                } else {
                                    let name = classify_table(t);
                                    assert(count_of(name_counts(used_names), name@) <= applies);
                                    apply_name(&mut used_names, names, local, name);
                                    proof {
                                        applies = applies + 1;
                                    }
                                }
                            },
                            RValue::Literal(Literal::Nil) => {
                                nil_locals.push(local);
                            },
                            other => {
                                if let Some(name) = extract_name(other, names) {
                                    assert(count_of(name_counts(used_names), name@) <= applies);
                                    apply_name(&mut used_names, names, local, name);
                                    proof {
                                        applies = applies + 1;
                                    }
                                }
                            },
                        }
                    }
                }
            },
            _ => {},
        }
        i = i + 1;
    }

    let ghost st1: NamingState = (local_names(*names), name_counts(used_names));
    let ghost tables = empty_table_locals@;
    let e = empty_table_locals.len();
    let mut j: usize = 0;
    while j < e
        invariant
            n == stmts.len(),
            stmts == body.0@,
            e == tables.len(),
            tables == empty_table_locals@,
            returned_local == returned_local_before(stmts, stmts.len()),
            j <= e,
            table_pass(stmts, returned_local, tables, j as nat, st1) == (
                local_names(*names),
                name_counts(used_names),
            ),
            counts_at_most(name_counts(used_names), applies),
            applies + (e - j) + nil_locals@.len() <= n,
        decreases e - j,
    {
        let local = empty_table_locals[j];
        let mut done = false;
        if let Some(ret_local) = returned_local {
            if local == ret_local {
                let module_name = "Module".to_owned();
                assert(count_of(name_counts(used_names), module_name@) <= applies);
                apply_name(&mut used_names, names, local, module_name);
                proof {
                    applies = applies + 1;
                }
                done = true;
            }
        }
        if !done {
            let field_name = find_first_field_assign(body, local);
            if let Some(field) = field_name {
                let mut name = field;
                name.append("_Table");
                assert(count_of(name_counts(used_names), name@) <= applies);
                apply_name(&mut used_names, names, local, name);
                proof {
                    applies = applies + 1;
                }
            }
        }
        j = j + 1;
    }

    let ghost st2: NamingState = (local_names(*names), name_counts(used_names));
    let ghost nils = nil_locals@;
    let m = nil_locals.len();
    let mut k: usize = 0;
    while k < m
        invariant
            n == stmts.len(),
            stmts == body.0@,
            m == nils.len(),
            nils == nil_locals@,
            k <= m,
            nil_pass(stmts, nils, k as nat, st2) == (local_names(*names), name_counts(used_names)),
            counts_at_most(name_counts(used_names), applies),
            applies + (m - k) <= n,
        decreases m - k,
    {
        let local = nil_locals[k];
        if let Some(name) = find_require_cache_name(body, local) {
            assert(count_of(name_counts(used_names), name@) <= applies);
            apply_name(&mut used_names, names, local, name);
            proof {
                applies = applies + 1;
            }
        }
        k = k + 1;
    }
}

} // verus!
