//! What holds of every run of the naming pass.

use vstd::prelude::*;

use crate::ast::{LocalId, Statement};
use crate::ast::{Assign, Call, Closure, Index, LValue, Literal, MethodCall, RValue, Select, Table};
use crate::text::identifier;
use vstd::utf8::encode_utf8;
use crate::text::{decimal, digit_char};
use crate::naming::{
    NamingState, applied, count_of, declared_local, first_field_assign_from, first_pass, nil_pass,
    numbered_name, renamed, require_arg, require_cache_in_block_from,
    require_cache_in_rvalues_from, require_cache_name_from, returned_local_before, rvalue_name,
    table_kind, table_pass, method_call_name, is_string_literal, is_number_literal,
    field_assign_name, require_cache_in_statement,
};

verus! {

/// `s` is `local l = e`.
pub open spec fn declares(s: Statement, l: LocalId) -> bool {
    declared_local(s) matches Some((d, _)) && d == l
}

/// `l` is declared as `local l = e` by one of the first `i` statements.
pub open spec fn declared_before(stmts: Seq<Statement>, i: nat, l: LocalId) -> bool {
    exists|k: int| 0 <= k < i && #[trigger] declares(stmts[k], l)
}

/// `st` gives `l` the same name as `names`, or no name as `names` does.
pub open spec fn keeps_name(st: NamingState, names: Map<LocalId, Seq<char>>, l: LocalId) -> bool {
    &&& st.0.contains_key(l) == names.contains_key(l)
    &&& names.contains_key(l) ==> st.0[l] == names[l]
}

/// The first walk leaves the names of locals that it has not seen declared
/// alone, and sets aside only locals that it has seen declared.
proof fn lemma_first_pass_frame(stmts: Seq<Statement>, i: nat, st: NamingState, l: LocalId)
    requires
        i <= stmts.len(),
        !declared_before(stmts, i, l),
    ensures
        keeps_name(first_pass(stmts, i, st).0, st.0, l),
        forall|x: int|
            0 <= x < first_pass(stmts, i, st).1.len() ==> declared_before(
                stmts,
                i,
                #[trigger] first_pass(stmts, i, st).1[x],
            ),
        forall|x: int|
            0 <= x < first_pass(stmts, i, st).2.len() ==> declared_before(
                stmts,
                i,
                #[trigger] first_pass(stmts, i, st).2[x],
            ),
    decreases i,
{
    if i > 0 {
        let prev = first_pass(stmts, (i - 1) as nat, st);
        assert(!declared_before(stmts, (i - 1) as nat, l)) by {
            if declared_before(stmts, (i - 1) as nat, l) {
                let k = choose|k: int| 0 <= k < i - 1 && #[trigger] declares(stmts[k], l);
                assert(declares(stmts[k], l));
            }
        }
        lemma_first_pass_frame(stmts, (i - 1) as nat, st, l);
        let s = stmts[i - 1];
        assert forall|y: LocalId| declared_before(stmts, (i - 1) as nat, y) implies declared_before(
            stmts,
            i,
            y,
        ) by {
            let k = choose|k: int| 0 <= k < i - 1 && #[trigger] declares(stmts[k], y);
            assert(declares(stmts[k], y));
        }
        match declared_local(s) {
            Some((d, r)) => {
                assert(declares(stmts[i - 1], d));
                assert(declared_before(stmts, i, d));
                assert(d != l);
            },
            None => {},
        }
    }
}

/// The second walk only names the locals it is given.
proof fn lemma_table_pass_frame(
    stmts: Seq<Statement>,
    ret: Option<LocalId>,
    tables: Seq<LocalId>,
    j: nat,
    st: NamingState,
    l: LocalId,
)
    requires
        j <= tables.len(),
        forall|x: int| 0 <= x < tables.len() ==> tables[x] != l,
    ensures
        keeps_name(table_pass(stmts, ret, tables, j, st), st.0, l),
    decreases j,
{
    if j > 0 {
        lemma_table_pass_frame(stmts, ret, tables, (j - 1) as nat, st, l);
        assert(tables[j - 1] != l);
    }
}

/// The third walk only names the locals it is given.
proof fn lemma_nil_pass_frame(
    stmts: Seq<Statement>,
    nils: Seq<LocalId>,
    j: nat,
    st: NamingState,
    l: LocalId,
)
    requires
        j <= nils.len(),
        forall|x: int| 0 <= x < nils.len() ==> nils[x] != l,
    ensures
        keeps_name(nil_pass(stmts, nils, j, st), st.0, l),
    decreases j,
{
    if j > 0 {
        lemma_nil_pass_frame(stmts, nils, (j - 1) as nat, st, l);
        assert(nils[j - 1] != l);
    }
}

/// The naming pass renames only locals declared at the top level of the
/// block (`local x = e`): every other local keeps its name, or stays without
/// one.
pub proof fn rename_services_renames_only_declared_locals(
    stmts: Seq<Statement>,
    names: Map<LocalId, Seq<char>>,
    l: LocalId,
)
    requires
        !declared_before(stmts, stmts.len(), l),
    ensures
        renamed(stmts, names).contains_key(l) == names.contains_key(l),
        names.contains_key(l) ==> renamed(stmts, names)[l] == names[l],
{
    let st0: NamingState = (names, Map::empty());
    let first = first_pass(stmts, stmts.len(), st0);
    lemma_first_pass_frame(stmts, stmts.len(), st0, l);
    let ret = returned_local_before(stmts, stmts.len());
    assert forall|x: int| 0 <= x < first.1.len() implies first.1[x] != l by {
        assert(declared_before(stmts, stmts.len(), first.1[x]));
    }
    assert forall|x: int| 0 <= x < first.2.len() implies first.2[x] != l by {
        assert(declared_before(stmts, stmts.len(), first.2[x]));
    }
    lemma_table_pass_frame(stmts, ret, first.1, first.1.len(), first.0, l);
    let second = table_pass(stmts, ret, first.1, first.1.len(), first.0);
    lemma_nil_pass_frame(stmts, first.2, first.2.len(), second, l);
}


/// Every name that `st` gives differs from `names` only by being non-empty.
pub open spec fn new_names_nonempty(st: NamingState, names: Map<LocalId, Seq<char>>) -> bool {
    forall|k: LocalId|
        #[trigger] st.0.contains_key(k) ==> (names.contains_key(k) && st.0[k] == names[k])
            || st.0[k].len() > 0
}

/// A non-empty base name gives a non-empty numbered name.
proof fn lemma_applied_nonempty(st: NamingState, names: Map<LocalId, Seq<char>>, l: LocalId, name: Seq<char>)
    requires
        new_names_nonempty(st, names),
        name.len() > 0,
    ensures
        new_names_nonempty(applied(st, l, name), names),
{
    let c = count_of(st.1, name) + 1;
    assert(numbered_name(name, c).len() > 0);
}

/// Every table kind is a non-empty word.
proof fn lemma_table_kind_nonempty(t: Table)
    ensures
        table_kind(t).len() > 0,
{
    reveal_strlit("List");
    reveal_strlit("Strings");
    reveal_strlit("Handlers");
    reveal_strlit("IDs");
    reveal_strlit("Config");
}

/// A name found for an expression is non-empty.
proof fn lemma_rvalue_name_nonempty(r: RValue, names: Map<LocalId, Seq<char>>)
    ensures
        rvalue_name(r, names) matches Some(s) ==> s.len() > 0,
{
    reveal_strlit("_Clone");
}

/// A module name found in a call of `require` is non-empty.
proof fn lemma_require_arg_nonempty(r: RValue)
    ensures
        require_arg(r) matches Some(s) ==> s.len() > 0,
{
}

/// A module name cached in a block, from statement `i` on, is non-empty.
proof fn lemma_require_cache_in_block_nonempty(stmts: Seq<Statement>, target: LocalId, i: nat)
    ensures
        require_cache_in_block_from(stmts, target, i) matches Some(s) ==> s.len() > 0,
    decreases stmts.len() - i,
{
    if i < stmts.len() {
        lemma_require_cache_in_block_nonempty(stmts, target, i + 1);
        match stmts[i as int] {
            Statement::Assign(a) => {
                if a.right@.len() == 1 {
                    match a.right@[0] {
                        RValue::Binary(b) => lemma_require_arg_nonempty(*b.right),
                        _ => {},
                    }
                }
            },
            _ => {},
        }
    }
}

/// A module name cached in a function expression, from expression `i` on, is
/// non-empty.
proof fn lemma_require_cache_in_rvalues_nonempty(rs: Seq<RValue>, target: LocalId, i: nat)
    ensures
        require_cache_in_rvalues_from(rs, target, i) matches Some(s) ==> s.len() > 0,
    decreases rs.len() - i,
{
    if i < rs.len() {
        lemma_require_cache_in_rvalues_nonempty(rs, target, i + 1);
        match rs[i as int] {
            RValue::Closure(c) => lemma_require_cache_in_block_nonempty(c.body.0@, target, 0),
            _ => {},
        }
    }
}

/// A module name cached into a local, found from statement `i` on, is
/// non-empty.
proof fn lemma_require_cache_name_nonempty(stmts: Seq<Statement>, target: LocalId, i: nat)
    ensures
        require_cache_name_from(stmts, target, i) matches Some(s) ==> s.len() > 0,
    decreases stmts.len() - i,
{
    if i < stmts.len() {
        lemma_require_cache_name_nonempty(stmts, target, i + 1);
        match stmts[i as int] {
            Statement::Assign(a) => {
                lemma_require_cache_in_rvalues_nonempty(a.right@, target, 0);
                if a.right@.len() == 1 {
                    match a.right@[0] {
                        RValue::Binary(b) => lemma_require_arg_nonempty(*b.right),
                        _ => {},
                    }
                }
            },
            _ => {},
        }
    }
}

/// The first walk hands out non-empty names only.
proof fn lemma_first_pass_nonempty(stmts: Seq<Statement>, i: nat, names: Map<LocalId, Seq<char>>)
    requires
        i <= stmts.len(),
    ensures
        new_names_nonempty(first_pass(stmts, i, (names, Map::empty())).0, names),
    decreases i,
{
    if i > 0 {
        lemma_first_pass_nonempty(stmts, (i - 1) as nat, names);
        let prev = first_pass(stmts, (i - 1) as nat, (names, Map::empty()));
        match declared_local(stmts[i - 1]) {
            Some((l, r)) => {
                match r {
                    RValue::Table(t) => {
                        lemma_table_kind_nonempty(t);
                        if t.0@.len() != 0 {
                            lemma_applied_nonempty(prev.0, names, l, table_kind(t));
                        }
                    },
                    RValue::Literal(Literal::Nil) => {},
                    _ => {
                        lemma_rvalue_name_nonempty(r, prev.0.0);
                        match rvalue_name(r, prev.0.0) {
                            Some(name) => lemma_applied_nonempty(prev.0, names, l, name),
                            None => {},
                        }
                    },
                }
            },
            None => {},
        }
    }
}

/// The second walk hands out non-empty names only.
proof fn lemma_table_pass_nonempty(
    stmts: Seq<Statement>,
    ret: Option<LocalId>,
    tables: Seq<LocalId>,
    j: nat,
    st: NamingState,
    names: Map<LocalId, Seq<char>>,
)
    requires
        j <= tables.len(),
        new_names_nonempty(st, names),
    ensures
        new_names_nonempty(table_pass(stmts, ret, tables, j, st), names),
    decreases j,
{
    if j > 0 {
        lemma_table_pass_nonempty(stmts, ret, tables, (j - 1) as nat, st, names);
        let prev = table_pass(stmts, ret, tables, (j - 1) as nat, st);
        let l = tables[j - 1];
        reveal_strlit("Module");
        reveal_strlit("_Table");
        if ret == Some(l) {
            lemma_applied_nonempty(prev, names, l, "Module"@);
        } else {
            match first_field_assign_from(stmts, l, 0) {
                Some(field) => lemma_applied_nonempty(prev, names, l, field + "_Table"@),
                None => {},
            }
        }
    }
}

/// The third walk hands out non-empty names only.
proof fn lemma_nil_pass_nonempty(
    stmts: Seq<Statement>,
    nils: Seq<LocalId>,
    j: nat,
    st: NamingState,
    names: Map<LocalId, Seq<char>>,
)
    requires
        j <= nils.len(),
        new_names_nonempty(st, names),
    ensures
        new_names_nonempty(nil_pass(stmts, nils, j, st), names),
    decreases j,
{
    if j > 0 {
        lemma_nil_pass_nonempty(stmts, nils, (j - 1) as nat, st, names);
        let prev = nil_pass(stmts, nils, (j - 1) as nat, st);
        let l = nils[j - 1];
        lemma_require_cache_name_nonempty(stmts, l, 0);
        match require_cache_name_from(stmts, l, 0) {
            Some(name) => lemma_applied_nonempty(prev, names, l, name),
            None => {},
        }
    }
}

/// The naming pass never gives a local an empty name: every local whose name
/// it changes ends up with a non-empty one.
pub proof fn rename_services_gives_nonempty_names(
    stmts: Seq<Statement>,
    names: Map<LocalId, Seq<char>>,
    l: LocalId,
)
    requires
        renamed(stmts, names).contains_key(l),
        !(names.contains_key(l) && renamed(stmts, names)[l] == names[l]),
    ensures
        renamed(stmts, names)[l].len() > 0,
{
    let st0: NamingState = (names, Map::empty());
    let first = first_pass(stmts, stmts.len(), st0);
    lemma_first_pass_nonempty(stmts, stmts.len(), names);
    let ret = returned_local_before(stmts, stmts.len());
    lemma_table_pass_nonempty(stmts, ret, first.1, first.1.len(), first.0, names);
    let second = table_pass(stmts, ret, first.1, first.1.len(), first.0);
    lemma_nil_pass_nonempty(stmts, first.2, first.2.len(), second, names);
}


/// A decimal numeral has at least one digit.
proof fn lemma_decimal_nonempty(n: nat)
    ensures
        decimal(n).len() >= 1,
    decreases n,
{
    if n >= 10 {
        lemma_decimal_nonempty(n / 10);
    }
}

/// Different numbers have different decimal numerals.
proof fn lemma_decimal_injective(a: nat, b: nat)
    requires
        decimal(a) == decimal(b),
    ensures
        a == b,
    decreases a,
{
    if a < 10 && b < 10 {
        assert(decimal(a)[0] == digit_char(a));
        assert(decimal(b)[0] == digit_char(b));
    } else if a < 10 {
        lemma_decimal_nonempty(b / 10);
        assert(decimal(b).len() >= 2);
    } else if b < 10 {
        lemma_decimal_nonempty(a / 10);
        assert(decimal(a).len() >= 2);
    } else {
        let pa = decimal(a / 10);
        let pb = decimal(b / 10);
        assert(decimal(a) == pa.push(digit_char(a % 10)));
        assert(decimal(b) == pb.push(digit_char(b % 10)));
        assert(pa.len() == pb.len());
        assert(digit_char(a % 10) == decimal(a)[pa.len() as int]);
        assert(digit_char(b % 10) == decimal(b)[pb.len() as int]);
        assert(a % 10 == b % 10);
        assert(pa =~= decimal(a).drop_last());
        assert(pb =~= decimal(b).drop_last());
        lemma_decimal_injective(a / 10, b / 10);
    }
}

/// Each time a base name is handed out again it comes out different: the
/// `c1`-th and the `c2`-th use of one base name give different names.
pub proof fn numbered_names_differ(name: Seq<char>, c1: nat, c2: nat)
    requires
        c1 >= 1,
        c2 >= 1,
        c1 != c2,
    ensures
        numbered_name(name, c1) != numbered_name(name, c2),
{
    reveal_strlit("_");
    lemma_decimal_nonempty(c1);
    lemma_decimal_nonempty(c2);
    if c1 != 1 && c2 != 1 {
        if numbered_name(name, c1) == numbered_name(name, c2) {
            let prefix = name + "_"@;
            let n1 = numbered_name(name, c1);
            assert(n1 == prefix + decimal(c1));
            assert(numbered_name(name, c2) == prefix + decimal(c2));
            assert(decimal(c1) =~= n1.skip(prefix.len() as int));
            assert(decimal(c2) =~= n1.skip(prefix.len() as int));
            lemma_decimal_injective(c1, c2);
        }
    } else {
        assert(numbered_name(name, c1).len() != numbered_name(name, c2).len());
    }
}


// ---------------------------------------------------------------------------
// What the lookups of the pass find
// ---------------------------------------------------------------------------

/// A local declared with `x:FindFirstChild("N")` or `x:WaitForChild("N")`,
/// called directly or with its results cut to one, is named `N` when `N` is a
/// name.
pub proof fn child_lookup_names_the_child(
    mc: MethodCall,
    names: Map<LocalId, Seq<char>>,
    bytes: Vec<u8>,
    n: Seq<char>,
)
    requires
        mc.method@ == "FindFirstChild"@ || mc.method@ == "WaitForChild"@,
        mc.arguments@.len() == 1,
        mc.arguments@[0] == RValue::Literal(Literal::String(bytes)),
        identifier(bytes@) == Some(n),
    ensures
        rvalue_name(RValue::MethodCall(mc), names) == Some(n),
        rvalue_name(RValue::Select(Select::MethodCall(mc)), names) == Some(n),
{
    reveal_strlit("FindFirstChild");
    reveal_strlit("WaitForChild");
    reveal_strlit("GetService");
    assert(mc.method@ != "GetService"@) by {
        if mc.method@ == "FindFirstChild"@ {
            assert(mc.method@[0] != "GetService"@[0]);
        } else {
            assert(mc.method@[0] != "GetService"@[0]);
        }
    }
}

/// `x:FindFirstChild(...)` and `x:WaitForChild(...)` with the same receiver
/// and arguments give a local the same name.
pub proof fn find_first_child_names_like_wait_for_child(
    a: MethodCall,
    b: MethodCall,
    names: Map<LocalId, Seq<char>>,
)
    requires
        a.method@ == "FindFirstChild"@,
        b.method@ == "WaitForChild"@,
        a.value == b.value,
        a.arguments@ == b.arguments@,
    ensures
        method_call_name(a, names) == method_call_name(b, names),
        rvalue_name(RValue::MethodCall(a), names) == rvalue_name(RValue::MethodCall(b), names),
{
    reveal_strlit("FindFirstChild");
    reveal_strlit("WaitForChild");
    reveal_strlit("GetService");
    reveal_strlit("Clone");
    assert(a.method@[0] != "GetService"@[0]);
    assert(b.method@[0] != "GetService"@[0]);
    assert(a.method@.len() != "Clone"@.len());
    assert(b.method@.len() != "Clone"@.len());
}

/// A local declared with `Instance.new("C", ...)` is named `C` when `C` is a
/// name, whatever further arguments (such as the parent) follow.
pub proof fn instance_new_names_the_class(
    call: Call,
    index: Index,
    g: Vec<u8>,
    field: Vec<u8>,
    class: Vec<u8>,
    c: Seq<char>,
    names: Map<LocalId, Seq<char>>,
)
    requires
        *call.value == RValue::Index(index),
        *index.left == RValue::Global(g),
        *index.right == RValue::Literal(Literal::String(field)),
        g@ == encode_utf8("Instance"@),
        field@ == encode_utf8("new"@),
        call.arguments@.len() >= 1,
        call.arguments@[0] == RValue::Literal(Literal::String(class)),
        identifier(class@) == Some(c),
    ensures
        rvalue_name(RValue::Call(call), names) == Some(c),
        rvalue_name(RValue::Select(Select::Call(call)), names) == Some(c),
{
}

/// A table is of kind `Strings` only when every entry has a key and every
/// value is a string literal.
pub proof fn strings_tables_hold_only_strings(t: Table)
    ensures
        table_kind(t) == "Strings"@ ==> forall|i: int|
            0 <= i < t.0@.len() ==> (#[trigger] t.0@[i]).0 is Some && is_string_literal(
                t.0@[i].1,
            ),
{
    reveal_strlit("List");
    reveal_strlit("Strings");
    reveal_strlit("Handlers");
    reveal_strlit("IDs");
    reveal_strlit("Config");
    assert("List"@ != "Strings"@) by {
        assert("List"@.len() != "Strings"@.len());
    }
    assert("Handlers"@ != "Strings"@) by {
        assert("Handlers"@[0] != "Strings"@[0]);
    }
    assert("IDs"@ != "Strings"@) by {
        assert("IDs"@.len() != "Strings"@.len());
    }
    assert("Config"@ != "Strings"@) by {
        assert("Config"@.len() != "Strings"@.len());
    }
}

/// A keyed table that holds both a string and a number is of kind `Config`.
pub proof fn mixed_tables_are_config(t: Table, i: int, j: int)
    requires
        forall|k: int| 0 <= k < t.0@.len() ==> (#[trigger] t.0@[k]).0 is Some,
        0 <= i < t.0@.len(),
        0 <= j < t.0@.len(),
        is_string_literal(t.0@[i].1),
        is_number_literal(t.0@[j].1),
    ensures
        table_kind(t) == "Config"@,
{
    assert(!is_number_literal(t.0@[i].1));
    assert(!is_string_literal(t.0@[j].1));
}

/// Searching for the first field assigned into `t` past the end of `a`, in
/// `a + b`, is searching `b`.
proof fn lemma_field_search_shift(a: Seq<Statement>, b: Seq<Statement>, t: LocalId, j: nat)
    requires
        j <= b.len(),
    ensures
        first_field_assign_from(a + b, t, a.len() + j) == first_field_assign_from(b, t, j),
    decreases b.len() - j,
{
    if j < b.len() {
        lemma_field_search_shift(a, b, t, j + 1);
        assert((a + b)[(a.len() + j) as int] == b[j as int]);
    }
}

/// Searching `a + b` from `i` finds what searching `a` from `i` finds, or else
/// what searching `b` finds.
proof fn lemma_field_search_concat(a: Seq<Statement>, b: Seq<Statement>, t: LocalId, i: nat)
    requires
        i <= a.len(),
    ensures
        first_field_assign_from(a + b, t, i) == match first_field_assign_from(a, t, i) {
            Some(name) => Some(name),
            None => first_field_assign_from(b, t, 0),
        },
    decreases a.len() - i,
{
    if i == a.len() {
        lemma_field_search_shift(a, b, t, 0);
    } else {
        lemma_field_search_concat(a, b, t, i + 1);
        assert((a + b)[i as int] == a[i as int]);
    }
}

/// Once a field assigned into `t` is found, statements appended after the
/// block never change it.
pub proof fn first_field_assign_unchanged_by_appending(
    stmts: Seq<Statement>,
    more: Seq<Statement>,
    t: LocalId,
)
    requires
        first_field_assign_from(stmts, t, 0) is Some,
    ensures
        first_field_assign_from(stmts + more, t, 0) == first_field_assign_from(stmts, t, 0),
{
    lemma_field_search_concat(stmts, more, t, 0);
}

/// When no statement of `pre` assigns a field of `t`, and the next one is
/// `t.F = ...` with `F` a name, the field found for `t` is `F`, whatever
/// statements follow.
pub proof fn first_field_assign_finds_the_first(
    pre: Seq<Statement>,
    a: Assign,
    index: Index,
    field: Vec<u8>,
    rest: Seq<Statement>,
    t: LocalId,
    name: Seq<char>,
)
    requires
        first_field_assign_from(pre, t, 0) is None,
        !a.prefix,
        a.left@.len() >= 1,
        a.left@[0] == LValue::Index(index),
        *index.left == RValue::Local(t),
        *index.right == RValue::Literal(Literal::String(field)),
        identifier(field@) == Some(name),
    ensures
        first_field_assign_from(pre.push(Statement::Assign(a)) + rest, t, 0) == Some(name),
{
    let s = seq![Statement::Assign(a)];
    assert(pre.push(Statement::Assign(a)) + rest =~= pre + (s + rest));
    lemma_field_search_concat(pre, s + rest, t, 0);
    assert((s + rest)[0] == Statement::Assign(a));
    assert(field_assign_name(Statement::Assign(a), t) == Some(name));
}

/// Searching for a cached module past the end of `a`, in `a + b`, is
/// searching `b`.
proof fn lemma_cache_search_shift(a: Seq<Statement>, b: Seq<Statement>, t: LocalId, j: nat)
    requires
        j <= b.len(),
    ensures
        require_cache_name_from(a + b, t, a.len() + j) == require_cache_name_from(b, t, j),
    decreases b.len() - j,
{
    if j < b.len() {
        lemma_cache_search_shift(a, b, t, j + 1);
        assert((a + b)[(a.len() + j) as int] == b[j as int]);
    }
}

/// Searching `a + b` for a cached module finds what searching `a` finds, or
/// else what searching `b` finds.
proof fn lemma_cache_search_concat(a: Seq<Statement>, b: Seq<Statement>, t: LocalId, i: nat)
    requires
        i <= a.len(),
    ensures
        require_cache_name_from(a + b, t, i) == match require_cache_name_from(a, t, i) {
            Some(name) => Some(name),
            None => require_cache_name_from(b, t, 0),
        },
    decreases a.len() - i,
{
    if i == a.len() {
        lemma_cache_search_shift(a, b, t, 0);
    } else {
        lemma_cache_search_concat(a, b, t, i + 1);
        assert((a + b)[i as int] == a[i as int]);
    }
}

/// The two statements search alike from position `i` on.
proof fn lemma_cache_search_same(
    stmts: Seq<Statement>,
    other: Seq<Statement>,
    t: LocalId,
    i: nat,
)
    requires
        stmts.len() == other.len(),
        forall|k: int|
            0 <= k < stmts.len() ==> require_cache_in_statement(#[trigger] stmts[k], t)
                == require_cache_in_statement(other[k], t),
    ensures
        require_cache_name_from(stmts, t, i) == require_cache_name_from(other, t, i),
    decreases stmts.len() - i,
{
    if i < stmts.len() {
        lemma_cache_search_same(stmts, other, t, i + 1);
        assert(require_cache_in_statement(stmts[i as int], t) == require_cache_in_statement(
            other[i as int],
            t,
        ));
    }
}

/// Whether an assignment is a `local` declaration or not does not change the
/// module found for `t`, when it does not assign to `t` alone: functions on
/// its right are searched either way.
pub proof fn require_cache_search_ignores_local_keyword(
    stmts: Seq<Statement>,
    k: int,
    a: Assign,
    b: Assign,
    t: LocalId,
)
    requires
        0 <= k < stmts.len(),
        stmts[k] == Statement::Assign(a),
        a.left@ == b.left@,
        a.right@ == b.right@,
        !(a.left@.len() == 1 && a.left@[0] == LValue::Local(t)),
    ensures
        require_cache_name_from(stmts, t, 0) == require_cache_name_from(
            stmts.update(k, Statement::Assign(b)),
            t,
            0,
        ),
{
    let other = stmts.update(k, Statement::Assign(b));
    assert forall|i: int| 0 <= i < stmts.len() implies require_cache_in_statement(
        #[trigger] stmts[i],
        t,
    ) == require_cache_in_statement(other[i], t) by {
        if i == k {
            assert(require_cache_in_statement(Statement::Assign(a), t)
                == require_cache_in_rvalues_from(a.right@, t, 0));
            assert(require_cache_in_statement(Statement::Assign(b), t)
                == require_cache_in_rvalues_from(b.right@, t, 0));
        }
    }
    lemma_cache_search_same(stmts, other, t, 0);
}

/// When no statement of `pre` caches a module into `t`, and the next one is
/// an assignment (a `local` declaration or not) whose first right-hand value
/// is a function whose body caches module `name` into `t`, the module found
/// for `t` is `name`, whatever statements follow.
pub proof fn cached_module_in_assigned_function_is_found(
    pre: Seq<Statement>,
    a: Assign,
    c: Closure,
    rest: Seq<Statement>,
    t: LocalId,
    name: Seq<char>,
)
    requires
        require_cache_name_from(pre, t, 0) is None,
        !(a.left@.len() == 1 && a.left@[0] == LValue::Local(t)),
        a.right@.len() >= 1,
        a.right@[0] == RValue::Closure(c),
        require_cache_in_block_from(c.body.0@, t, 0) == Some(name),
    ensures
        require_cache_name_from(pre.push(Statement::Assign(a)) + rest, t, 0) == Some(name),
{
    let s = seq![Statement::Assign(a)];
    assert(pre.push(Statement::Assign(a)) + rest =~= pre + (s + rest));
    lemma_cache_search_concat(pre, s + rest, t, 0);
    assert((s + rest)[0] == Statement::Assign(a));
    assert(require_cache_in_rvalues_from(a.right@, t, 0) == Some(name));
    assert(require_cache_in_statement(Statement::Assign(a), t) == Some(name));
}

} // verus!
