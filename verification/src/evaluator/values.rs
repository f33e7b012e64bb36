//! What the operators and the native functions compute: from values to
//! values, with no environment involved.

use crate::ast::{Infix, Prefix};
use crate::evaluator::equal::same_object;
use crate::evaluator::object::{
    display, entries_view, objects_view, push_display, NativeV, Object, ObjectV,
};
use crate::text::{int_text, nat_text, push_int, push_nat};
use vstd::prelude::*;
use vstd::string::StringExecFns;

verus! {

/// A failure that ends the evaluation: the language has no value for it and
/// no program can test for it.
#[derive(PartialEq, Eq, Structural, Clone, Copy, Debug)]
pub enum Fatal {
    /// An integer was divided by zero.
    DivisionByZero,
    /// The result of an integer operation does not fit in 64 bits.
    Overflow,
    /// Calls are nested deeper than the evaluator allows.
    DepthExceeded,
    /// A loop has run its body more often than the evaluator allows.
    LoopExceeded,
}

/// `Null` and `false` count as false; every other value counts as true.
pub open spec fn truthy(o: ObjectV) -> bool {
    !(o is Null || o == ObjectV::Bool(false))
}

/// Whether a value counts as true.
pub fn is_truthy(obj: &Object) -> (r: bool)
    ensures
        r == truthy(obj@),
{
    match obj {
        Object::Null => false,
        Object::Bool(b) => *b,
        _ => true,
    }
}

/// Whether a value is an error.
pub fn is_error(obj: &Object) -> (r: bool)
    ensures
        r == (obj@ is Error),
{
    match obj {
        Object::Error(_) => true,
        _ => false,
    }
}

/// The length of a text in bytes, in UTF-8, as the machine counts it.
pub open spec fn byte_length(s: Seq<char>) -> nat {
    (vstd::utf8::encode_utf8(s).len() as usize) as nat
}

/// The length `n` as a value; a length beyond 64 bits counts as the largest
/// integer.
pub open spec fn length_value(n: nat) -> ObjectV {
    if n <= i64::MAX {
        ObjectV::Int(n as i64)
    } else {
        ObjectV::Int(i64::MAX)
    }
}

/// The length `n` as a value.
fn length_object(n: usize) -> (r: Object)
    ensures
        r@ == length_value(n as nat),
{
    if (n as u64) <= (i64::MAX as u64) {
        Object::Int(n as i64)
    } else {
        Object::Int(i64::MAX)
    }
}

/// The message for a call with the wrong number of arguments.
pub open spec fn wrong_number(got: nat, want: int) -> Seq<char> {
    "wrong number of arguments. got="@ + nat_text(got) + ", want="@ + int_text(want)
}

/// The error for a call with the wrong number of arguments.
pub fn wrong_number_error(got: usize, want: i64) -> (r: Object)
    ensures
        r@ == ObjectV::Error(wrong_number(got as nat, want as int)),
{
    let mut s = String::from_str("wrong number of arguments. got=");
    push_nat(&mut s, got as u64);
    s.append(", want=");
    push_int(&mut s, want);
    Object::Error(s)
}

/// `!`: true for `false` and `Null`, false for every other value.
pub open spec fn not_value(o: ObjectV) -> ObjectV {
    match o {
        ObjectV::Bool(b) => ObjectV::Bool(!b),
        ObjectV::Null => ObjectV::Bool(true),
        _ => ObjectV::Bool(false),
    }
}

/// Unary `-`: the negative of an integer; an error for any other value.
pub open spec fn minus_value(o: ObjectV) -> Result<ObjectV, Fatal> {
    match o {
        ObjectV::Int(v) => if v == i64::MIN {
            Err(Fatal::Overflow)
        } else {
            Ok(ObjectV::Int((-v) as i64))
        },
        _ => Ok(ObjectV::Error("unknown operator: -"@ + display(o))),
    }
}

/// Unary `+`: an integer as it is; an error for any other value.
pub open spec fn plus_value(o: ObjectV) -> ObjectV {
    match o {
        ObjectV::Int(v) => o,
        _ => ObjectV::Error("unknown operator: "@ + display(o)),
    }
}

/// The value of a prefix operator on a value.
pub open spec fn prefix_value(op: Prefix, o: ObjectV) -> Result<ObjectV, Fatal> {
    match op {
        Prefix::Not => Ok(not_value(o)),
        Prefix::Minus => minus_value(o),
        Prefix::Plus => Ok(plus_value(o)),
    }
}

/// The value of `op` on two integers. Division truncates towards zero.
pub open spec fn int_infix(op: Infix, l: i64, r: i64) -> Result<ObjectV, Fatal> {
    match op {
        Infix::Plus => match l.checked_add(r) {
            Some(v) => Ok(ObjectV::Int(v)),
            None => Err(Fatal::Overflow),
        },
        Infix::Minus => match l.checked_sub(r) {
            Some(v) => Ok(ObjectV::Int(v)),
            None => Err(Fatal::Overflow),
        },
        Infix::Multiply => match l.checked_mul(r) {
            Some(v) => Ok(ObjectV::Int(v)),
            None => Err(Fatal::Overflow),
        },
        Infix::Divide => if r == 0 {
            Err(Fatal::DivisionByZero)
        } else {
            match l.checked_div(r) {
                Some(v) => Ok(ObjectV::Int(v)),
                None => Err(Fatal::Overflow),
            }
        },
        Infix::LT => Ok(ObjectV::Bool(l < r)),
        Infix::LTEQ => Ok(ObjectV::Bool(l <= r)),
        Infix::GT => Ok(ObjectV::Bool(l > r)),
        Infix::GTEQ => Ok(ObjectV::Bool(l >= r)),
        Infix::Equal => Ok(ObjectV::Bool(l == r)),
        Infix::NotEqual => Ok(ObjectV::Bool(l != r)),
    }
}

/// The message for two operands of one kind that do not have the
/// operator.
pub open spec fn type_mismatch(l: Seq<char>, op: Infix, r: Seq<char>) -> Seq<char> {
    "type mismatch: "@ + l + " "@ + op.text() + " "@ + r
}

/// The message for two operands of different kinds.
pub open spec fn unknown_operator(l: Seq<char>, op: Infix, r: Seq<char>) -> Seq<char> {
    "unknown operator: "@ + l + " "@ + op.text() + " "@ + r
}

/// Whether two values are of the same kind: two truth values, two arrays,
/// two functions and so on.
pub open spec fn same_kind(l: ObjectV, r: ObjectV) -> bool {
    match l {
        ObjectV::Int(_) => r is Int,
        ObjectV::String(_) => r is String,
        ObjectV::Bool(_) => r is Bool,
        ObjectV::Array(_) => r is Array,
        ObjectV::Hash(_) => r is Hash,
        ObjectV::Function(_, _, _) => r is Function,
        ObjectV::Builtin(_, _) => r is Builtin,
        ObjectV::ReturnValue(_) => r is ReturnValue,
        ObjectV::BreakStatement => r is BreakStatement,
        ObjectV::ContinueStatement => r is ContinueStatement,
        ObjectV::Error(_) => r is Error,
        ObjectV::Null => r is Null,
    }
}

/// The value of an infix operator on two values. Two integers have the
/// arithmetic and the comparisons; two strings have `+`, which joins them.
/// Two values of one kind with an operator that the kind does not have are
/// a type mismatch; for two values of different kinds the operator is
/// unknown. A string on the left is named by its text, any other operand
/// as it is printed.
pub open spec fn infix_value(op: Infix, l: ObjectV, r: ObjectV) -> Result<ObjectV, Fatal> {
    match l {
        ObjectV::Int(a) => match r {
            ObjectV::Int(b) => int_infix(op, a, b),
            _ => Ok(ObjectV::Error(unknown_operator(display(l), op, display(r)))),
        },
        ObjectV::String(a) => match r {
            ObjectV::String(b) => if op == Infix::Plus {
                Ok(ObjectV::String(a + b))
            } else {
                Ok(ObjectV::Error(type_mismatch(a, op, b)))
            },
            _ => Ok(ObjectV::Error(unknown_operator(a, op, display(r)))),
        },
        _ => if same_kind(l, r) {
            Ok(ObjectV::Error(type_mismatch(display(l), op, display(r))))
        } else {
            Ok(ObjectV::Error(unknown_operator(display(l), op, display(r))))
        },
    }
}

/// Whether a value can be looked up as a key: integers, truth values and
/// strings.
pub open spec fn hashable(o: ObjectV) -> bool {
    o is Int || o is Bool || o is String
}

/// The place of the key `key` among the pairs from place `i` on.
pub open spec fn key_place(pairs: Seq<(ObjectV, ObjectV)>, key: ObjectV, i: nat) -> Option<nat>
    decreases pairs.len() - i,
{
    if i >= pairs.len() {
        None
    } else if pairs[i as int].0 == key {
        Some(i)
    } else {
        key_place(pairs, key, i + 1)
    }
}

/// The value under `key`, and `Null` where the key is missing.
pub open spec fn pair_lookup(pairs: Seq<(ObjectV, ObjectV)>, key: ObjectV) -> ObjectV {
    match key_place(pairs, key, 0) {
        Some(i) => pairs[i as int].1,
        None => ObjectV::Null,
    }
}

/// The pairs with `value` under `key`: in the place of the old value where
/// the key is there, at the end where it is new.
pub open spec fn pair_insert(
    pairs: Seq<(ObjectV, ObjectV)>,
    key: ObjectV,
    value: ObjectV,
) -> Seq<(ObjectV, ObjectV)> {
    match key_place(pairs, key, 0) {
        Some(i) => pairs.update(i as int, (pairs[i as int].0, value)),
        None => pairs.push((key, value)),
    }
}

/// The value of `left[index]`. An index outside an array gives `Null`, and
/// so does a key that a hash does not have.
pub open spec fn index_value(l: ObjectV, i: ObjectV) -> ObjectV {
    match l {
        ObjectV::Array(items) => match i {
            ObjectV::Int(k) => if 0 <= k < items.len() {
                items[k as int]
            } else {
                ObjectV::Null
            },
            _ => ObjectV::Error("index operator not supported: "@ + display(l)),
        },
        ObjectV::Hash(pairs) => if hashable(i) {
            pair_lookup(pairs, i)
        } else if i is Error {
            i
        } else {
            ObjectV::Error("unusable as hash key: "@ + display(i))
        },
        _ => ObjectV::Error("unknown operator: "@ + display(l) + " "@ + display(i)),
    }
}

/// The number of arguments that a native function of the interpreter
/// reads; none for a capability of the host.
pub open spec fn native_arity(f: NativeV) -> nat {
    match f {
        NativeV::Len | NativeV::First | NativeV::Last | NativeV::Rest => 1,
        NativeV::Push | NativeV::DeepEqual => 2,
        NativeV::Host(_) => 0,
    }
}

/// The message of `first`, `last`, `rest` and `push` for an argument that
/// is no array.
pub open spec fn must_be_array(name: Seq<char>, o: ObjectV) -> Seq<char> {
    "argument to `"@ + name + "` must be array. got "@ + display(o)
}

/// What a native function of the interpreter returns for its arguments.
pub open spec fn native_value(f: NativeV, args: Seq<ObjectV>) -> ObjectV
    recommends
        !(f is Host),
        args.len() >= native_arity(f),
{
    match f {
        NativeV::Len => match args[0] {
            ObjectV::String(s) => length_value(byte_length(s)),
            ObjectV::Array(o) => length_value(o.len()),
            o => ObjectV::Error("argument to `len` not supported, got "@ + display(o)),
        },
        NativeV::First => match args[0] {
            ObjectV::Array(o) => if o.len() > 0 {
                o[0]
            } else {
                ObjectV::Null
            },
            o => ObjectV::Error(must_be_array("first"@, o)),
        },
        NativeV::Last => match args[0] {
            ObjectV::Array(o) => if o.len() > 0 {
                o[o.len() - 1]
            } else {
                ObjectV::Null
            },
            o => ObjectV::Error(must_be_array("last"@, o)),
        },
        NativeV::Rest => match args[0] {
            ObjectV::Array(o) => if o.len() > 0 {
                ObjectV::Array(o.skip(1))
            } else {
                ObjectV::Null
            },
            o => ObjectV::Error(must_be_array("rest"@, o)),
        },
        NativeV::Push => match args[0] {
            ObjectV::Array(o) => ObjectV::Array(o.push(args[1])),
            o => ObjectV::Error(must_be_array("push"@, o)),
        },
        NativeV::DeepEqual => ObjectV::Bool(display(args[0]) == display(args[1])),
        NativeV::Host(_) => ObjectV::Null,
    }
}

/// A prefix operator on a value.
pub fn eval_prefix_expr(prefix: &Prefix, right: Object) -> (r: Result<Object, Fatal>)
    ensures
        match r {
            Ok(o) => prefix_value(*prefix, right@) == Ok::<ObjectV, Fatal>(o@),
            Err(e) => prefix_value(*prefix, right@) == Err::<ObjectV, Fatal>(e),
        },
{
    match prefix {
        Prefix::Not => Ok(eval_not_op_expr(right)),
        Prefix::Minus => eval_minus_prefix_op_expr(right),
        Prefix::Plus => Ok(eval_plus_prefix_op_expr(right)),
    }
}

/// `!` on a value.
pub fn eval_not_op_expr(right: Object) -> (r: Object)
    ensures
        r@ == not_value(right@),
{
    match right {
        Object::Bool(true) => Object::Bool(false),
        Object::Bool(false) => Object::Bool(true),
        Object::Null => Object::Bool(true),
        _ => Object::Bool(false),
    }
}

/// Unary `-` on a value.
pub fn eval_minus_prefix_op_expr(right: Object) -> (r: Result<Object, Fatal>)
    ensures
        match r {
            Ok(o) => minus_value(right@) == Ok::<ObjectV, Fatal>(o@),
            Err(e) => minus_value(right@) == Err::<ObjectV, Fatal>(e),
        },
{
    match right {
        Object::Int(value) => {
            if value == i64::MIN {
                Err(Fatal::Overflow)
            } else {
                Ok(Object::Int(-value))
            }
        },
        _ => {
            let mut s = String::from_str("unknown operator: -");
            push_display(&mut s, &right);
            Ok(Object::Error(s))
        },
    }
}

/// Unary `+` on a value.
pub fn eval_plus_prefix_op_expr(right: Object) -> (r: Object)
    ensures
        r@ == plus_value(right@),
{
    match right {
        Object::Int(value) => Object::Int(value),
        _ => {
            let mut s = String::from_str("unknown operator: ");
            push_display(&mut s, &right);
            Object::Error(s)
        },
    }
}

/// The error for two operands of one kind that do not have the operator.
fn type_mismatch_error(l: &str, infix: &Infix, r: &str) -> (e: Object)
    ensures
        e@ == ObjectV::Error(type_mismatch(l@, *infix, r@)),
{
    let mut s = String::from_str("type mismatch: ");
    s.append(l);
    s.append(" ");
    s.append(infix.to_text());
    s.append(" ");
    s.append(r);
    Object::Error(s)
}

/// The error for two operands of different kinds.
fn unknown_operator_error(l: &str, infix: &Infix, r: &str) -> (e: Object)
    ensures
        e@ == ObjectV::Error(unknown_operator(l@, *infix, r@)),
{
    let mut s = String::from_str("unknown operator: ");
    s.append(l);
    s.append(" ");
    s.append(infix.to_text());
    s.append(" ");
    s.append(r);
    Object::Error(s)
}

/// Whether two values are of the same kind.
pub fn is_same_kind(l: &Object, r: &Object) -> (b: bool)
    ensures
        b == same_kind(l@, r@),
{
    match (l, r) {
        (Object::Int(_), Object::Int(_)) => true,
        (Object::String(_), Object::String(_)) => true,
        (Object::Bool(_), Object::Bool(_)) => true,
        (Object::Array(_), Object::Array(_)) => true,
        (Object::Hash(_), Object::Hash(_)) => true,
        (Object::Function(_, _, _), Object::Function(_, _, _)) => true,
        (Object::Builtin(_, _), Object::Builtin(_, _)) => true,
        (Object::ReturnValue(_), Object::ReturnValue(_)) => true,
        (Object::BreakStatement, Object::BreakStatement) => true,
        (Object::ContinueStatement, Object::ContinueStatement) => true,
        (Object::Error(_), Object::Error(_)) => true,
        (Object::Null, Object::Null) => true,
        _ => false,
    }
}

/// An infix operator on two values.
pub fn eval_infix_expr(infix: &Infix, left: Object, right: Object) -> (r: Result<Object, Fatal>)
    ensures
        match r {
            Ok(o) => infix_value(*infix, left@, right@) == Ok::<ObjectV, Fatal>(o@),
            Err(e) => infix_value(*infix, left@, right@) == Err::<ObjectV, Fatal>(e),
        },
{
    match left {
        Object::Int(left_value) => {
            if let Object::Int(right_value) = right {
                eval_infix_int_expr(infix, left_value, right_value)
            } else {
                let l = left.to_text();
                let r = right.to_text();
                Ok(unknown_operator_error(l.as_str(), infix, r.as_str()))
            }
        },
        Object::String(left_value) => {
            if let Object::String(right_value) = right {
                Ok(eval_infix_string_expr(infix, left_value, right_value))
            } else {
                let r = right.to_text();
                Ok(unknown_operator_error(left_value.as_str(), infix, r.as_str()))
            }
        },
        _ => {
            let l = left.to_text();
            let r = right.to_text();
            if is_same_kind(&left, &right) {
                Ok(type_mismatch_error(l.as_str(), infix, r.as_str()))
            } else {
                Ok(unknown_operator_error(l.as_str(), infix, r.as_str()))
            }
        },
    }
}

/// An infix operator on two integers.
pub fn eval_infix_int_expr(infix: &Infix, left: i64, right: i64) -> (r: Result<Object, Fatal>)
    ensures
        match r {
            Ok(o) => int_infix(*infix, left, right) == Ok::<ObjectV, Fatal>(o@),
            Err(e) => int_infix(*infix, left, right) == Err::<ObjectV, Fatal>(e),
        },
{
    match infix {
        Infix::Plus => match left.checked_add(right) {
            Some(v) => Ok(Object::Int(v)),
            None => Err(Fatal::Overflow),
        },
        Infix::Minus => match left.checked_sub(right) {
            Some(v) => Ok(Object::Int(v)),
            None => Err(Fatal::Overflow),
        },
        Infix::Multiply => match left.checked_mul(right) {
            Some(v) => Ok(Object::Int(v)),
            None => Err(Fatal::Overflow),
        },
        Infix::Divide => {
            if right == 0 {
                Err(Fatal::DivisionByZero)
            } else {
                match left.checked_div(right) {
                    Some(v) => Ok(Object::Int(v)),
                    None => Err(Fatal::Overflow),
                }
            }
        },
        Infix::LT => Ok(Object::Bool(left < right)),
        Infix::LTEQ => Ok(Object::Bool(left <= right)),
        Infix::GT => Ok(Object::Bool(left > right)),
        Infix::GTEQ => Ok(Object::Bool(left >= right)),
        Infix::Equal => Ok(Object::Bool(left == right)),
        Infix::NotEqual => Ok(Object::Bool(left != right)),
    }
}

/// An infix operator on two strings.
pub fn eval_infix_string_expr(infix: &Infix, left: String, right: String) -> (r: Object)
    ensures
        r@ == if *infix == Infix::Plus {
            ObjectV::String(left@ + right@)
        } else {
            ObjectV::Error(type_mismatch(left@, *infix, right@))
        },
{
    match infix {
        Infix::Plus => {
            let mut s = left;
            s.append(right.as_str());
            Object::String(s)
        },
        _ => type_mismatch_error(left.as_str(), infix, right.as_str()),
    }
}

/// The place of `key` among the pairs of a hash.
pub fn find_key(pairs: &Vec<(Object, Object)>, key: &Object) -> (r: Option<usize>)
    ensures
        match r {
            Some(i) => key_place(entries_view(*pairs), key@, 0) == Some(i as nat) && i
                < pairs.len(),
            None => key_place(entries_view(*pairs), key@, 0) is None,
        },
{
    let mut i: usize = 0;
    while i < pairs.len()
        invariant
            i <= pairs.len(),
            key_place(entries_view(*pairs), key@, i as nat) == key_place(
                entries_view(*pairs),
                key@,
                0,
            ),
        decreases pairs.len() - i,
    {
        if same_object(&pairs[i].0, key) {
            return Some(i);
        }
        i = i + 1;
    }
    None
}

/// Puts `value` under `key`: in the place of the old value where the key
/// is there, at the end where it is new.
pub fn insert_pair(pairs: &mut Vec<(Object, Object)>, key: Object, value: Object)
    ensures
        entries_view(*final(pairs)) == pair_insert(entries_view(*old(pairs)), key@, value@),
{
    let ghost before = entries_view(*pairs);
    match find_key(pairs, &key) {
        Some(i) => {
            pairs[i].1 = value;
            assert(entries_view(*pairs) =~= before.update(i as int, (before[i as int].0, value@)));
        },
        None => {
            pairs.push((key, value));
            assert(entries_view(*pairs) =~= before.push((key@, value@)));
        },
    }
}

/// `left[index]`.
pub fn eval_index_expr(left: Object, index: Object) -> (r: Object)
    ensures
        r@ == index_value(left@, index@),
{
    match &left {
        Object::Array(array) => {
            if let Object::Int(i) = index {
                eval_array_index_expr(array, i)
            } else {
                let mut s = String::from_str("index operator not supported: ");
                push_display(&mut s, &left);
                Object::Error(s)
            }
        },
        Object::Hash(hash) => match &index {
            Object::Int(_) | Object::Bool(_) | Object::String(_) => {
                match find_key(hash, &index) {
                    Some(i) => hash[i].1.clone(),
                    None => Object::Null,
                }
            },
            Object::Error(_) => index,
            _ => {
                let mut s = String::from_str("unusable as hash key: ");
                push_display(&mut s, &index);
                Object::Error(s)
            },
        },
        _ => {
            let mut s = String::from_str("unknown operator: ");
            push_display(&mut s, &left);
            s.append(" ");
            push_display(&mut s, &index);
            Object::Error(s)
        },
    }
}

/// The item of `array` at `index`; `Null` for an index outside the array.
pub fn eval_array_index_expr(array: &Vec<Object>, index: i64) -> (r: Object)
    ensures
        r@ == if 0 <= index < array.len() {
            objects_view(*array)[index as int]
        } else {
            ObjectV::Null
        },
{
    if index < 0 {
        return Object::Null;
    }
    let i = index as u64;
    if i >= array.len() as u64 {
        return Object::Null;
    }
    array[i as usize].clone()
}

/// The error of `first`, `last`, `rest` and `push` for an argument that is
/// no array.
fn must_be_array_error(name: &str, o: &Object) -> (e: Object)
    ensures
        e@ == ObjectV::Error(must_be_array(name@, o@)),
{
    let mut s = String::from_str("argument to `");
    s.append(name);
    s.append("` must be array. got ");
    push_display(&mut s, o);
    Object::Error(s)
}

/// len: the length of a string in bytes, or of an array.
pub fn monkey_len(args: &Vec<Object>) -> (r: Object)
    requires
        args.len() >= 1,
    ensures
        r@ == native_value(NativeV::Len, objects_view(*args)),
{
    match &args[0] {
        Object::String(s) => {
            let n = s.as_str().len();
            length_object(n)
        },
        Object::Array(o) => {
            assert(objects_view(*o).len() == o.len());
            length_object(o.len())
        },
        o => {
            let mut s = String::from_str("argument to `len` not supported, got ");
            push_display(&mut s, o);
            Object::Error(s)
        },
    }
}

/// first: the first item of an array, `Null` for an empty one.
pub fn monkey_first(args: &Vec<Object>) -> (r: Object)
    requires
        args.len() >= 1,
    ensures
        r@ == native_value(NativeV::First, objects_view(*args)),
{
    match &args[0] {
        Object::Array(o) => {
            if o.len() > 0 {
                assert(objects_view(*o)[0] == o[0]@);
                o[0].clone()
            } else {
                Object::Null
            }
        },
        o => must_be_array_error("first", o),
    }
}

/// last: the last item of an array, `Null` for an empty one.
pub fn monkey_last(args: &Vec<Object>) -> (r: Object)
    requires
        args.len() >= 1,
    ensures
        r@ == native_value(NativeV::Last, objects_view(*args)),
{
    match &args[0] {
        Object::Array(o) => {
            if o.len() > 0 {
                assert(objects_view(*o)[o.len() - 1] == o[o.len() - 1]@);
                o[o.len() - 1].clone()
            } else {
                Object::Null
            }
        },
        o => must_be_array_error("last", o),
    }
}

/// rest: an array without its first item, `Null` for an empty one.
pub fn monkey_rest(args: &Vec<Object>) -> (r: Object)
    requires
        args.len() >= 1,
    ensures
        r@ == native_value(NativeV::Rest, objects_view(*args)),
{
    match &args[0] {
        Object::Array(o) => {
            if o.len() > 0 {
                let mut out: Vec<Object> = Vec::new();
                let mut i: usize = 1;
                while i < o.len()
                    invariant
                        1 <= i <= o.len(),
                        out.len() == i - 1,
                        forall|j: int| 0 <= j < i - 1 ==> out[j]@ == o[j + 1]@,
                    decreases o.len() - i,
                {
                    out.push(o[i].clone());
                    i = i + 1;
                }
                assert(objects_view(out) =~= objects_view(*o).skip(1));
                Object::Array(out)
            } else {
                Object::Null
            }
        },
        o => must_be_array_error("rest", o),
    }
}

/// push: a new array with one more item at its end; the array that was
/// given stays as it is.
pub fn monkey_push(args: &Vec<Object>) -> (r: Object)
    requires
        args.len() >= 2,
    ensures
        r@ == native_value(NativeV::Push, objects_view(*args)),
{
    match &args[0] {
        Object::Array(o) => {
            let mut arr = crate::evaluator::object::copy_objects(o);
            let ghost before = objects_view(arr);
            let x = args[1].clone();
            arr.push(x);
            assert(objects_view(arr) =~= before.push(x@));
            Object::Array(arr)
        },
        o => must_be_array_error("push", o),
    }
}

/// Whether two values are printed alike.
pub fn three_body_deep_equal(args: &Vec<Object>) -> (r: Object)
    requires
        args.len() >= 2,
    ensures
        r@ == native_value(NativeV::DeepEqual, objects_view(*args)),
{
    let a = args[0].to_text();
    let b = args[1].to_text();
    Object::Bool(a == b)
}

} // verus!
