//! Control of the engine's value stack, and the kinds of value found on it.

use vstd::prelude::*;

pub mod bridge;
pub mod closure;
pub mod error;
pub mod memory;
pub mod number;
pub mod slots;
pub mod stack;
pub mod table;
pub mod user_data;

use vstd::string::StringExecFns;
use vstd::utf8::{decode_utf8, encode_utf8, valid_utf8};
use core::str::Utf8Error;
use crate::lua::bridge::{
    field_key, CFunc, EngineView, LuaState, LuaValue, NativeObject, STACK_LIMIT, STATUS_OK,
};
use crate::lua::error::{decimal, decimal_text, text_of, Error};
use crate::lua::stack::{FromStack, FromStackError, ToStack};
use crate::lua::table::TableView;

verus! {

/// Result count that asks a call to leave every returned value on the stack.
pub const MULT_RET: i32 = -1;

/// Pseudo-index of the global table; upvalues are addressed below it.
pub const LUA_GLOBALSINDEX: i32 = -10002;

/// The value `nil`, ready to be pushed.
pub const NIL: Nil = Nil;

#[derive(Debug, Default, PartialEq, Eq, Clone, Copy, Structural)]
pub struct Nil;

/// The engine's well-known tables.
#[derive(Debug, Clone, Copy, PartialEq, Eq, Hash, Structural)]
pub enum LuaSpecial {
    /// Global table
    Glob,
    /// Environment
    Env,
    /// Registry
    Reg,
}

/// The kind of a value, as the engine numbers it.
#[derive(Debug, Clone, Copy, PartialEq, Eq, Hash, Structural)]
pub enum LuaType {
    NoValue,
    Nil,
    Bool,
    LightUserData,
    Number,
    String,
    Table,
    Function,
    UserData,
    Thread,
    Entity,
    Vector,
    Angle,
    Other(i32),
}

impl LuaType {
    /// The engine's number for each kind.
    pub open spec fn number(self) -> int {
        match self {
            LuaType::NoValue => -1,
            LuaType::Nil => 0,
            LuaType::Bool => 1,
            LuaType::LightUserData => 2,
            LuaType::Number => 3,
            LuaType::String => 4,
            LuaType::Table => 5,
            LuaType::Function => 6,
            LuaType::UserData => 7,
            LuaType::Thread => 8,
            LuaType::Entity => 9,
            LuaType::Vector => 10,
            LuaType::Angle => 11,
            LuaType::Other(t) => t as int,
        }
    }

    /// The kind that the engine means by `num`: a named kind for -1 through 11, `Other` beyond.
    pub open spec fn of_number(num: int) -> LuaType {
        if num == -1 {
            LuaType::NoValue
        } else if num == 0 {
            LuaType::Nil
        } else if num == 1 {
            LuaType::Bool
        } else if num == 2 {
            LuaType::LightUserData
        } else if num == 3 {
            LuaType::Number
        } else if num == 4 {
            LuaType::String
        } else if num == 5 {
            LuaType::Table
        } else if num == 6 {
            LuaType::Function
        } else if num == 7 {
            LuaType::UserData
        } else if num == 8 {
            LuaType::Thread
        } else if num == 9 {
            LuaType::Entity
        } else if num == 10 {
            LuaType::Vector
        } else if num == 11 {
            LuaType::Angle
        } else {
            LuaType::Other(num as i32)
        }
    }

    /// A kind is canonical unless it is an `Other` that hides one of the named numbers.
    pub open spec fn canonical(self) -> bool {
        self matches LuaType::Other(t) ==> !(-1 <= t <= 11)
    }

    pub fn to_number(&self) -> (num: i32)
        ensures
            num == self.number(),
    {
        match self {
            LuaType::NoValue => -1,
            LuaType::Nil => 0,
            LuaType::Bool => 1,
            LuaType::LightUserData => 2,
            LuaType::Number => 3,
            LuaType::String => 4,
            LuaType::Table => 5,
            LuaType::Function => 6,
            LuaType::UserData => 7,
            LuaType::Thread => 8,
            LuaType::Entity => 9,
            LuaType::Vector => 10,
            LuaType::Angle => 11,
            LuaType::Other(t) => *t,
        }
    }

    pub fn from_number(num: i32) -> (ty: LuaType)
        ensures
            ty == LuaType::of_number(num as int),
            ty.canonical(),
    {
        match num {
            -1 => LuaType::NoValue,
            0 => LuaType::Nil,
            1 => LuaType::Bool,
            2 => LuaType::LightUserData,
            3 => LuaType::Number,
            4 => LuaType::String,
            5 => LuaType::Table,
            6 => LuaType::Function,
            7 => LuaType::UserData,
            8 => LuaType::Thread,
            9 => LuaType::Entity,
            10 => LuaType::Vector,
            11 => LuaType::Angle,
            unknown => LuaType::Other(unknown),
        }
    }

    /// The name of the kind.
    pub open spec fn name_text(self) -> Seq<char> {
        match self {
            LuaType::NoValue => "None"@,
            LuaType::Nil => "Nil"@,
            LuaType::Bool => "Bool"@,
            LuaType::LightUserData => "LightUserData"@,
            LuaType::Number => "Number"@,
            LuaType::String => "String"@,
            LuaType::Table => "Table"@,
            LuaType::Function => "Function"@,
            LuaType::UserData => "UserData"@,
            LuaType::Thread => "Thread"@,
            LuaType::Entity => "Entity"@,
            LuaType::Vector => "Vector"@,
            LuaType::Angle => "Angle"@,
            LuaType::Other(t) => "Other("@ + decimal_text(t as int) + ")"@,
        }
    }

    /// The name of the kind, as error messages show it.
    pub fn name(&self) -> (text: String)
        ensures
            text@ == self.name_text(),
    {
        match self {
            LuaType::NoValue => String::from_str("None"),
            LuaType::Nil => String::from_str("Nil"),
            LuaType::Bool => String::from_str("Bool"),
            LuaType::LightUserData => String::from_str("LightUserData"),
            LuaType::Number => String::from_str("Number"),
            LuaType::String => String::from_str("String"),
            LuaType::Table => String::from_str("Table"),
            LuaType::Function => String::from_str("Function"),
            LuaType::UserData => String::from_str("UserData"),
            LuaType::Thread => String::from_str("Thread"),
            LuaType::Entity => String::from_str("Entity"),
            LuaType::Vector => String::from_str("Vector"),
            LuaType::Angle => String::from_str("Angle"),
            LuaType::Other(t) => {
                let mut text = String::from_str("Other(");
                text.append(decimal(*t).as_str());
                text.append(")");
                text
            },
        }
    }

    /// Every number the engine can report names a kind that numbers back to it.
    pub proof fn lemma_number_round_trip(num: i32)
        ensures
            LuaType::of_number(num as int).number() == num,
            LuaType::of_number(num as int).canonical(),
    {
    }

    /// A canonical kind survives the trip through its number; no other kind does.
    pub proof fn lemma_kind_round_trip(ty: LuaType)
        ensures
            LuaType::of_number(ty.number()) == ty <==> ty.canonical(),
    {
    }
}

/// The pseudo-index of the `index`-th upvalue of the running native closure.
pub open spec fn spec_upvalue_index(index: int) -> int {
    LUA_GLOBALSINDEX - index
}

/// Gets the upvalue `index`.
pub fn upvalue_index(index: i32) -> (pos: i32)
    requires
        i32::MIN <= LUA_GLOBALSINDEX - index <= i32::MAX,
    ensures
        pos == spec_upvalue_index(index as int),
{
    LUA_GLOBALSINDEX - index
}

/// Pops `count` values from the stack.
pub fn pop<S: LuaState>(state: &mut S, count: u32)
    requires
        count <= old(state)@.top(),
    ensures
        final(state)@ == old(state)@.popped(count as int),
{
    let size: i32 = state.top();
    state.pop(count as i32)
}

/// Returns the number of elements on the stack.
pub fn top<S: LuaState>(state: &S) -> (size: i32)
    ensures
        size == state@.top(),
{
    state.top()
}

/// `Ok` if the value at `stack_pos` has type `ty`, `Err` otherwise.
pub fn expect_type<S: LuaState>(state: &S, stack_pos: i32, ty: LuaType) -> (found: Result<
    (),
    FromStackError,
>)
    requires
        state@.acceptable_index(stack_pos as int),
    ensures
        found is Ok <==> state@.type_at(stack_pos as int) == ty,
        found matches Err(err) ==> err == (FromStackError::InvalidType {
            stack_pos,
            expected_type: ty,
            found_type: state@.type_at(stack_pos as int),
        }),
{
    let actual = get_type(state, stack_pos);
    if actual != ty {
        Err(FromStackError::InvalidType { stack_pos, expected_type: ty, found_type: actual })
    } else {
        Ok(())
    }
}

/// Converts a **relative** stack index to an **absolute** stack index.
/// If the index is absolute it does nothing.
pub fn rel_to_abs<S: LuaState>(state: &S, stack_pos: i32) -> (abs: i32)
    ensures
        abs == state@.absolute(stack_pos as int),
{
    if stack_pos < 0 {
        let size: i32 = top(state);
        size + (stack_pos + 1)
    } else {
        stack_pos
    }
}

/// Pushes `val` to the stack, returns the number of values pushed (usually just 1).
pub fn push<S: LuaState, T: ToStack>(state: &mut S, val: T) -> (count: i32)
    requires
        val.can_push(old(state)@),
    ensures
        val.pushes(old(state)@, final(state)@),
        count == val.slots(),
        final(state)@.top() == old(state)@.top() + count,
        final(state)@.stack.take(old(state)@.top()) == old(state)@.stack,
{
    val.push(state)
}

/// Pushes a copy of the value at `stack_pos` to the stack.
pub fn push_copy<S: LuaState>(state: &mut S, stack_pos: i32)
    requires
        old(state)@.valid_index(stack_pos as int),
        old(state)@.has_room(1),
    ensures
        final(state)@ == old(state)@.pushed(old(state)@.value_at(stack_pos as int)),
{
    state.push_copy(stack_pos)
}

/// Pushes `nil` to the stack.
pub fn push_nil<S: LuaState>(state: &mut S)
    requires
        old(state)@.has_room(1),
    ensures
        final(state)@ == old(state)@.pushed(LuaValue::Nil),
{
    state.push_nil()
}

/// Pushes `string` to the stack.
pub fn push_string<S: LuaState>(state: &mut S, string: &str)
    requires
        old(state)@.has_room(1),
    ensures
        final(state)@ == old(state)@.pushed(LuaValue::String(encode_utf8(string@))),
{
    push_bytes(state, string.as_bytes())
}

/// Pushes `string` to the stack containing the given bytes
pub fn push_bytes<S: LuaState>(state: &mut S, data: &[u8])
    requires
        old(state)@.has_room(1),
    ensures
        final(state)@ == old(state)@.pushed(LuaValue::String(data@)),
{
    state.push_string(data)
}

/// Pushes `number` to the stack, rounded to the nearest double.
pub fn push_number<S: LuaState>(state: &mut S, number: i128)
    requires
        old(state)@.has_room(1),
        -number::NUMBER_LIMIT <= number <= number::NUMBER_LIMIT,
    ensures
        final(state)@ == old(state)@.pushed(LuaValue::Number(number::double_of(number as int))),
{
    state.push_number(number)
}

/// Pushes `boolean` to the stack.
pub fn push_bool<S: LuaState>(state: &mut S, boolean: bool)
    requires
        old(state)@.has_room(1),
    ensures
        final(state)@ == old(state)@.pushed(LuaValue::Bool(boolean)),
{
    state.push_bool(boolean)
}

/// What is left of what was read once the slot count is dropped.
pub open spec fn value_of<T>(read: Result<(T, i32), Error>) -> Result<T, Error> {
    match read {
        Ok((v, _)) => Ok(v),
        Err(err) => Err(err),
    }
}

/// Gets the value at `stack_pos`.
pub fn get<S: LuaState, T: FromStack>(state: &mut S, stack_pos: i32) -> (value: Result<T, Error>)
    requires
        T::can_read(old(state)@, stack_pos as int),
    ensures
        exists|read: Result<(T, i32), Error>| #[trigger]
            T::reads(old(state)@, stack_pos as int, read, final(state)@) && value == value_of(read),
{
    let read = T::from_stack(state, stack_pos);
    assert(T::reads(old(state)@, stack_pos as int, read, state@));
    match read {
        Ok((v, _)) => Ok(v),
        Err(err) => Err(err),
    }
}

/// Gets the string at `stack_pos`.
pub fn get_string<S: LuaState>(state: &S, stack_pos: i32) -> (text: Result<String, Utf8Error>)
    requires
        state@.valid_index(stack_pos as int),
        state@.value_at(stack_pos as int) is String,
    ensures
        text is Ok <==> valid_utf8(state@.value_at(stack_pos as int)->String_0),
        text matches Ok(s) ==> s@ == decode_utf8(state@.value_at(stack_pos as int)->String_0),
{
    let bytes = state.get_string(stack_pos);
    match text_of(bytes.as_slice()) {
        Ok(s) => Ok(String::from_str(s)),
        Err(err) => Err(err),
    }
}

/// Gets the string at `stack_pos` without trying to convert to valid utf-8.
pub fn get_string_bytes<S: LuaState>(state: &S, stack_pos: i32) -> (bytes: Vec<u8>)
    requires
        state@.valid_index(stack_pos as int),
        state@.value_at(stack_pos as int) is String,
    ensures
        state@.value_at(stack_pos as int) == LuaValue::String(bytes@),
{
    state.get_string(stack_pos)
}

/// Gets the number at `stack_pos`, cut to an integer.
pub fn get_number<S: LuaState>(state: &S, stack_pos: i32) -> (val: i128)
    requires
        state@.valid_index(stack_pos as int),
    ensures
        match state@.value_at(stack_pos as int) {
            LuaValue::Number(n) => val == number::saturate(n, i128::MIN as int, i128::MAX as int),
            LuaValue::String(_) => true,
            _ => val == 0,
        },
{
    state.get_number(stack_pos)
}

/// Gets the bool at `stack_pos`.
pub fn get_bool<S: LuaState>(state: &S, stack_pos: i32) -> (val: bool)
    requires
        state@.valid_index(stack_pos as int),
    ensures
        val == state@.value_at(stack_pos as int).truthy(),
{
    state.get_bool(stack_pos)
}

/// Checks if the value at `stack_pos` has type `ty`.
pub fn is_type<S: LuaState>(state: &S, stack_pos: i32, ty: LuaType) -> (same: bool)
    requires
        state@.acceptable_index(stack_pos as int),
    ensures
        same <==> state@.type_at(stack_pos as int).number() == ty.number(),
{
    state.is_type(stack_pos, ty.to_number())
}

/// Returns the type of the value at `stack_pos`.
pub fn get_type<S: LuaState>(state: &S, stack_pos: i32) -> (ty: LuaType)
    requires
        state@.acceptable_index(stack_pos as int),
    ensures
        ty == state@.type_at(stack_pos as int),
{
    let num: i32 = state.get_type(stack_pos);
    proof {
        LuaType::lemma_kind_round_trip(state@.type_at(stack_pos as int));
    }
    LuaType::from_number(num)
}

/// Creates a reference of the value at the top of the stack and pops the value.
/// Returns the reference. You have to remember to call `reference_free(reference)`.
pub fn reference_create<S: LuaState>(state: &mut S) -> (reference: i32)
    requires
        old(state)@.top() >= 1,
        old(state)@.has_free_reference(),
    ensures
        final(state)@ == old(state)@.pinned(reference as int),
        old(state)@.stack.last() is Nil ==> reference == bridge::LUA_REFNIL,
        !(old(state)@.stack.last() is Nil) ==> reference >= 0 && !old(state)@.references.contains_key(
            reference as int,
        ),
{
    state.reference_create()
}

/// Frees the `reference`.
pub fn reference_free<S: LuaState>(state: &mut S, reference: i32)
    ensures
        final(state)@ == old(state)@.released(reference as int),
{
    state.reference_free(reference)
}

/// Pushes the value pointed by `reference` to the stack.
pub fn reference_push<S: LuaState>(state: &mut S, reference: i32)
    requires
        old(state)@.has_room(1),
    ensures
        final(state)@ == old(state)@.pushed(old(state)@.referenced(reference as int)),
{
    state.reference_push(reference)
}

/// Pushes `func` to the stack.
pub fn push_c_function<S: LuaState>(state: &mut S, func: CFunc)
    requires
        old(state)@.has_room(1),
    ensures
        final(state)@ == old(state)@.pushed(LuaValue::Function(func as int)),
{
    state.push_c_function(func)
}

impl LuaSpecial {
    /// The engine's number for the table.
    pub open spec fn number(self) -> int {
        match self {
            LuaSpecial::Glob => 0,
            LuaSpecial::Env => 1,
            LuaSpecial::Reg => 2,
        }
    }
}

/// Pushes a special value to the stack. check [LuaSpecial].
pub fn push_special<S: LuaState>(state: &mut S, special: LuaSpecial)
    requires
        old(state)@.has_room(1),
    ensures
        final(state)@ == old(state)@.pushed(old(state)@.special(special.number())),
{
    let special: i32 = match special {
        LuaSpecial::Glob => 0,
        LuaSpecial::Env => 1,
        LuaSpecial::Reg => 2,
    };
    state.push_special(special)
}

/// Pushes table\[key\] on to the stack.
/// table = value at `stack_pos`.
/// key   = value at top of the stack.
/// Pops the key from the stack.
pub fn get_table<S: LuaState>(state: &mut S, stack_pos: i32)
    requires
        old(state)@.top() >= 1,
        old(state)@.valid_index(stack_pos as int),
        old(state)@.value_at(stack_pos as int) is Table,
    ensures
        final(state)@ == old(state)@.popped(1).pushed(final(state)@.stack.last()),
        final(state)@.top() == old(state)@.top(),
        old(state)@.reads(
            old(state)@.value_at(stack_pos as int)->Table_0,
            old(state)@.stack.last(),
            final(state)@.stack.last(),
        ),
{
    state.get_table(stack_pos)
}

/// Sets table\[key\] to the value at the top of the stack.
/// table = value at `stack_pos`.
/// key   = value 2nd to the top of the stack.
/// Pops the key and the value from the stack.
pub fn set_table<S: LuaState>(state: &mut S, stack_pos: i32)
    requires
        old(state)@.top() >= 2,
        old(state)@.valid_index(stack_pos as int),
        old(state)@.value_at(stack_pos as int) is Table,
        !(old(state)@.stack[old(state)@.top() - 2] is Nil),
    ensures
        old(state)@.popped(2).writes(
            old(state)@.value_at(stack_pos as int)->Table_0,
            old(state)@.stack[old(state)@.top() - 2],
            old(state)@.stack.last(),
            final(state)@,
        ),
{
    state.set_table(stack_pos)
}

/// Pushes table\[key\] on to the stack
/// table = value at `stack_pos`
/// key   = `name`
pub fn get_field<S: LuaState>(state: &mut S, stack_pos: i32, name: &str)
    requires
        old(state)@.has_room(1),
        old(state)@.valid_index(stack_pos as int),
        old(state)@.value_at(stack_pos as int) is Table,
    ensures
        final(state)@ == old(state)@.pushed(final(state)@.stack.last()),
        final(state)@.top() == old(state)@.top() + 1,
        old(state)@.reads(
            old(state)@.value_at(stack_pos as int)->Table_0,
            field_key(name@),
            final(state)@.stack.last(),
        ),
{
    state.get_field(stack_pos, name)
}

/// Sets table\[key\] to the value at the top of the stack.
/// table = value at `stack_pos`
/// key   = `name`
/// Pops the value from the stack
pub fn set_field<S: LuaState>(state: &mut S, stack_pos: i32, name: &str)
    requires
        old(state)@.top() >= 1,
        old(state)@.valid_index(stack_pos as int),
        old(state)@.value_at(stack_pos as int) is Table,
    ensures
        old(state)@.popped(1).writes(
            old(state)@.value_at(stack_pos as int)->Table_0,
            field_key(name@),
            old(state)@.stack.last(),
            final(state)@,
        ),
{
    state.set_field(stack_pos, name)
}

/// Pushes a new empty table to the stack.
/// Returns a [TableView] to more easily manipulate the table.
pub fn create_table<S: LuaState>(state: &mut S) -> (table: TableView)
    requires
        old(state)@.has_room(1),
    ensures
        final(state)@ == old(state)@.with_new_table(),
        table.position() == final(state)@.top(),
{
    state.create_table();
    TableView::new(&*state, top(&*state))
}

/// To call a function first push the function to the stack, then push each argument from
/// first to last. `call` pops the function and the arguments, and pushes the results.
/// `args` is the number of arguments pushed, `results` the number of results wanted.
///
/// If the function raises an error this never returns. check [pcall].
pub fn call<S: LuaState>(state: &mut S, args: i32, results: i32)
    requires
        0 <= args < old(state)@.top(),
        -1 <= results,
        old(state)@.top() - args - 1 + results <= STACK_LIMIT,
    ensures
        old(state)@.calls_into(args as int, results as int, true, final(state)@),
{
    state.call(args, results)
}

/// Similar to [call] but `true` if the function succeded and `false` if it failed.
/// If the function failed the error object will be at the top of the stack.
#[must_use]
pub fn pcall<S: LuaState>(state: &mut S, args: i32, results: i32) -> (ok: bool)
    requires
        0 <= args < old(state)@.top(),
        -1 <= results,
        old(state)@.top() - args - 1 + results <= STACK_LIMIT,
    ensures
        old(state)@.calls_into(args as int, results as int, ok, final(state)@),
{
    state.pcall(args, results, 0) == STATUS_OK
}

/// The bytes that stand for an error value: those of a string, none for anything else.
pub open spec fn error_bytes(value: LuaValue) -> Seq<u8> {
    match value {
        LuaValue::String(bytes) => bytes,
        _ => Seq::empty(),
    }
}

/// Whether the protected call of `args` arguments may lead from `before` to `after` with
/// `outcome`: where the call ran to its end the results are on the stack, where it failed the
/// error value has been taken off the stack and is handed back as bytes.
pub open spec fn call_outcome(
    before: EngineView,
    args: int,
    results: int,
    outcome: Result<(), Error>,
    after: EngineView,
) -> bool {
    exists|called: EngineView| #[trigger]
        before.calls_into(args, results, outcome is Ok, called) && match outcome {
            Ok(()) => after == called,
            Err(Error::CustomBytes(message)) => after == called.popped(1) && message@
                == error_bytes(called.stack.last()),
            Err(_) => false,
        }
}

/// Similar to [pcall] but if the function fails nothing is pushed to the stack and instead an
/// error is returned. If the function succeds then Ok is returned and the results are pushed
/// to the stack.
pub fn pcall_result<S: LuaState>(state: &mut S, args: i32, results: i32) -> (outcome: Result<
    (),
    Error,
>)
    requires
        0 <= args < old(state)@.top(),
        -1 <= results,
        old(state)@.top() - args - 1 + results <= STACK_LIMIT,
    ensures
        call_outcome(old(state)@, args as int, results as int, outcome, final(state)@),
{
    match pcall(state, args, results) {
        true => {
            let outcome = Ok(());
            assert(old(state)@.calls_into(args as int, results as int, outcome is Ok, state@));
            outcome
        },
        false => {
            let ghost called = state@;
            let err_msg = match get_type(&*state, -1) {
                LuaType::String => get_string_bytes(&*state, -1),
                _ => Vec::new(),
            };
            assert(called.value_at(-1) == called.stack.last());
            assert(err_msg@ =~= error_bytes(called.stack.last()));
            pop(state, 1);
            let outcome = Err(Error::CustomBytes(err_msg));
            assert(old(state)@.calls_into(args as int, results as int, outcome is Ok, called));
            outcome
        },
    }
}

/// Whether `after` is `before` with some values pushed on top, and whatever else the pushing
/// changed.
pub open spec fn grown(before: EngineView, after: EngineView) -> bool {
    after.top() >= before.top() && after.stack.take(before.top()) == before.stack
}

/// Similar to [pcall] but the arguments are pushed by the function `args`.
/// The funcion to be called should be on the top of the stack prior to calling this function.
/// This function wraps [pcall] and counts the number of arguments pushed.
#[must_use]
pub fn pcall_with<S: LuaState, F: FnOnce(&mut S)>(state: &mut S, results: i32, args: F) -> (ok: bool)
    requires
        old(state)@.top() >= 1,
        -1 <= results,
        old(state)@.top() - 1 + results <= STACK_LIMIT,
        forall|s: &mut S| (*s)@ == old(state)@ ==> call_requires(args, (s,)),
        forall|s: &mut S|
            (*s)@ == old(state)@ && call_ensures(args, (s,), ()) ==> grown((*s)@, (*final(s))@),
    ensures
        exists|pushed: EngineView| #[trigger]
            grown(old(state)@, pushed) && pushed.calls_into(
                pushed.top() - old(state)@.top(),
                results as int,
                ok,
                final(state)@,
            ),
{
    let size_before_args: i32 = top(&*state);
    args(state);
    let size_after_args: i32 = top(&*state);
    let arg_count: i32 = size_after_args - size_before_args;
    assert(grown(old(state)@, state@));
    pcall(state, arg_count, results)
}

/// [pcall_with] + [pcall_result] => pcall_result_with
pub fn pcall_result_with<S: LuaState, F: FnOnce(&mut S)>(
    state: &mut S,
    results: i32,
    args: F,
) -> (outcome: Result<(), Error>)
    requires
        old(state)@.top() >= 1,
        -1 <= results,
        old(state)@.top() - 1 + results <= STACK_LIMIT,
        forall|s: &mut S| (*s)@ == old(state)@ ==> call_requires(args, (s,)),
        forall|s: &mut S|
            (*s)@ == old(state)@ && call_ensures(args, (s,), ()) ==> grown((*s)@, (*final(s))@),
    ensures
        exists|pushed: EngineView| #[trigger]
            grown(old(state)@, pushed) && call_outcome(
                pushed,
                pushed.top() - old(state)@.top(),
                results as int,
                outcome,
                final(state)@,
            ),
{
    let size_before_args: i32 = top(&*state);
    args(state);
    let size_after_args: i32 = top(&*state);
    let arg_count: i32 = size_after_args - size_before_args;
    assert(grown(old(state)@, state@));
    pcall_result(state, arg_count, results)
}

/// Records what the engine stores for a native object and pushes the allocation.
pub fn new_user_data<S: LuaState>(state: &mut S, object: NativeObject)
    requires
        old(state)@.has_room(1),
    ensures
        final(state)@ == old(state)@.with_new_user_data(object),
{
    state.new_user_data(object)
}

/// Returns what the engine stores for the native object at `stack_pos`. If the value at
/// `stack_pos` is no native object it returns `None`.
pub fn get_user_data<S: LuaState>(state: &S, stack_pos: i32) -> (object: Option<NativeObject>)
    requires
        state@.valid_index(stack_pos as int),
    ensures
        object == state@.native_object(state@.value_at(stack_pos as int)),
{
    state.get_user_data(stack_pos)
}

/// Sets the metatable for the value at `stack_pos`.
/// The table itself should be at the top of the stack.
/// This function will pop the metatable.
pub fn set_metatable<S: LuaState>(state: &mut S, stack_pos: i32)
    requires
        old(state)@.top() >= 1,
        old(state)@.valid_index(stack_pos as int),
        old(state)@.stack.last() is Table || old(state)@.stack.last() is Nil,
        old(state)@.value_at(stack_pos as int) is Table || old(state)@.value_at(stack_pos as int)
            is UserData,
    ensures
        final(state)@ == old(state)@.popped(1).with_metatable(
            old(state)@.value_at(stack_pos as int),
            match old(state)@.stack.last() {
                LuaValue::Table(m) => Some(m),
                _ => None,
            },
        ),
{
    state.set_metatable(stack_pos)
}

/// Returns `true` if the value at `stack_pos` has a metatable and pushes it to the stack.
/// Returns `false` if the value doesnt have a metatable and doesnt push anything to the stack.
#[must_use]
pub fn get_metatable<S: LuaState>(state: &mut S, stack_pos: i32) -> (found: bool)
    requires
        old(state)@.has_room(1),
        old(state)@.valid_index(stack_pos as int),
        old(state)@.value_at(stack_pos as int) is Table || old(state)@.value_at(stack_pos as int)
            is UserData,
    ensures
        match old(state)@.metatable_of(old(state)@.value_at(stack_pos as int)) {
            Some(m) => found && final(state)@ == old(state)@.pushed(LuaValue::Table(m)),
            None => !found && final(state)@ == old(state)@,
        },
{
    state.get_metatable(stack_pos)
}

/// Longest message, in bytes, that the engine is given for an error.
pub const ERROR_MESSAGE_LIMIT: usize = 4095;

/// What the engine is given for an error with this message: its first 4095 bytes at most,
/// and a zero byte that ends them.
pub open spec fn error_buffer_of(message: Seq<u8>) -> Seq<u8> {
    if message.len() <= ERROR_MESSAGE_LIMIT {
        message.push(0u8)
    } else {
        message.take(ERROR_MESSAGE_LIMIT as int).push(0u8)
    }
}

/// The buffer that is handed to the engine when an error with message `error` is raised.
pub fn error_buffer(error: &str) -> (buffer: Vec<u8>)
    ensures
        buffer@ == error_buffer_of(encode_utf8(error@)),
        buffer.len() <= ERROR_MESSAGE_LIMIT + 1,
{
    let bytes = error.as_bytes();
    let copy_len: usize = if bytes.len() < ERROR_MESSAGE_LIMIT {
        bytes.len()
    } else {
        ERROR_MESSAGE_LIMIT
    };
    let mut buffer: Vec<u8> = Vec::new();
    let mut i: usize = 0;
    while i < copy_len
        invariant
            i <= copy_len <= bytes.len(),
            buffer@ == bytes@.take(i as int),
        decreases copy_len - i,
    {
        buffer.push(bytes[i]);
        i += 1;
        assert(buffer@ =~= bytes@.take(i as int));
    }
    buffer.push(0u8);
    assert(bytes@.take(bytes.len() as int) =~= bytes@);
    buffer
}

/// How a native function ends: it returns with a number of results on the stack, or it
/// raises an error, for which the engine is given this buffer.
#[derive(Debug, PartialEq, Eq)]
pub enum NativeOutcome {
    Returned(i32),
    Raised(Vec<u8>),
}

/// Ends a native function with what its body came to: a value is pushed as the function's
/// results, an error becomes the message that is raised.
pub fn finish_call<S: LuaState, R: ToStack>(state: &mut S, result: Result<R, Error>) -> (outcome:
    NativeOutcome)
    requires
        result matches Ok(value) ==> value.can_push(old(state)@),
    ensures
        match result {
            Ok(value) => outcome == NativeOutcome::Returned(value.slots() as i32) && value.pushes(
                old(state)@,
                final(state)@,
            ),
            Err(err) => final(state)@ == old(state)@ && (outcome matches NativeOutcome::Raised(
                buffer,
            ) && buffer@ == error_buffer_of(encode_utf8(err.message_text()))),
        },
{
    match result {
        Ok(value) => NativeOutcome::Returned(push(state, value)),
        Err(err) => {
            let message = err.message();
            NativeOutcome::Raised(error_buffer(message.as_str()))
        },
    }
}

/// Pushes a closure over the native function `func`.
/// First push the values you want to have as upvalues; `nargs` is their number.
/// `push_c_closure` pops them and pushes a closure that has them as upvalues.
pub fn push_c_closure<S: LuaState>(state: &mut S, func: CFunc, nargs: i32)
    requires
        0 <= nargs <= old(state)@.top(),
        old(state)@.has_room(1),
    ensures
        final(state)@ == old(state)@.with_new_closure(func as int, nargs as int),
{
    state.push_c_closure(func, nargs)
}

/// A native function, ready to be pushed.
#[derive(Debug, Clone, Copy, PartialEq, Eq, Structural)]
pub struct NativeFunc(pub CFunc);

impl NativeFunc {
    pub fn new(func: CFunc) -> (native: Self)
        ensures
            native.0 == func,
    {
        Self(func)
    }
}

impl ToStack for NativeFunc {
    open spec fn can_push(&self, engine: EngineView) -> bool {
        engine.has_room(1)
    }

    open spec fn pushes(&self, before: EngineView, after: EngineView) -> bool {
        after == before.pushed(LuaValue::Function(self.0 as int))
    }

    open spec fn slots(&self) -> int {
        1
    }

    fn push<S: LuaState>(self, state: &mut S) -> (count: i32) {
        push_c_function(state, self.0);
        assert(state@.stack.take(old(state)@.top()) =~= old(state)@.stack);
        1
    }
}

impl ToStack for Nil {
    open spec fn can_push(&self, engine: EngineView) -> bool {
        engine.has_room(1)
    }

    open spec fn pushes(&self, before: EngineView, after: EngineView) -> bool {
        after == before.pushed(LuaValue::Nil)
    }

    open spec fn slots(&self) -> int {
        1
    }

    fn push<S: LuaState>(self, state: &mut S) -> (count: i32) {
        push_nil(state);
        assert(state@.stack.take(old(state)@.top()) =~= old(state)@.stack);
        1
    }
}

} // verus!
