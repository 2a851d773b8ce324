//! Moving native values to the engine's stack and back.

use vstd::prelude::*;
use vstd::string::StringExecFns;
use core::str::Utf8Error;
use crate::lua::bridge::{EngineView, LuaState, LuaValue};
use crate::lua::error::{decimal, decimal_text, describe_utf8_error, utf8_error_text, Error};
use crate::lua::number::{double_of, is_exact, lemma_small_is_exact, saturate};
use crate::lua::{
    expect_type, get_bool, get_number, get_string, get_string_bytes, push_bool, push_nil,
    push_number, push_string, LuaType,
};
use vstd::utf8::{decode_utf8, encode_utf8, valid_utf8};

verus! {

/// Why a value on the stack could not be read.
#[derive(Debug, PartialEq, Eq)]
pub enum FromStackError {
    /// The value is of another kind than the one asked for.
    InvalidType { stack_pos: i32, expected_type: LuaType, found_type: LuaType },
    /// The string is no UTF-8 text.
    InvalidString(Utf8Error),
    /// The value is no native object of the type asked for.
    InvalidUserdataType,
}

impl FromStackError {
    pub open spec fn message_text(self) -> Seq<char> {
        match self {
            FromStackError::InvalidType { stack_pos, expected_type, found_type } => {
                "Invalid argument at position "@ + decimal_text(stack_pos as int) + ", expected "@
                    + expected_type.name_text() + " found "@ + found_type.name_text()
            },
            FromStackError::InvalidString(err) => "Invalid string, "@ + utf8_error_text(err),
            FromStackError::InvalidUserdataType => "Invalid userdata type"@,
        }
    }

    /// The message of the error, as text.
    pub fn message(&self) -> (text: String)
        ensures
            text@ == self.message_text(),
    {
        match self {
            FromStackError::InvalidType { stack_pos, expected_type, found_type } => {
                let mut text = String::from_str("Invalid argument at position ");
                text.append(decimal(*stack_pos).as_str());
                text.append(", expected ");
                text.append(expected_type.name().as_str());
                text.append(" found ");
                text.append(found_type.name().as_str());
                text
            },
            FromStackError::InvalidString(err) => {
                let mut text = String::from_str("Invalid string, ");
                text.append(describe_utf8_error(err).as_str());
                text
            },
            FromStackError::InvalidUserdataType => String::from_str("Invalid userdata type"),
        }
    }
}

/// A native value that can be handed to the engine.
pub trait ToStack: Sized {
    /// What the engine must offer for the value to be pushed.
    spec fn can_push(&self, engine: EngineView) -> bool;

    /// How pushing the value changes the engine.
    spec fn pushes(&self, before: EngineView, after: EngineView) -> bool;

    /// How many stack slots the value takes.
    spec fn slots(&self) -> int;

    /// Pushes the value; returns how many values were pushed to the stack, usually just 1.
    fn push<S: LuaState>(self, state: &mut S) -> (count: i32)
        requires
            self.can_push(old(state)@),
        ensures
            self.pushes(old(state)@, final(state)@),
            count == self.slots(),
            final(state)@.top() == old(state)@.top() + count,
            final(state)@.stack.take(old(state)@.top()) == old(state)@.stack,
    ;
}

/// A native value that can be read from the engine's stack.
pub trait FromStack: Sized {
    /// What the engine must offer for a value to be read at `stack_pos`.
    spec fn can_read(engine: EngineView, stack_pos: int) -> bool;

    /// How reading at `stack_pos` goes: what comes back, the value with the number of slots it
    /// took or the reason why there is none, and the engine it leaves behind.
    spec fn reads(
        before: EngineView,
        stack_pos: int,
        read: Result<(Self, i32), Error>,
        after: EngineView,
    ) -> bool;

    /// Returns the value and how many stack slots were used.
    fn from_stack<S: LuaState>(state: &mut S, stack_pos: i32) -> (read: Result<(Self, i32), Error>)
        requires
            Self::can_read(old(state)@, stack_pos as int),
        ensures
            Self::reads(old(state)@, stack_pos as int, read, final(state)@),
    ;
}

/// The error for a value of another kind than `expected` at `stack_pos`.
pub open spec fn wrong_type(engine: EngineView, stack_pos: int, expected: LuaType) -> FromStackError {
    FromStackError::InvalidType {
        stack_pos: stack_pos as i32,
        expected_type: expected,
        found_type: engine.type_at(stack_pos),
    }
}

/// Whether `read` is the failure `err`.
pub open spec fn fails_with<T>(read: Result<(T, i32), Error>, err: FromStackError) -> bool {
    read matches Err(Error::Generic(e)) && e == err
}

/// The integer that is read at `stack_pos` into a type that spans `lo..=hi`.
pub open spec fn number_read(engine: EngineView, stack_pos: int, lo: int, hi: int) -> Result<
    int,
    FromStackError,
> {
    match engine.value_at(stack_pos) {
        LuaValue::Number(n) if engine.valid_index(stack_pos) => Ok(saturate(n, lo, hi)),
        _ => Err(wrong_type(engine, stack_pos, LuaType::Number)),
    }
}

/// Reads the number at `stack_pos`, held to `lo..=hi`.
fn read_number<S: LuaState>(state: &S, stack_pos: i32, lo: i128, hi: i128) -> (read: Result<
    i128,
    FromStackError,
>)
    requires
        state@.acceptable_index(stack_pos as int),
        lo <= hi,
    ensures
        match number_read(state@, stack_pos as int, lo as int, hi as int) {
            Ok(n) => read == Ok::<i128, FromStackError>(n as i128) && lo <= n <= hi,
            Err(err) => read == Err::<i128, FromStackError>(err),
        },
{
    match expect_type(state, stack_pos, LuaType::Number) {
        Ok(()) => {
            let n: i128 = get_number(state, stack_pos);
            if n < lo {
                Ok(lo)
            } else if n > hi {
                Ok(hi)
            } else {
                Ok(n)
            }
        },
        Err(err) => Err(err),
    }
}

/// A number that the engine holds exactly comes back as it went in.
pub proof fn lemma_number_round_trip(before: EngineView, v: int, lo: int, hi: int)
    requires
        lo <= v <= hi,
        is_exact(v),
    ensures
        number_read(before.pushed(LuaValue::Number(double_of(v))), -1, lo, hi) == Ok::<
            int,
            FromStackError,
        >(v),
        number_read(
            before.pushed(LuaValue::Number(double_of(v))),
            before.top() + 1,
            lo,
            hi,
        ) == Ok::<int, FromStackError>(v),
{
}

impl ToStack for bool {
    open spec fn can_push(&self, engine: EngineView) -> bool {
        engine.has_room(1)
    }

    open spec fn pushes(&self, before: EngineView, after: EngineView) -> bool {
        after == before.pushed(LuaValue::Bool(*self))
    }

    open spec fn slots(&self) -> int {
        1
    }

    fn push<S: LuaState>(self, state: &mut S) -> (count: i32) {
        push_bool(state, self);
        assert(state@.stack.take(old(state)@.top()) =~= old(state)@.stack);
        1
    }
}

impl FromStack for bool {
    open spec fn can_read(engine: EngineView, stack_pos: int) -> bool {
        engine.acceptable_index(stack_pos)
    }

    open spec fn reads(
        before: EngineView,
        stack_pos: int,
        read: Result<(Self, i32), Error>,
        after: EngineView,
    ) -> bool {
        &&& after == before
        &&& match before.value_at(stack_pos) {
            LuaValue::Bool(b) if before.valid_index(stack_pos) => read == Ok::<(bool, i32), Error>(
                (b, 1),
            ),
            _ => fails_with(read, wrong_type(before, stack_pos, LuaType::Bool)),
        }
    }

    fn from_stack<S: LuaState>(state: &mut S, stack_pos: i32) -> (read: Result<(Self, i32), Error>) {
        match expect_type(&*state, stack_pos, LuaType::Bool) {
            Ok(()) => Ok((get_bool(&*state, stack_pos), 1)),
            Err(err) => Err(Error::Generic(err)),
        }
    }
}

impl ToStack for &str {
    open spec fn can_push(&self, engine: EngineView) -> bool {
        engine.has_room(1)
    }

    open spec fn pushes(&self, before: EngineView, after: EngineView) -> bool {
        after == before.pushed(LuaValue::String(encode_utf8(self@)))
    }

    open spec fn slots(&self) -> int {
        1
    }

    fn push<S: LuaState>(self, state: &mut S) -> (count: i32) {
        push_string(state, self);
        assert(state@.stack.take(old(state)@.top()) =~= old(state)@.stack);
        1
    }
}

impl ToStack for String {
    open spec fn can_push(&self, engine: EngineView) -> bool {
        engine.has_room(1)
    }

    open spec fn pushes(&self, before: EngineView, after: EngineView) -> bool {
        after == before.pushed(LuaValue::String(encode_utf8(self@)))
    }

    open spec fn slots(&self) -> int {
        1
    }

    fn push<S: LuaState>(self, state: &mut S) -> (count: i32) {
        push_string(state, self.as_str());
        assert(state@.stack.take(old(state)@.top()) =~= old(state)@.stack);
        1
    }
}

impl FromStack for String {
    open spec fn can_read(engine: EngineView, stack_pos: int) -> bool {
        engine.acceptable_index(stack_pos)
    }

    open spec fn reads(
        before: EngineView,
        stack_pos: int,
        read: Result<(Self, i32), Error>,
        after: EngineView,
    ) -> bool {
        &&& after == before
        &&& match before.value_at(stack_pos) {
            LuaValue::String(bytes) if before.valid_index(stack_pos) => if valid_utf8(bytes) {
                read matches Ok((text, n)) && text@ == decode_utf8(bytes) && n == 1
            } else {
                read matches Err(Error::Generic(FromStackError::InvalidString(_)))
            },
            _ => fails_with(read, wrong_type(before, stack_pos, LuaType::String)),
        }
    }

    fn from_stack<S: LuaState>(state: &mut S, stack_pos: i32) -> (read: Result<(Self, i32), Error>) {
        match expect_type(&*state, stack_pos, LuaType::String) {
            Ok(()) => match get_string(&*state, stack_pos) {
                Ok(text) => Ok((text, 1)),
                Err(err) => Err(Error::Generic(FromStackError::InvalidString(err))),
            },
            Err(err) => Err(Error::Generic(err)),
        }
    }
}

impl FromStack for Vec<u8> {
    open spec fn can_read(engine: EngineView, stack_pos: int) -> bool {
        engine.acceptable_index(stack_pos)
    }

    open spec fn reads(
        before: EngineView,
        stack_pos: int,
        read: Result<(Self, i32), Error>,
        after: EngineView,
    ) -> bool {
        &&& after == before
        &&& match before.value_at(stack_pos) {
            LuaValue::String(bytes) if before.valid_index(stack_pos) => read matches Ok((held, n))
                && held@ == bytes && n == 1,
            _ => fails_with(read, wrong_type(before, stack_pos, LuaType::String)),
        }
    }

    fn from_stack<S: LuaState>(state: &mut S, stack_pos: i32) -> (read: Result<(Self, i32), Error>) {
        match expect_type(&*state, stack_pos, LuaType::String) {
            Ok(()) => Ok((get_string_bytes(&*state, stack_pos), 1)),
            Err(err) => Err(Error::Generic(err)),
        }
    }
}

impl ToStack for () {
    open spec fn can_push(&self, engine: EngineView) -> bool {
        true
    }

    open spec fn pushes(&self, before: EngineView, after: EngineView) -> bool {
        after == before
    }

    open spec fn slots(&self) -> int {
        0
    }

    fn push<S: LuaState>(self, state: &mut S) -> (count: i32) {
        assert(state@.stack.take(old(state)@.top()) =~= old(state)@.stack);
        0
    }
}

impl<T: ToStack> ToStack for Option<T> {
    open spec fn can_push(&self, engine: EngineView) -> bool {
        match self {
            Some(v) => v.can_push(engine),
            None => engine.has_room(1),
        }
    }

    open spec fn pushes(&self, before: EngineView, after: EngineView) -> bool {
        match self {
            Some(v) => v.pushes(before, after),
            None => after == before.pushed(LuaValue::Nil),
        }
    }

    open spec fn slots(&self) -> int {
        match self {
            Some(v) => v.slots(),
            None => 1,
        }
    }

    fn push<S: LuaState>(self, state: &mut S) -> (count: i32) {
        match self {
            Some(v) => v.push(state),
            None => {
                push_nil(state);
                assert(state@.stack.take(old(state)@.top()) =~= old(state)@.stack);
                1
            },
        }
    }
}

/// Text comes back from the engine as it went in, in one slot.
pub proof fn lemma_text_round_trip(
    text: String,
    before: EngineView,
    pushed: EngineView,
    read: Result<(String, i32), Error>,
    after: EngineView,
)
    requires
        text.pushes(before, pushed),
        <String as FromStack>::reads(pushed, -1, read, after),
    ensures
        read matches Ok((back, n)) && back@ == text@ && n == 1,
        after == pushed,
{
    broadcast use vstd::utf8::encode_utf8_valid_utf8, vstd::utf8::encode_utf8_decode_utf8;

}

/// A boolean comes back from the engine as it went in, in one slot.
pub proof fn lemma_bool_round_trip(
    val: bool,
    before: EngineView,
    pushed: EngineView,
    read: Result<(bool, i32), Error>,
    after: EngineView,
)
    requires
        val.pushes(before, pushed),
        <bool as FromStack>::reads(pushed, -1, read, after),
    ensures
        read == Ok::<(bool, i32), Error>((val, 1)),
        after == pushed,
{
}

impl ToStack for i8 {
    open spec fn can_push(&self, engine: EngineView) -> bool {
        engine.has_room(1)
    }

    open spec fn pushes(&self, before: EngineView, after: EngineView) -> bool {
        after == before.pushed(LuaValue::Number(double_of(*self as int)))
    }

    open spec fn slots(&self) -> int {
        1
    }

    fn push<S: LuaState>(self, state: &mut S) -> (count: i32) {
        push_number(state, self as i128);
        assert(state@.stack.take(old(state)@.top()) =~= old(state)@.stack);
        1
    }
}

impl FromStack for i8 {
    open spec fn can_read(engine: EngineView, stack_pos: int) -> bool {
        engine.acceptable_index(stack_pos)
    }

    open spec fn reads(
        before: EngineView,
        stack_pos: int,
        read: Result<(Self, i32), Error>,
        after: EngineView,
    ) -> bool {
        &&& after == before
        &&& match number_read(before, stack_pos, i8::MIN as int, i8::MAX as int) {
            Ok(n) => read == Ok::<(i8, i32), Error>((n as i8, 1)),
            Err(err) => fails_with(read, err),
        }
    }

    fn from_stack<S: LuaState>(state: &mut S, stack_pos: i32) -> (read: Result<(Self, i32), Error>) {
        match read_number(&*state, stack_pos, i8::MIN as i128, i8::MAX as i128) {
            Ok(n) => Ok((n as i8, 1)),
            Err(err) => Err(Error::Generic(err)),
        }
    }
}

/// Every `i8` comes back from the engine as it went in, in one slot.
pub proof fn lemma_i8_round_trip(
    val: i8,
    before: EngineView,
    pushed: EngineView,
    read: Result<(i8, i32), Error>,
    after: EngineView,
)
    requires
        val.pushes(before, pushed),
        <i8 as FromStack>::reads(pushed, -1, read, after),
    ensures
        read == Ok::<(i8, i32), Error>((val, 1)),
        after == pushed,
{
    lemma_small_is_exact(val as int);
    lemma_number_round_trip(before, val as int, i8::MIN as int, i8::MAX as int);
}

impl ToStack for u8 {
    open spec fn can_push(&self, engine: EngineView) -> bool {
        engine.has_room(1)
    }

    open spec fn pushes(&self, before: EngineView, after: EngineView) -> bool {
        after == before.pushed(LuaValue::Number(double_of(*self as int)))
    }

    open spec fn slots(&self) -> int {
        1
    }

    fn push<S: LuaState>(self, state: &mut S) -> (count: i32) {
        push_number(state, self as i128);
        assert(state@.stack.take(old(state)@.top()) =~= old(state)@.stack);
        1
    }
}

impl FromStack for u8 {
    open spec fn can_read(engine: EngineView, stack_pos: int) -> bool {
        engine.acceptable_index(stack_pos)
    }

    open spec fn reads(
        before: EngineView,
        stack_pos: int,
        read: Result<(Self, i32), Error>,
        after: EngineView,
    ) -> bool {
        &&& after == before
        &&& match number_read(before, stack_pos, u8::MIN as int, u8::MAX as int) {
            Ok(n) => read == Ok::<(u8, i32), Error>((n as u8, 1)),
            Err(err) => fails_with(read, err),
        }
    }

    fn from_stack<S: LuaState>(state: &mut S, stack_pos: i32) -> (read: Result<(Self, i32), Error>) {
        match read_number(&*state, stack_pos, u8::MIN as i128, u8::MAX as i128) {
            Ok(n) => Ok((n as u8, 1)),
            Err(err) => Err(Error::Generic(err)),
        }
    }
}

/// Every `u8` comes back from the engine as it went in, in one slot.
pub proof fn lemma_u8_round_trip(
    val: u8,
    before: EngineView,
    pushed: EngineView,
    read: Result<(u8, i32), Error>,
    after: EngineView,
)
    requires
        val.pushes(before, pushed),
        <u8 as FromStack>::reads(pushed, -1, read, after),
    ensures
        read == Ok::<(u8, i32), Error>((val, 1)),
        after == pushed,
{
    lemma_small_is_exact(val as int);
    lemma_number_round_trip(before, val as int, u8::MIN as int, u8::MAX as int);
}

impl ToStack for i16 {
    open spec fn can_push(&self, engine: EngineView) -> bool {
        engine.has_room(1)
    }

    open spec fn pushes(&self, before: EngineView, after: EngineView) -> bool {
        after == before.pushed(LuaValue::Number(double_of(*self as int)))
    }

    open spec fn slots(&self) -> int {
        1
    }

    fn push<S: LuaState>(self, state: &mut S) -> (count: i32) {
        push_number(state, self as i128);
        assert(state@.stack.take(old(state)@.top()) =~= old(state)@.stack);
        1
    }
}

impl FromStack for i16 {
    open spec fn can_read(engine: EngineView, stack_pos: int) -> bool {
        engine.acceptable_index(stack_pos)
    }

    open spec fn reads(
        before: EngineView,
        stack_pos: int,
        read: Result<(Self, i32), Error>,
        after: EngineView,
    ) -> bool {
        &&& after == before
        &&& match number_read(before, stack_pos, i16::MIN as int, i16::MAX as int) {
            Ok(n) => read == Ok::<(i16, i32), Error>((n as i16, 1)),
            Err(err) => fails_with(read, err),
        }
    }

    fn from_stack<S: LuaState>(state: &mut S, stack_pos: i32) -> (read: Result<(Self, i32), Error>) {
        match read_number(&*state, stack_pos, i16::MIN as i128, i16::MAX as i128) {
            Ok(n) => Ok((n as i16, 1)),
            Err(err) => Err(Error::Generic(err)),
        }
    }
}

/// Every `i16` comes back from the engine as it went in, in one slot.
pub proof fn lemma_i16_round_trip(
    val: i16,
    before: EngineView,
    pushed: EngineView,
    read: Result<(i16, i32), Error>,
    after: EngineView,
)
    requires
        val.pushes(before, pushed),
        <i16 as FromStack>::reads(pushed, -1, read, after),
    ensures
        read == Ok::<(i16, i32), Error>((val, 1)),
        after == pushed,
{
    lemma_small_is_exact(val as int);
    lemma_number_round_trip(before, val as int, i16::MIN as int, i16::MAX as int);
}

impl ToStack for u16 {
    open spec fn can_push(&self, engine: EngineView) -> bool {
        engine.has_room(1)
    }

    open spec fn pushes(&self, before: EngineView, after: EngineView) -> bool {
        after == before.pushed(LuaValue::Number(double_of(*self as int)))
    }

    open spec fn slots(&self) -> int {
        1
    }

    fn push<S: LuaState>(self, state: &mut S) -> (count: i32) {
        push_number(state, self as i128);
        assert(state@.stack.take(old(state)@.top()) =~= old(state)@.stack);
        1
    }
}

impl FromStack for u16 {
    open spec fn can_read(engine: EngineView, stack_pos: int) -> bool {
        engine.acceptable_index(stack_pos)
    }

    open spec fn reads(
        before: EngineView,
        stack_pos: int,
        read: Result<(Self, i32), Error>,
        after: EngineView,
    ) -> bool {
        &&& after == before
        &&& match number_read(before, stack_pos, u16::MIN as int, u16::MAX as int) {
            Ok(n) => read == Ok::<(u16, i32), Error>((n as u16, 1)),
            Err(err) => fails_with(read, err),
        }
    }

    fn from_stack<S: LuaState>(state: &mut S, stack_pos: i32) -> (read: Result<(Self, i32), Error>) {
        match read_number(&*state, stack_pos, u16::MIN as i128, u16::MAX as i128) {
            Ok(n) => Ok((n as u16, 1)),
            Err(err) => Err(Error::Generic(err)),
        }
    }
}

/// Every `u16` comes back from the engine as it went in, in one slot.
pub proof fn lemma_u16_round_trip(
    val: u16,
    before: EngineView,
    pushed: EngineView,
    read: Result<(u16, i32), Error>,
    after: EngineView,
)
    requires
        val.pushes(before, pushed),
        <u16 as FromStack>::reads(pushed, -1, read, after),
    ensures
        read == Ok::<(u16, i32), Error>((val, 1)),
        after == pushed,
{
    lemma_small_is_exact(val as int);
    lemma_number_round_trip(before, val as int, u16::MIN as int, u16::MAX as int);
}

impl ToStack for i32 {
    open spec fn can_push(&self, engine: EngineView) -> bool {
        engine.has_room(1)
    }

    open spec fn pushes(&self, before: EngineView, after: EngineView) -> bool {
        after == before.pushed(LuaValue::Number(double_of(*self as int)))
    }

    open spec fn slots(&self) -> int {
        1
    }

    fn push<S: LuaState>(self, state: &mut S) -> (count: i32) {
        push_number(state, self as i128);
        assert(state@.stack.take(old(state)@.top()) =~= old(state)@.stack);
        1
    }
}

impl FromStack for i32 {
    open spec fn can_read(engine: EngineView, stack_pos: int) -> bool {
        engine.acceptable_index(stack_pos)
    }

    open spec fn reads(
        before: EngineView,
        stack_pos: int,
        read: Result<(Self, i32), Error>,
        after: EngineView,
    ) -> bool {
        &&& after == before
        &&& match number_read(before, stack_pos, i32::MIN as int, i32::MAX as int) {
            Ok(n) => read == Ok::<(i32, i32), Error>((n as i32, 1)),
            Err(err) => fails_with(read, err),
        }
    }

    fn from_stack<S: LuaState>(state: &mut S, stack_pos: i32) -> (read: Result<(Self, i32), Error>) {
        match read_number(&*state, stack_pos, i32::MIN as i128, i32::MAX as i128) {
            Ok(n) => Ok((n as i32, 1)),
            Err(err) => Err(Error::Generic(err)),
        }
    }
}

/// Every `i32` comes back from the engine as it went in, in one slot.
pub proof fn lemma_i32_round_trip(
    val: i32,
    before: EngineView,
    pushed: EngineView,
    read: Result<(i32, i32), Error>,
    after: EngineView,
)
    requires
        val.pushes(before, pushed),
        <i32 as FromStack>::reads(pushed, -1, read, after),
    ensures
        read == Ok::<(i32, i32), Error>((val, 1)),
        after == pushed,
{
    lemma_small_is_exact(val as int);
    lemma_number_round_trip(before, val as int, i32::MIN as int, i32::MAX as int);
}

impl ToStack for u32 {
    open spec fn can_push(&self, engine: EngineView) -> bool {
        engine.has_room(1)
    }

    open spec fn pushes(&self, before: EngineView, after: EngineView) -> bool {
        after == before.pushed(LuaValue::Number(double_of(*self as int)))
    }

    open spec fn slots(&self) -> int {
        1
    }

    fn push<S: LuaState>(self, state: &mut S) -> (count: i32) {
        push_number(state, self as i128);
        assert(state@.stack.take(old(state)@.top()) =~= old(state)@.stack);
        1
    }
}

impl FromStack for u32 {
    open spec fn can_read(engine: EngineView, stack_pos: int) -> bool {
        engine.acceptable_index(stack_pos)
    }

    open spec fn reads(
        before: EngineView,
        stack_pos: int,
        read: Result<(Self, i32), Error>,
        after: EngineView,
    ) -> bool {
        &&& after == before
        &&& match number_read(before, stack_pos, u32::MIN as int, u32::MAX as int) {
            Ok(n) => read == Ok::<(u32, i32), Error>((n as u32, 1)),
            Err(err) => fails_with(read, err),
        }
    }

    fn from_stack<S: LuaState>(state: &mut S, stack_pos: i32) -> (read: Result<(Self, i32), Error>) {
        match read_number(&*state, stack_pos, u32::MIN as i128, u32::MAX as i128) {
            Ok(n) => Ok((n as u32, 1)),
            Err(err) => Err(Error::Generic(err)),
        }
    }
}

/// Every `u32` comes back from the engine as it went in, in one slot.
pub proof fn lemma_u32_round_trip(
    val: u32,
    before: EngineView,
    pushed: EngineView,
    read: Result<(u32, i32), Error>,
    after: EngineView,
)
    requires
        val.pushes(before, pushed),
        <u32 as FromStack>::reads(pushed, -1, read, after),
    ensures
        read == Ok::<(u32, i32), Error>((val, 1)),
        after == pushed,
{
    lemma_small_is_exact(val as int);
    lemma_number_round_trip(before, val as int, u32::MIN as int, u32::MAX as int);
}

impl ToStack for i64 {
    open spec fn can_push(&self, engine: EngineView) -> bool {
        engine.has_room(1)
    }

    open spec fn pushes(&self, before: EngineView, after: EngineView) -> bool {
        after == before.pushed(LuaValue::Number(double_of(*self as int)))
    }

    open spec fn slots(&self) -> int {
        1
    }

    fn push<S: LuaState>(self, state: &mut S) -> (count: i32) {
        push_number(state, self as i128);
        assert(state@.stack.take(old(state)@.top()) =~= old(state)@.stack);
        1
    }
}

impl FromStack for i64 {
    open spec fn can_read(engine: EngineView, stack_pos: int) -> bool {
        engine.acceptable_index(stack_pos)
    }

    open spec fn reads(
        before: EngineView,
        stack_pos: int,
        read: Result<(Self, i32), Error>,
        after: EngineView,
    ) -> bool {
        &&& after == before
        &&& match number_read(before, stack_pos, i64::MIN as int, i64::MAX as int) {
            Ok(n) => read == Ok::<(i64, i32), Error>((n as i64, 1)),
            Err(err) => fails_with(read, err),
        }
    }

    fn from_stack<S: LuaState>(state: &mut S, stack_pos: i32) -> (read: Result<(Self, i32), Error>) {
        match read_number(&*state, stack_pos, i64::MIN as i128, i64::MAX as i128) {
            Ok(n) => Ok((n as i64, 1)),
            Err(err) => Err(Error::Generic(err)),
        }
    }
}

/// A `i64` that a double holds exactly comes back from the engine as it went in, in one
/// slot.
pub proof fn lemma_i64_round_trip(
    val: i64,
    before: EngineView,
    pushed: EngineView,
    read: Result<(i64, i32), Error>,
    after: EngineView,
)
    requires
        is_exact(val as int),
        val.pushes(before, pushed),
        <i64 as FromStack>::reads(pushed, -1, read, after),
    ensures
        read == Ok::<(i64, i32), Error>((val, 1)),
        after == pushed,
{
    lemma_number_round_trip(before, val as int, i64::MIN as int, i64::MAX as int);
}

impl ToStack for u64 {
    open spec fn can_push(&self, engine: EngineView) -> bool {
        engine.has_room(1)
    }

    open spec fn pushes(&self, before: EngineView, after: EngineView) -> bool {
        after == before.pushed(LuaValue::Number(double_of(*self as int)))
    }

    open spec fn slots(&self) -> int {
        1
    }

    fn push<S: LuaState>(self, state: &mut S) -> (count: i32) {
        push_number(state, self as i128);
        assert(state@.stack.take(old(state)@.top()) =~= old(state)@.stack);
        1
    }
}

impl FromStack for u64 {
    open spec fn can_read(engine: EngineView, stack_pos: int) -> bool {
        engine.acceptable_index(stack_pos)
    }

    open spec fn reads(
        before: EngineView,
        stack_pos: int,
        read: Result<(Self, i32), Error>,
        after: EngineView,
    ) -> bool {
        &&& after == before
        &&& match number_read(before, stack_pos, u64::MIN as int, u64::MAX as int) {
            Ok(n) => read == Ok::<(u64, i32), Error>((n as u64, 1)),
            Err(err) => fails_with(read, err),
        }
    }

    fn from_stack<S: LuaState>(state: &mut S, stack_pos: i32) -> (read: Result<(Self, i32), Error>) {
        match read_number(&*state, stack_pos, u64::MIN as i128, u64::MAX as i128) {
            Ok(n) => Ok((n as u64, 1)),
            Err(err) => Err(Error::Generic(err)),
        }
    }
}

/// A `u64` that a double holds exactly comes back from the engine as it went in, in one
/// slot.
pub proof fn lemma_u64_round_trip(
    val: u64,
    before: EngineView,
    pushed: EngineView,
    read: Result<(u64, i32), Error>,
    after: EngineView,
)
    requires
        is_exact(val as int),
        val.pushes(before, pushed),
        <u64 as FromStack>::reads(pushed, -1, read, after),
    ensures
        read == Ok::<(u64, i32), Error>((val, 1)),
        after == pushed,
{
    lemma_number_round_trip(before, val as int, u64::MIN as int, u64::MAX as int);
}

impl ToStack for usize {
    open spec fn can_push(&self, engine: EngineView) -> bool {
        engine.has_room(1)
    }

    open spec fn pushes(&self, before: EngineView, after: EngineView) -> bool {
        after == before.pushed(LuaValue::Number(double_of(*self as int)))
    }

    open spec fn slots(&self) -> int {
        1
    }

    fn push<S: LuaState>(self, state: &mut S) -> (count: i32) {
        push_number(state, self as i128);
        assert(state@.stack.take(old(state)@.top()) =~= old(state)@.stack);
        1
    }
}

impl FromStack for usize {
    open spec fn can_read(engine: EngineView, stack_pos: int) -> bool {
        engine.acceptable_index(stack_pos)
    }

    open spec fn reads(
        before: EngineView,
        stack_pos: int,
        read: Result<(Self, i32), Error>,
        after: EngineView,
    ) -> bool {
        &&& after == before
        &&& match number_read(before, stack_pos, usize::MIN as int, usize::MAX as int) {
            Ok(n) => read == Ok::<(usize, i32), Error>((n as usize, 1)),
            Err(err) => fails_with(read, err),
        }
    }

    fn from_stack<S: LuaState>(state: &mut S, stack_pos: i32) -> (read: Result<(Self, i32), Error>) {
        match read_number(&*state, stack_pos, usize::MIN as i128, usize::MAX as i128) {
            Ok(n) => Ok((n as usize, 1)),
            Err(err) => Err(Error::Generic(err)),
        }
    }
}

/// A `usize` that a double holds exactly comes back from the engine as it went in, in one
/// slot.
pub proof fn lemma_usize_round_trip(
    val: usize,
    before: EngineView,
    pushed: EngineView,
    read: Result<(usize, i32), Error>,
    after: EngineView,
)
    requires
        is_exact(val as int),
        val.pushes(before, pushed),
        <usize as FromStack>::reads(pushed, -1, read, after),
    ensures
        read == Ok::<(usize, i32), Error>((val, 1)),
        after == pushed,
{
    lemma_number_round_trip(before, val as int, usize::MIN as int, usize::MAX as int);
}

impl ToStack for isize {
    open spec fn can_push(&self, engine: EngineView) -> bool {
        engine.has_room(1)
    }

    open spec fn pushes(&self, before: EngineView, after: EngineView) -> bool {
        after == before.pushed(LuaValue::Number(double_of(*self as int)))
    }

    open spec fn slots(&self) -> int {
        1
    }

    fn push<S: LuaState>(self, state: &mut S) -> (count: i32) {
        push_number(state, self as i128);
        assert(state@.stack.take(old(state)@.top()) =~= old(state)@.stack);
        1
    }
}

impl FromStack for isize {
    open spec fn can_read(engine: EngineView, stack_pos: int) -> bool {
        engine.acceptable_index(stack_pos)
    }

    open spec fn reads(
        before: EngineView,
        stack_pos: int,
        read: Result<(Self, i32), Error>,
        after: EngineView,
    ) -> bool {
        &&& after == before
        &&& match number_read(before, stack_pos, isize::MIN as int, isize::MAX as int) {
            Ok(n) => read == Ok::<(isize, i32), Error>((n as isize, 1)),
            Err(err) => fails_with(read, err),
        }
    }

    fn from_stack<S: LuaState>(state: &mut S, stack_pos: i32) -> (read: Result<(Self, i32), Error>) {
        match read_number(&*state, stack_pos, isize::MIN as i128, isize::MAX as i128) {
            Ok(n) => Ok((n as isize, 1)),
            Err(err) => Err(Error::Generic(err)),
        }
    }
}

/// A `isize` that a double holds exactly comes back from the engine as it went in, in one
/// slot.
pub proof fn lemma_isize_round_trip(
    val: isize,
    before: EngineView,
    pushed: EngineView,
    read: Result<(isize, i32), Error>,
    after: EngineView,
)
    requires
        is_exact(val as int),
        val.pushes(before, pushed),
        <isize as FromStack>::reads(pushed, -1, read, after),
    ensures
        read == Ok::<(isize, i32), Error>((val, 1)),
        after == pushed,
{
    lemma_number_round_trip(before, val as int, isize::MIN as int, isize::MAX as int);
}

impl ToStack for &bool {
    open spec fn can_push(&self, engine: EngineView) -> bool {
        engine.has_room(1)
    }

    open spec fn pushes(&self, before: EngineView, after: EngineView) -> bool {
        after == before.pushed(LuaValue::Bool(**self))
    }

    open spec fn slots(&self) -> int {
        1
    }

    fn push<S: LuaState>(self, state: &mut S) -> (count: i32) {
        push_bool(state, *self);
        assert(state@.stack.take(old(state)@.top()) =~= old(state)@.stack);
        1
    }
}

impl ToStack for &i8 {
    open spec fn can_push(&self, engine: EngineView) -> bool {
        engine.has_room(1)
    }

    open spec fn pushes(&self, before: EngineView, after: EngineView) -> bool {
        after == before.pushed(LuaValue::Number(double_of(**self as int)))
    }

    open spec fn slots(&self) -> int {
        1
    }

    fn push<S: LuaState>(self, state: &mut S) -> (count: i32) {
        push_number(state, *self as i128);
        assert(state@.stack.take(old(state)@.top()) =~= old(state)@.stack);
        1
    }
}

impl ToStack for &u8 {
    open spec fn can_push(&self, engine: EngineView) -> bool {
        engine.has_room(1)
    }

    open spec fn pushes(&self, before: EngineView, after: EngineView) -> bool {
        after == before.pushed(LuaValue::Number(double_of(**self as int)))
    }

    open spec fn slots(&self) -> int {
        1
    }

    fn push<S: LuaState>(self, state: &mut S) -> (count: i32) {
        push_number(state, *self as i128);
        assert(state@.stack.take(old(state)@.top()) =~= old(state)@.stack);
        1
    }
}

impl ToStack for &i16 {
    open spec fn can_push(&self, engine: EngineView) -> bool {
        engine.has_room(1)
    }

    open spec fn pushes(&self, before: EngineView, after: EngineView) -> bool {
        after == before.pushed(LuaValue::Number(double_of(**self as int)))
    }

    open spec fn slots(&self) -> int {
        1
    }

    fn push<S: LuaState>(self, state: &mut S) -> (count: i32) {
        push_number(state, *self as i128);
        assert(state@.stack.take(old(state)@.top()) =~= old(state)@.stack);
        1
    }
}

impl ToStack for &u16 {
    open spec fn can_push(&self, engine: EngineView) -> bool {
        engine.has_room(1)
    }

    open spec fn pushes(&self, before: EngineView, after: EngineView) -> bool {
        after == before.pushed(LuaValue::Number(double_of(**self as int)))
    }

    open spec fn slots(&self) -> int {
        1
    }

    fn push<S: LuaState>(self, state: &mut S) -> (count: i32) {
        push_number(state, *self as i128);
        assert(state@.stack.take(old(state)@.top()) =~= old(state)@.stack);
        1
    }
}

impl ToStack for &i32 {
    open spec fn can_push(&self, engine: EngineView) -> bool {
        engine.has_room(1)
    }

    open spec fn pushes(&self, before: EngineView, after: EngineView) -> bool {
        after == before.pushed(LuaValue::Number(double_of(**self as int)))
    }

    open spec fn slots(&self) -> int {
        1
    }

    fn push<S: LuaState>(self, state: &mut S) -> (count: i32) {
        push_number(state, *self as i128);
        assert(state@.stack.take(old(state)@.top()) =~= old(state)@.stack);
        1
    }
}

impl ToStack for &u32 {
    open spec fn can_push(&self, engine: EngineView) -> bool {
        engine.has_room(1)
    }

    open spec fn pushes(&self, before: EngineView, after: EngineView) -> bool {
        after == before.pushed(LuaValue::Number(double_of(**self as int)))
    }

    open spec fn slots(&self) -> int {
        1
    }

    fn push<S: LuaState>(self, state: &mut S) -> (count: i32) {
        push_number(state, *self as i128);
        assert(state@.stack.take(old(state)@.top()) =~= old(state)@.stack);
        1
    }
}

impl ToStack for &i64 {
    open spec fn can_push(&self, engine: EngineView) -> bool {
        engine.has_room(1)
    }

    open spec fn pushes(&self, before: EngineView, after: EngineView) -> bool {
        after == before.pushed(LuaValue::Number(double_of(**self as int)))
    }

    open spec fn slots(&self) -> int {
        1
    }

    fn push<S: LuaState>(self, state: &mut S) -> (count: i32) {
        push_number(state, *self as i128);
        assert(state@.stack.take(old(state)@.top()) =~= old(state)@.stack);
        1
    }
}

impl ToStack for &u64 {
    open spec fn can_push(&self, engine: EngineView) -> bool {
        engine.has_room(1)
    }

    open spec fn pushes(&self, before: EngineView, after: EngineView) -> bool {
        after == before.pushed(LuaValue::Number(double_of(**self as int)))
    }

    open spec fn slots(&self) -> int {
        1
    }

    fn push<S: LuaState>(self, state: &mut S) -> (count: i32) {
        push_number(state, *self as i128);
        assert(state@.stack.take(old(state)@.top()) =~= old(state)@.stack);
        1
    }
}

impl ToStack for &usize {
    open spec fn can_push(&self, engine: EngineView) -> bool {
        engine.has_room(1)
    }

    open spec fn pushes(&self, before: EngineView, after: EngineView) -> bool {
        after == before.pushed(LuaValue::Number(double_of(**self as int)))
    }

    open spec fn slots(&self) -> int {
        1
    }

    fn push<S: LuaState>(self, state: &mut S) -> (count: i32) {
        push_number(state, *self as i128);
        assert(state@.stack.take(old(state)@.top()) =~= old(state)@.stack);
        1
    }
}

impl ToStack for &isize {
    open spec fn can_push(&self, engine: EngineView) -> bool {
        engine.has_room(1)
    }

    open spec fn pushes(&self, before: EngineView, after: EngineView) -> bool {
        after == before.pushed(LuaValue::Number(double_of(**self as int)))
    }

    open spec fn slots(&self) -> int {
        1
    }

    fn push<S: LuaState>(self, state: &mut S) -> (count: i32) {
        push_number(state, *self as i128);
        assert(state@.stack.take(old(state)@.top()) =~= old(state)@.stack);
        1
    }
}

} // verus!
