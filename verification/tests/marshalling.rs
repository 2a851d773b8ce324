use gmrs::lua::bridge::LuaState;
use gmrs::lua::error::{decimal, error_message, Error};
use gmrs::lua::memory::{MemoryEngine, Value};
use gmrs::lua::number::round_to_double;
use gmrs::lua::stack::{FromStack, FromStackError, ToStack};
use gmrs::lua::{self, LuaType, NativeOutcome, Nil, NIL};

#[test]
fn integer_round_trip() {
    let mut engine = MemoryEngine::new();
    assert_eq!(lua::push(&mut engine, 42i32), 1);
    assert_eq!(engine.top(), 1);
    let (value, slots) = i32::from_stack(&mut engine, -1).unwrap();
    assert_eq!(value, 42);
    assert_eq!(slots, 1);
}

#[test]
fn every_integer_type_round_trips_at_its_bounds() {
    let mut engine = MemoryEngine::new();
    lua::push(&mut engine, i8::MIN);
    assert_eq!(i8::from_stack(&mut engine, -1), Ok((i8::MIN, 1)));
    lua::push(&mut engine, u8::MAX);
    assert_eq!(u8::from_stack(&mut engine, -1), Ok((u8::MAX, 1)));
    lua::push(&mut engine, i16::MIN);
    assert_eq!(i16::from_stack(&mut engine, -1), Ok((i16::MIN, 1)));
    lua::push(&mut engine, u16::MAX);
    assert_eq!(u16::from_stack(&mut engine, -1), Ok((u16::MAX, 1)));
    lua::push(&mut engine, i32::MIN);
    assert_eq!(i32::from_stack(&mut engine, -1), Ok((i32::MIN, 1)));
    lua::push(&mut engine, u32::MAX);
    assert_eq!(u32::from_stack(&mut engine, -1), Ok((u32::MAX, 1)));
    lua::push(&mut engine, -9007199254740991i64);
    assert_eq!(i64::from_stack(&mut engine, -1), Ok((-9007199254740991i64, 1)));
    lua::push(&mut engine, 9007199254740991u64);
    assert_eq!(u64::from_stack(&mut engine, -1), Ok((9007199254740991u64, 1)));
    lua::push(&mut engine, 123456usize);
    assert_eq!(usize::from_stack(&mut engine, -1), Ok((123456usize, 1)));
    lua::push(&mut engine, -123456isize);
    assert_eq!(isize::from_stack(&mut engine, -1), Ok((-123456isize, 1)));
    assert_eq!(engine.top(), 10);
}

#[test]
fn wide_integers_are_rounded_to_doubles() {
    assert_eq!(round_to_double(9007199254740992), 9007199254740992);
    assert_eq!(round_to_double(9007199254740993), 9007199254740992);
    assert_eq!(round_to_double(9007199254740995), 9007199254740996);
    assert_eq!(round_to_double(-9007199254740993), -9007199254740992);
    assert_eq!(round_to_double(18446744073709551615), 18446744073709551616);
    assert_eq!(round_to_double(0), 0);
    let mut engine = MemoryEngine::new();
    lua::push(&mut engine, 9007199254740993i64);
    assert_eq!(i64::from_stack(&mut engine, -1), Ok((9007199254740992i64, 1)));
    lua::push(&mut engine, u64::MAX);
    assert_eq!(u64::from_stack(&mut engine, -1), Ok((u64::MAX, 1)));
}

#[test]
fn numbers_saturate_when_read_into_a_narrow_type() {
    let mut engine = MemoryEngine::new();
    lua::push(&mut engine, 300i32);
    assert_eq!(u8::from_stack(&mut engine, -1), Ok((255u8, 1)));
    assert_eq!(i8::from_stack(&mut engine, -1), Ok((127i8, 1)));
    lua::push(&mut engine, -5i32);
    assert_eq!(u32::from_stack(&mut engine, -1), Ok((0u32, 1)));
    assert_eq!(i8::from_stack(&mut engine, -1), Ok((-5i8, 1)));
}

#[test]
fn values_are_pushed_through_references_too() {
    let mut engine = MemoryEngine::new();
    assert_eq!(lua::push(&mut engine, &-7i64), 1);
    assert_eq!(i64::from_stack(&mut engine, -1), Ok((-7, 1)));
    assert_eq!(lua::push(&mut engine, &200u8), 1);
    assert_eq!(u8::from_stack(&mut engine, -1), Ok((200, 1)));
    assert_eq!(lua::push(&mut engine, &true), 1);
    assert_eq!(bool::from_stack(&mut engine, -1), Ok((true, 1)));
}

#[test]
fn bool_round_trip() {
    let mut engine = MemoryEngine::new();
    assert_eq!(lua::push(&mut engine, true), 1);
    assert_eq!(bool::from_stack(&mut engine, 1), Ok((true, 1)));
    assert_eq!(lua::push(&mut engine, false), 1);
    assert_eq!(bool::from_stack(&mut engine, -1), Ok((false, 1)));
}

#[test]
fn text_round_trip() {
    let mut engine = MemoryEngine::new();
    assert_eq!(lua::push(&mut engine, "héllo wörld"), 1);
    assert_eq!(String::from_stack(&mut engine, -1), Ok(("héllo wörld".to_string(), 1)));
    assert_eq!(lua::push(&mut engine, String::from("owned")), 1);
    assert_eq!(lua::get::<_, String>(&mut engine, -1), Ok("owned".to_string()));
    assert_eq!(Vec::<u8>::from_stack(&mut engine, -1), Ok((b"owned".to_vec(), 1)));
}

#[test]
fn unit_takes_no_slot_and_none_is_nil() {
    let mut engine = MemoryEngine::new();
    assert_eq!(lua::push(&mut engine, ()), 0);
    assert_eq!(engine.top(), 0);
    assert_eq!(lua::push(&mut engine, None::<i32>), 1);
    assert_eq!(lua::get_type(&engine, -1), LuaType::Nil);
    assert_eq!(lua::push(&mut engine, Some(7u8)), 1);
    assert_eq!(u8::from_stack(&mut engine, -1), Ok((7, 1)));
    assert_eq!(lua::push(&mut engine, NIL), 1);
    assert_eq!(lua::push(&mut engine, Nil), 1);
    assert_eq!(engine.value_at(-1), Value::Nil);
}

#[test]
fn reading_the_wrong_kind_is_a_type_mismatch() {
    let mut engine = MemoryEngine::new();
    lua::push(&mut engine, "text");
    let expected = FromStackError::InvalidType {
        stack_pos: 1,
        expected_type: LuaType::Number,
        found_type: LuaType::String,
    };
    assert_eq!(i32::from_stack(&mut engine, 1), Err(Error::Generic(expected)));
    let read = bool::from_stack(&mut engine, 1);
    assert_eq!(
        read,
        Err(Error::Generic(FromStackError::InvalidType {
            stack_pos: 1,
            expected_type: LuaType::Bool,
            found_type: LuaType::String,
        }))
    );
    lua::push(&mut engine, 5i32);
    assert_eq!(
        String::from_stack(&mut engine, -1),
        Err(Error::Generic(FromStackError::InvalidType {
            stack_pos: -1,
            expected_type: LuaType::String,
            found_type: LuaType::Number,
        }))
    );
    assert_eq!(
        i32::from_stack(&mut engine, 9),
        Err(Error::Generic(FromStackError::InvalidType {
            stack_pos: 9,
            expected_type: LuaType::Number,
            found_type: LuaType::NoValue,
        }))
    );
}

#[test]
fn bytes_that_are_no_text_are_an_invalid_string() {
    let mut engine = MemoryEngine::new();
    lua::push_bytes(&mut engine, &[0x66, 0xff, 0x6f]);
    let read = String::from_stack(&mut engine, -1);
    assert!(matches!(read, Err(Error::Generic(FromStackError::InvalidString(_)))));
    assert_eq!(
        read.unwrap_err().message(),
        "Invalid string, invalid utf-8 sequence of 1 bytes from index 1"
    );
    assert_eq!(Vec::<u8>::from_stack(&mut engine, -1), Ok((vec![0x66, 0xff, 0x6f], 1)));
    assert!(lua::get_string(&engine, -1).is_err());
    assert_eq!(lua::get_string_bytes(&engine, -1), vec![0x66, 0xff, 0x6f]);
}

#[test]
fn error_messages() {
    let err = FromStackError::InvalidType {
        stack_pos: 2,
        expected_type: LuaType::Number,
        found_type: LuaType::NoValue,
    };
    assert_eq!(err.message(), "Invalid argument at position 2, expected Number found None");
    let err = FromStackError::InvalidType {
        stack_pos: -13,
        expected_type: LuaType::Other(-42),
        found_type: LuaType::UserData,
    };
    assert_eq!(err.message(), "Invalid argument at position -13, expected Other(-42) found UserData");
    assert_eq!(FromStackError::InvalidUserdataType.message(), "Invalid userdata type");
    assert_eq!(Error::CustomMessage("boom".to_string()).message(), "boom");
    assert_eq!(Error::CustomBytes(b"engine said no".to_vec()).message(), "engine said no");
    assert_eq!(
        Error::CustomBytes(vec![0xff]).message(),
        "Error::CustomBytes, failed to convert to string"
    );
    assert_eq!(
        Error::Generic(FromStackError::InvalidUserdataType).message(),
        "Invalid userdata type"
    );
    assert_eq!(error_message("Condition failed"), Err(Error::CustomMessage("Condition failed".to_string())));
}

#[test]
fn decimal_rendering() {
    assert_eq!(decimal(0), "0");
    assert_eq!(decimal(7), "7");
    assert_eq!(decimal(10), "10");
    assert_eq!(decimal(-1), "-1");
    assert_eq!(decimal(i32::MAX), "2147483647");
    assert_eq!(decimal(i32::MIN), "-2147483648");
}

#[test]
fn kind_numbers_round_trip() {
    assert_eq!(LuaType::from_number(5), LuaType::Table);
    assert_eq!(LuaType::Table.to_number(), 5);
    assert_eq!(LuaType::from_number(77), LuaType::Other(77));
    assert_eq!(LuaType::from_number(-1), LuaType::NoValue);
    assert_eq!(LuaType::from_number(-1).to_number(), -1);
    let mut num = -3;
    while num <= 14 {
        assert_eq!(LuaType::from_number(num).to_number(), num);
        num += 1;
    }
    assert_eq!(LuaType::Other(5).to_number(), 5);
    assert_ne!(LuaType::from_number(LuaType::Other(5).to_number()), LuaType::Other(5));
    assert_eq!(LuaType::Angle.name(), "Angle");
    assert_eq!(LuaType::Other(12).name(), "Other(12)");
}

#[test]
fn upvalue_indices_lie_below_the_globals_index() {
    assert_eq!(lua::upvalue_index(1), -10003);
    assert_eq!(lua::upvalue_index(2), -10004);
    assert_eq!(lua::upvalue_index(0), lua::LUA_GLOBALSINDEX);
}

#[test]
fn relative_and_absolute_positions() {
    let mut engine = MemoryEngine::new();
    lua::push(&mut engine, 1i32);
    lua::push(&mut engine, 2i32);
    lua::push(&mut engine, 3i32);
    assert_eq!(lua::top(&engine), 3);
    assert_eq!(lua::rel_to_abs(&engine, -1), 3);
    assert_eq!(lua::rel_to_abs(&engine, -3), 1);
    assert_eq!(lua::rel_to_abs(&engine, 2), 2);
    assert_eq!(lua::rel_to_abs(&engine, 0), 0);
    assert_eq!(lua::get_number(&engine, -2), 2);
    lua::push_copy(&mut engine, 1);
    assert_eq!(lua::get_number(&engine, -1), 1);
    lua::pop(&mut engine, 2);
    assert_eq!(lua::top(&engine), 2);
    assert!(lua::is_type(&engine, 1, LuaType::Number));
    assert!(!lua::is_type(&engine, 1, LuaType::String));
    assert!(lua::is_type(&engine, 3, LuaType::NoValue));
    assert_eq!(lua::expect_type(&engine, 2, LuaType::Number), Ok(()));
    assert_eq!(
        lua::expect_type(&engine, 2, LuaType::Table),
        Err(FromStackError::InvalidType {
            stack_pos: 2,
            expected_type: LuaType::Table,
            found_type: LuaType::Number,
        })
    );
}

#[test]
fn truthiness() {
    let mut engine = MemoryEngine::new();
    lua::push_nil(&mut engine);
    lua::push_bool(&mut engine, false);
    lua::push_number(&mut engine, 0);
    lua::push_string(&mut engine, "");
    assert!(!lua::get_bool(&engine, 1));
    assert!(!lua::get_bool(&engine, 2));
    assert!(lua::get_bool(&engine, 3));
    assert!(lua::get_bool(&engine, 4));
    assert_eq!(lua::get_number(&engine, 1), 0);
}

#[test]
fn error_buffer_is_cut_at_4095_bytes_and_ends_in_zero() {
    assert_eq!(lua::error_buffer("oops"), b"oops\0".to_vec());
    assert_eq!(lua::error_buffer(""), vec![0u8]);
    let exact = "a".repeat(4095);
    let buffer = lua::error_buffer(&exact);
    assert_eq!(buffer.len(), 4096);
    assert_eq!(buffer[4094], b'a');
    assert_eq!(buffer[4095], 0);
    let long = "b".repeat(5000);
    let buffer = lua::error_buffer(&long);
    assert_eq!(buffer.len(), 4096);
    assert!(buffer[..4095].iter().all(|&byte| byte == b'b'));
    assert_eq!(buffer[4095], 0);
}

#[test]
fn a_native_call_ends_with_results_or_a_raised_message() {
    let mut engine = MemoryEngine::new();
    let outcome = lua::finish_call(&mut engine, Ok::<i32, Error>(9));
    assert_eq!(outcome, NativeOutcome::Returned(1));
    assert_eq!(lua::get_number(&engine, -1), 9);
    let outcome = lua::finish_call(&mut engine, Ok::<(), Error>(()));
    assert_eq!(outcome, NativeOutcome::Returned(0));
    let outcome =
        lua::finish_call(&mut engine, Err::<i32, Error>(Error::CustomMessage("bad".to_string())));
    assert_eq!(outcome, NativeOutcome::Raised(b"bad\0".to_vec()));
    assert_eq!(engine.top(), 1);
}
