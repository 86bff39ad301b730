//! The parts of wire values: bounded texts, bytes, instants, pointers and lists, and what is wrong
//! with them.

use vstd::prelude::*;
use vstd::utf8::{decode_utf8, encode_utf8, valid_utf8};

use super::wire::{Data, Pointer, Text, WireFault};
use crate::instant::{
    format_rfc3339, has_four_digit_year, parse_rfc3339, rfc3339_instant, rfc3339_text,
};
use crate::session::Timestamp;
use crate::text::{decimal, decimal_text, text_from_utf8};

verus! {

/// A failed conversion.
#[derive(Debug)]
pub enum RpcConversionError {
    /// A pointer or capability of the message could not be read.
    Capnp(WireFault),
    /// A text field was not valid UTF-8.
    InvalidText { field: &'static str },
    /// A timestamp was not UTC RFC 3339 text.
    InvalidTimestamp { field: &'static str },
    /// Tool arguments were not valid JSON.
    InvalidToolArguments,
    /// A stable session identifier was malformed.
    InvalidSessionId,
    /// A session title was malformed.
    InvalidSessionTitle,
    /// Attachment zero is reserved and cannot identify an observer.
    InvalidAttachmentId,
    /// A session name was malformed.
    InvalidSessionName,
    /// A plan item did not satisfy the session rules.
    InvalidPlanItem,
    /// A future enum value is not understood.
    UnknownEnum { name: &'static str, value: u16 },
    /// A future union member is not understood.
    UnknownUnion { name: &'static str, value: u16 },
    /// A list cannot be represented on the wire.
    ListTooLong { field: &'static str },
    /// A text or data field exceeds its limit.
    FieldTooLong { field: &'static str },
    /// An HTTP failure omitted or incorrectly supplied its status.
    InvalidHttpStatusGuard,
}

impl RpcConversionError {
    /// The description of an error.
    pub open spec fn description(self) -> Seq<char> {
        match self {
            RpcConversionError::Capnp(fault) => "could not read Cap'n Proto value: "@
                + fault.message@,
            RpcConversionError::InvalidText { field } => "RPC field "@ + field@
                + " is not valid UTF-8"@,
            RpcConversionError::InvalidTimestamp { field } => "RPC field "@ + field@
                + " is not a UTC RFC 3339 timestamp"@,
            RpcConversionError::InvalidToolArguments => "RPC tool arguments are not valid JSON"@,
            RpcConversionError::InvalidSessionId => "RPC session identifier is malformed"@,
            RpcConversionError::InvalidSessionTitle => "RPC session title is malformed"@,
            RpcConversionError::InvalidAttachmentId => "RPC attachment identifier must be nonzero"@,
            RpcConversionError::InvalidSessionName => "RPC session name is malformed"@,
            RpcConversionError::InvalidPlanItem => "RPC plan item is invalid"@,
            RpcConversionError::UnknownEnum { name, value } => "unknown "@ + name@
                + " enum value "@ + decimal(value as nat),
            RpcConversionError::UnknownUnion { name, value } => "unknown "@ + name@
                + " union value "@ + decimal(value as nat),
            RpcConversionError::ListTooLong { field } => "RPC "@ + field@ + " list is too long"@,
            RpcConversionError::FieldTooLong { field } => "RPC "@ + field@ + " field is too long"@,
            RpcConversionError::InvalidHttpStatusGuard => {
                "RPC HTTP status guard is inconsistent with the failure kind"@
            },
        }
    }

    /// Describes the error.
    pub fn message(&self) -> (text: String)
        ensures
            text@ == self.description(),
    {
        match self {
            RpcConversionError::Capnp(fault) => {
                let mut text = "could not read Cap'n Proto value: ".to_owned();
                text.push_str(&fault.message);
                text
            },
            RpcConversionError::InvalidText { field } => three(
                "RPC field ",
                field,
                " is not valid UTF-8",
            ),
            RpcConversionError::InvalidTimestamp { field } => three(
                "RPC field ",
                field,
                " is not a UTC RFC 3339 timestamp",
            ),
            RpcConversionError::InvalidToolArguments => {
                "RPC tool arguments are not valid JSON".to_owned()
            },
            RpcConversionError::InvalidSessionId => {
                "RPC session identifier is malformed".to_owned()
            },
            RpcConversionError::InvalidSessionTitle => "RPC session title is malformed".to_owned(),
            RpcConversionError::InvalidAttachmentId => {
                "RPC attachment identifier must be nonzero".to_owned()
            },
            RpcConversionError::InvalidSessionName => "RPC session name is malformed".to_owned(),
            RpcConversionError::InvalidPlanItem => "RPC plan item is invalid".to_owned(),
            RpcConversionError::UnknownEnum { name, value } => {
                let mut text = three("unknown ", name, " enum value ");
                let value = decimal_text(*value as u64);
                text.push_str(&value);
                text
            },
            RpcConversionError::UnknownUnion { name, value } => {
                let mut text = three("unknown ", name, " union value ");
                let value = decimal_text(*value as u64);
                text.push_str(&value);
                text
            },
            RpcConversionError::ListTooLong { field } => three(
                "RPC ",
                field,
                " list is too long",
            ),
            RpcConversionError::FieldTooLong { field } => three(
                "RPC ",
                field,
                " field is too long",
            ),
            RpcConversionError::InvalidHttpStatusGuard => {
                "RPC HTTP status guard is inconsistent with the failure kind".to_owned()
            },
        }
    }
}

fn three(before: &str, middle: &str, after: &str) -> (text: String)
    ensures
        text@ == before@ + middle@ + after@,
{
    let mut text = before.to_owned();
    text.push_str(middle);
    text.push_str(after);
    text
}

/// The first of two faults.
pub open spec fn either(
    first: Option<RpcConversionError>,
    second: Option<RpcConversionError>,
) -> Option<RpcConversionError> {
    if first is Some {
        first
    } else {
        second
    }
}

/// The number of list elements that no wire list reaches.
pub const CAPNP_LIST_LIMIT: usize = 536_870_912;

/// Maximum raw working-directory bytes accepted at an application RPC boundary.
pub const MAX_RPC_CWD_BYTES: usize = 16384;

/// Maximum prompt bytes accepted at an application RPC boundary.
pub const MAX_RPC_PROMPT_BYTES: usize = 262144;

/// Maximum model, job, or stable-identity bytes accepted at an application RPC boundary.
pub const MAX_RPC_IDENTIFIER_BYTES: usize = 4096;

/// Maximum encoded session-title bytes accepted before scalar-level title validation.
pub const MAX_RPC_TITLE_BYTES: usize = 256;

/// A value that crosses the wire.
///
/// `fault` is the first thing wrong with a wire value, in the order in which it is read, and
/// `reads` what a wire value without one is read as. `unfit` is the first thing that keeps a value
/// from being written, and `writes` how one that fits is written. `survives` holds of the values
/// that reading gives back.
pub trait Conversion: Sized {
    /// The value in a message.
    type Wire;

    spec fn fault(wire: Self::Wire) -> Option<RpcConversionError>;

    spec fn reads(wire: Self::Wire, value: Self) -> bool;

    spec fn unfit(value: Self) -> Option<RpcConversionError>;

    spec fn writes(value: Self, wire: Self::Wire) -> bool;

    spec fn survives(value: Self) -> bool;

    fn from_wire(wire: &Self::Wire) -> (result: Result<Self, RpcConversionError>)
        ensures
            match result {
                Ok(value) => Self::fault(*wire) is None && Self::reads(*wire, value),
                Err(error) => Self::fault(*wire) == Some(error),
            },
    ;

    fn to_wire(value: &Self) -> (result: Result<Self::Wire, RpcConversionError>)
        ensures
            match result {
                Ok(wire) => Self::unfit(*value) is None && Self::writes(*value, wire),
                Err(error) => Self::unfit(*value) == Some(error),
            },
    ;

    proof fn round_trip(value: Self, wire: Self::Wire)
        requires
            Self::survives(value),
            Self::unfit(value) is None,
            Self::writes(value, wire),
        ensures
            Self::fault(wire) is None,
            Self::reads(wire, value),
    ;
}

/// What reading a wire value gives.
pub open spec fn read_outcome<T: Conversion>(
    wire: T::Wire,
    result: Result<T, RpcConversionError>,
) -> bool {
    match result {
        Ok(value) => T::fault(wire) is None && T::reads(wire, value),
        Err(error) => T::fault(wire) == Some(error),
    }
}

/// What writing a value gives.
pub open spec fn write_outcome<T: Conversion>(
    value: T,
    result: Result<T::Wire, RpcConversionError>,
) -> bool {
    match result {
        Ok(wire) => T::unfit(value) is None && T::writes(value, wire),
        Err(error) => T::unfit(value) == Some(error),
    }
}

/// Reading gives back what was written.
pub proof fn lemma_reading_gives_back_what_was_written<T: Conversion>(value: T, wire: T::Wire)
    requires
        T::survives(value),
        write_outcome::<T>(value, Ok(wire)),
    ensures
        read_outcome::<T>(wire, Ok(value)),
{
    T::round_trip(value, wire);
}

/// Applies a practical application limit before an inbound value is copied into owned storage.
pub fn validate_inbound_field_length(
    length: usize,
    limit: usize,
    field: &'static str,
) -> (result: Result<(), RpcConversionError>)
    ensures
        result == (if length > limit {
            Err(RpcConversionError::FieldTooLong { field })
        } else {
            Ok(())
        }),
{
    if length > limit {
        return Err(RpcConversionError::FieldTooLong { field });
    }
    Ok(())
}

/// Validates a text's byte length, including its NUL terminator.
pub fn validate_wire_text_length(length: usize, field: &'static str) -> (result: Result<
    (),
    RpcConversionError,
>)
    ensures
        result == (if length + 1 >= CAPNP_LIST_LIMIT {
            Err(RpcConversionError::FieldTooLong { field })
        } else {
            Ok(())
        }),
{
    match length.checked_add(1) {
        Some(encoded_length) => {
            if encoded_length >= CAPNP_LIST_LIMIT {
                Err(RpcConversionError::FieldTooLong { field })
            } else {
                Ok(())
            }
        },
        None => Err(RpcConversionError::FieldTooLong { field }),
    }
}

/// Validates a byte length against the list-element limit.
pub fn validate_wire_data_length(length: usize, field: &'static str) -> (result: Result<
    (),
    RpcConversionError,
>)
    ensures
        result == (if length >= CAPNP_LIST_LIMIT {
            Err(RpcConversionError::FieldTooLong { field })
        } else {
            Ok(())
        }),
{
    if length >= CAPNP_LIST_LIMIT {
        return Err(RpcConversionError::FieldTooLong { field });
    }
    Ok(())
}

/// Validates the number of elements of a list of pointers or numbers.
pub fn validate_wire_list_length(length: usize, field: &'static str) -> (result: Result<
    u32,
    RpcConversionError,
>)
    ensures
        result == (if length >= CAPNP_LIST_LIMIT {
            Err(RpcConversionError::ListTooLong { field })
        } else {
            Ok(length as u32)
        }),
{
    if length >= CAPNP_LIST_LIMIT {
        return Err(RpcConversionError::ListTooLong { field });
    }
    Ok(length as u32)
}

/// Validates the number of elements and of words of a list of structs.
pub fn validate_wire_inline_composite_list_length(
    length: usize,
    words_per_element: usize,
    field: &'static str,
) -> (result: Result<u32, RpcConversionError>)
    ensures
        result == (if length >= CAPNP_LIST_LIMIT || length * words_per_element
            >= CAPNP_LIST_LIMIT {
            Err(RpcConversionError::ListTooLong { field })
        } else {
            Ok(length as u32)
        }),
{
    let wire_length: u32 = validate_wire_list_length(length, field)?;
    match length.checked_mul(words_per_element) {
        Some(word_count) => {
            if word_count >= CAPNP_LIST_LIMIT {
                Err(RpcConversionError::ListTooLong { field })
            } else {
                Ok(wire_length)
            }
        },
        None => Err(RpcConversionError::ListTooLong { field }),
    }
}

/// What is wrong with a text field.
pub open spec fn text_fault(text: Text, field: &'static str) -> Option<RpcConversionError> {
    match text {
        Pointer::Unreadable(fault) => Some(RpcConversionError::Capnp(fault)),
        Pointer::Value(bytes) => if valid_utf8(bytes@) {
            None
        } else {
            Some(RpcConversionError::InvalidText { field })
        },
    }
}

/// What is wrong with a text field of bounded length.
pub open spec fn inbound_text_fault(text: Text, limit: int, field: &'static str) -> Option<
    RpcConversionError,
> {
    match text {
        Pointer::Unreadable(fault) => Some(RpcConversionError::Capnp(fault)),
        Pointer::Value(bytes) => if bytes@.len() > limit {
            Some(RpcConversionError::FieldTooLong { field })
        } else if valid_utf8(bytes@) {
            None
        } else {
            Some(RpcConversionError::InvalidText { field })
        },
    }
}

/// What is wrong with a data field of bounded length.
pub open spec fn inbound_data_fault(data: Data, limit: int, field: &'static str) -> Option<
    RpcConversionError,
> {
    match data {
        Pointer::Unreadable(fault) => Some(RpcConversionError::Capnp(fault)),
        Pointer::Value(bytes) => if bytes@.len() > limit {
            Some(RpcConversionError::FieldTooLong { field })
        } else {
            None
        },
    }
}

/// The characters of a readable text field.
pub open spec fn text_of(text: Text) -> Seq<char> {
    decode_utf8(text->Value_0@)
}

/// The bytes of a readable data field.
pub open spec fn data_of(data: Data) -> Seq<u8> {
    data->Value_0@
}

/// What keeps a text from being written.
pub open spec fn text_unfit(text: Seq<char>, field: &'static str) -> Option<RpcConversionError> {
    if encode_utf8(text).len() + 1 >= CAPNP_LIST_LIMIT {
        Some(RpcConversionError::FieldTooLong { field })
    } else {
        None
    }
}

/// What keeps a text of bounded length from being written.
pub open spec fn outbound_text_unfit(text: Seq<char>, limit: int, field: &'static str) -> Option<
    RpcConversionError,
> {
    if encode_utf8(text).len() > limit {
        Some(RpcConversionError::FieldTooLong { field })
    } else {
        text_unfit(text, field)
    }
}

/// What keeps bytes from being written.
pub open spec fn data_unfit(data: Seq<u8>, field: &'static str) -> Option<RpcConversionError> {
    if data.len() >= CAPNP_LIST_LIMIT {
        Some(RpcConversionError::FieldTooLong { field })
    } else {
        None
    }
}

/// What keeps bytes of bounded length from being written.
pub open spec fn outbound_data_unfit(data: Seq<u8>, limit: int, field: &'static str) -> Option<
    RpcConversionError,
> {
    if data.len() > limit {
        Some(RpcConversionError::FieldTooLong { field })
    } else {
        data_unfit(data, field)
    }
}

/// What keeps a list of pointers or numbers from being written.
pub open spec fn list_unfit(length: nat, field: &'static str) -> Option<RpcConversionError> {
    if length >= CAPNP_LIST_LIMIT {
        Some(RpcConversionError::ListTooLong { field })
    } else {
        None
    }
}

/// What keeps a list of structs from being written.
pub open spec fn struct_list_unfit(length: nat, words: int, field: &'static str) -> Option<
    RpcConversionError,
> {
    if length >= CAPNP_LIST_LIMIT || length * words >= CAPNP_LIST_LIMIT {
        Some(RpcConversionError::ListTooLong { field })
    } else {
        None
    }
}

/// A text field that holds a text.
pub open spec fn text_written(wire: Text, text: Seq<char>) -> bool {
    wire is Value && wire->Value_0@ == encode_utf8(text)
}

/// A data field that holds bytes.
pub open spec fn data_written(wire: Data, data: Seq<u8>) -> bool {
    wire is Value && wire->Value_0@ == data
}

pub(crate) proof fn lemma_text_round_trip(wire: Text, text: Seq<char>, field: &'static str)
    requires
        text_written(wire, text),
    ensures
        text_fault(wire, field) is None,
        text_of(wire) == text,
{
    vstd::utf8::encode_utf8_valid_utf8(text);
    vstd::utf8::encode_utf8_decode_utf8(text);
}

/// Every encoded text is read back by both text readers.
pub(crate) proof fn lemma_texts_round_trip()
    ensures
        forall|wire: Text, text: Seq<char>, field: &'static str|
            #![trigger text_written(wire, text), text_fault(wire, field)]
            text_written(wire, text) ==> text_fault(wire, field) is None,
        forall|wire: Text, text: Seq<char>, limit: int, field: &'static str|
            #![trigger text_written(wire, text), inbound_text_fault(wire, limit, field)]
            text_written(wire, text) && encode_utf8(text).len() <= limit ==> inbound_text_fault(
                wire,
                limit,
                field,
            ) is None,
        forall|wire: Text, text: Seq<char>| #[trigger]
            text_written(wire, text) ==> text_of(wire) == text,
{
    assert forall|wire: Text, text: Seq<char>, field: &'static str|
        #![trigger text_written(wire, text), text_fault(wire, field)]
        text_written(wire, text) implies text_fault(wire, field) is None by {
        lemma_text_round_trip(wire, text, field);
    }
    assert forall|wire: Text, text: Seq<char>, limit: int, field: &'static str|
        #![trigger text_written(wire, text), inbound_text_fault(wire, limit, field)]
        text_written(wire, text) && encode_utf8(text).len()
            <= limit implies inbound_text_fault(wire, limit, field) is None by {
        lemma_text_round_trip(wire, text, field);
    }
    assert forall|wire: Text, text: Seq<char>| #[trigger]
        text_written(wire, text) implies text_of(wire) == text by {
        lemma_text_round_trip(wire, text, "");
    }
}

pub(crate) fn checked_text(value: &str, field: &'static str) -> (result: Result<Text, RpcConversionError>)
    ensures
        match result {
            Ok(text) => text_unfit(value@, field) is None && text_written(text, value@),
            Err(error) => text_unfit(value@, field) == Some(error),
        },
{
    let bytes = value.as_bytes();
    validate_wire_text_length(bytes.len(), field)?;
    Ok(Pointer::Value(vstd::slice::slice_to_vec(bytes)))
}

pub(crate) fn checked_data(value: &Vec<u8>, field: &'static str) -> (result: Result<Data, RpcConversionError>)
    ensures
        match result {
            Ok(data) => data_unfit(value@, field) is None && data_written(data, value@),
            Err(error) => data_unfit(value@, field) == Some(error),
        },
{
    validate_wire_data_length(value.len(), field)?;
    Ok(Pointer::Value(vstd::slice::slice_to_vec(value.as_slice())))
}

pub(crate) fn bounded_text(value: &str, limit: usize, field: &'static str) -> (result: Result<
    Text,
    RpcConversionError,
>)
    ensures
        match result {
            Ok(text) => outbound_text_unfit(value@, limit as int, field) is None && text_written(
                text,
                value@,
            ),
            Err(error) => outbound_text_unfit(value@, limit as int, field) == Some(error),
        },
{
    validate_inbound_field_length(value.as_bytes().len(), limit, field)?;
    checked_text(value, field)
}

pub(crate) fn bounded_data(value: &Vec<u8>, limit: usize, field: &'static str) -> (result: Result<
    Data,
    RpcConversionError,
>)
    ensures
        match result {
            Ok(data) => outbound_data_unfit(value@, limit as int, field) is None && data_written(
                data,
                value@,
            ),
            Err(error) => outbound_data_unfit(value@, limit as int, field) == Some(error),
        },
{
    validate_inbound_field_length(value.len(), limit, field)?;
    checked_data(value, field)
}

/// Reads a text field.
pub fn read_text(text: &Text, field: &'static str) -> (result: Result<String, RpcConversionError>)
    ensures
        match result {
            Ok(value) => text_fault(*text, field) is None && value@ == text_of(*text),
            Err(error) => text_fault(*text, field) == Some(error),
        },
{
    match text {
        Pointer::Unreadable(fault) => Err(RpcConversionError::Capnp(fault.duplicate())),
        Pointer::Value(bytes) => {
            match text_from_utf8(vstd::slice::slice_to_vec(bytes.as_slice())) {
                Some(value) => Ok(value),
                None => Err(RpcConversionError::InvalidText { field }),
            }
        },
    }
}

/// Reads a text field of bounded length; the bound is checked before anything is copied.
pub fn read_inbound_text(text: &Text, limit: usize, field: &'static str) -> (result: Result<
    String,
    RpcConversionError,
>)
    ensures
        match result {
            Ok(value) => inbound_text_fault(*text, limit as int, field) is None && value@
                == text_of(*text),
            Err(error) => inbound_text_fault(*text, limit as int, field) == Some(error),
        },
{
    if let Pointer::Value(bytes) = text {
        validate_inbound_field_length(bytes.len(), limit, field)?;
    }
    read_text(text, field)
}

/// Reads a data field of bounded length; the bound is checked before anything is copied.
pub fn read_inbound_data(data: &Data, limit: usize, field: &'static str) -> (result: Result<
    Vec<u8>,
    RpcConversionError,
>)
    ensures
        match result {
            Ok(value) => inbound_data_fault(*data, limit as int, field) is None && value@
                == data_of(*data),
            Err(error) => inbound_data_fault(*data, limit as int, field) == Some(error),
        },
{
    match data {
        Pointer::Unreadable(fault) => Err(RpcConversionError::Capnp(fault.duplicate())),
        Pointer::Value(bytes) => {
            validate_inbound_field_length(bytes.len(), limit, field)?;
            Ok(vstd::slice::slice_to_vec(bytes.as_slice()))
        },
    }
}

/// What is wrong with a timestamp field.
pub open spec fn timestamp_fault(text: Text, field: &'static str) -> Option<RpcConversionError> {
    either(
        text_fault(text, field),
        match rfc3339_instant(text_of(text)) {
            Some((_, _, 0)) => None,
            _ => Some(RpcConversionError::InvalidTimestamp { field }),
        },
    )
}

/// A timestamp field that is read as an instant.
pub open spec fn timestamp_reads(text: Text, value: Timestamp) -> bool {
    rfc3339_instant(text_of(text)) == Some((value.seconds, value.nanoseconds, 0i32))
}

/// What keeps an instant from being written.
pub open spec fn timestamp_unfit(value: Timestamp, field: &'static str) -> Option<
    RpcConversionError,
> {
    match rfc3339_text(value.seconds, value.nanoseconds) {
        Some(text) => text_unfit(text, field),
        None => Some(RpcConversionError::InvalidTimestamp { field }),
    }
}

/// A timestamp field that holds an instant.
pub open spec fn timestamp_written(wire: Text, value: Timestamp) -> bool {
    &&& rfc3339_text(value.seconds, value.nanoseconds) is Some
    &&& rfc3339_text(value.seconds, value.nanoseconds)->0.len() > 0
    &&& text_written(wire, rfc3339_text(value.seconds, value.nanoseconds)->0)
    &&& timestamp_survives(value) ==> rfc3339_instant(
        rfc3339_text(value.seconds, value.nanoseconds)->0,
    ) == Some((value.seconds, value.nanoseconds, 0i32))
}

/// An instant that its text gives back: one of a year that four digits write.
pub open spec fn timestamp_survives(value: Timestamp) -> bool {
    has_four_digit_year(value.seconds, value.nanoseconds)
}

pub(crate) fn write_timestamp(value: Timestamp, field: &'static str) -> (result: Result<
    Text,
    RpcConversionError,
>)
    ensures
        match result {
            Ok(text) => timestamp_unfit(value, field) is None && timestamp_written(text, value),
            Err(error) => timestamp_unfit(value, field) == Some(error),
        },
{
    match format_rfc3339(value.seconds, value.nanoseconds) {
        Some(text) => checked_text(&text, field),
        None => Err(RpcConversionError::InvalidTimestamp { field }),
    }
}

pub(crate) fn read_timestamp(text: &Text, field: &'static str) -> (result: Result<
    Timestamp,
    RpcConversionError,
>)
    ensures
        match result {
            Ok(value) => timestamp_fault(*text, field) is None && timestamp_reads(*text, value),
            Err(error) => timestamp_fault(*text, field) == Some(error),
        },
{
    let value = read_text(text, field)?;
    match parse_rfc3339(&value) {
        Some((seconds, nanoseconds, offset)) => {
            if offset != 0 {
                Err(RpcConversionError::InvalidTimestamp { field })
            } else {
                Ok(Timestamp { seconds, nanoseconds })
            }
        },
        None => Err(RpcConversionError::InvalidTimestamp { field }),
    }
}

/// The first fault of a list of texts.
pub open spec fn texts_fault(texts: Seq<Text>, field: &'static str) -> Option<RpcConversionError>
    decreases texts.len(),
{
    if texts.len() == 0 {
        None
    } else {
        either(texts_fault(texts.drop_last(), field), text_fault(texts.last(), field))
    }
}

/// The first text of a list that cannot be written.
pub open spec fn texts_unfit(texts: Seq<Seq<char>>, field: &'static str) -> Option<
    RpcConversionError,
>
    decreases texts.len(),
{
    if texts.len() == 0 {
        None
    } else {
        either(texts_unfit(texts.drop_last(), field), text_unfit(texts.last(), field))
    }
}

/// The texts of a readable list.
pub open spec fn texts_of(texts: Seq<Text>) -> Seq<Seq<char>> {
    Seq::new(texts.len(), |i: int| text_of(texts[i]))
}

/// A list that holds texts.
pub open spec fn texts_written(wire: Seq<Text>, texts: Seq<Seq<char>>) -> bool {
    &&& wire.len() == texts.len()
    &&& forall|i: int| 0 <= i < wire.len() ==> text_written(#[trigger] wire[i], texts[i])
}

pub(crate) proof fn lemma_text_list_round_trip(wire: Seq<Text>, texts: Seq<Seq<char>>, field: &'static str)
    requires
        texts_written(wire, texts),
    ensures
        texts_fault(wire, field) is None,
        texts_of(wire) == texts,
    decreases wire.len(),
{
    assert forall|i: int| 0 <= i < wire.len() implies text_of(#[trigger] wire[i]) == texts[i] by {
        lemma_text_round_trip(wire[i], texts[i], field);
    }
    assert(texts_of(wire) =~= texts);
    if wire.len() > 0 {
        assert forall|i: int| 0 <= i < wire.len() - 1 implies text_written(
            #[trigger] wire.drop_last()[i],
            texts.drop_last()[i],
        ) by {
            assert(text_written(wire[i], texts[i]));
        }
        lemma_text_list_round_trip(wire.drop_last(), texts.drop_last(), field);
        assert(text_written(wire[wire.len() - 1], texts[wire.len() - 1]));
        lemma_text_round_trip(wire.last(), texts.last(), field);
    }
}

pub(crate) fn read_texts(texts: &Vec<Text>, field: &'static str) -> (result: Result<
    Vec<String>,
    RpcConversionError,
>)
    ensures
        match result {
            Ok(values) => texts_fault(texts@, field) is None && values.deep_view() == texts_of(
                texts@,
            ),
            Err(error) => texts_fault(texts@, field) == Some(error),
        },
{
    let mut values: Vec<String> = Vec::new();
    let mut index: usize = 0;
    assert(texts@.subrange(0, texts@.len() as int) =~= texts@);
    assert(values.deep_view() =~= texts_of(texts@.subrange(0, 0)));
    while index < texts.len()
        invariant
            index <= texts@.len(),
            texts_fault(texts@.subrange(0, index as int), field) is None,
            values.deep_view() == texts_of(texts@.subrange(0, index as int)),
        decreases texts@.len() - index,
    {
        let ghost seen = texts@.subrange(0, index + 1);
        proof {
            assert(seen.drop_last() =~= texts@.subrange(0, index as int));
            assert(seen.last() == texts@[index as int]);
        }
        match read_text(&texts[index], field) {
            Ok(value) => {
                let ghost before = values;
                values.push(value);
                assert(values.deep_view() =~= before.deep_view().push(value@));
                assert(texts_of(seen) =~= texts_of(seen.drop_last()).push(text_of(seen.last())));
            },
            Err(error) => {
                proof {
                    lemma_texts_fault_is_kept(texts@, index + 1, field);
                }
                return Err(error);
            },
        }
        index += 1;
    }
    assert(texts@.subrange(0, index as int) =~= texts@);
    Ok(values)
}

proof fn lemma_texts_fault_is_kept(texts: Seq<Text>, count: int, field: &'static str)
    requires
        0 <= count <= texts.len(),
        texts_fault(texts.subrange(0, count), field) is Some,
    ensures
        texts_fault(texts, field) == texts_fault(texts.subrange(0, count), field),
    decreases texts.len(),
{
    if count == texts.len() {
        assert(texts.subrange(0, count) =~= texts);
    } else {
        assert(texts.drop_last().subrange(0, count) =~= texts.subrange(0, count));
        lemma_texts_fault_is_kept(texts.drop_last(), count, field);
    }
}

pub(crate) fn write_texts(texts: &Vec<String>, field: &'static str) -> (result: Result<
    Vec<Text>,
    RpcConversionError,
>)
    ensures
        match result {
            Ok(wire) => either(
                list_unfit(texts@.len(), field),
                texts_unfit(texts.deep_view(), field),
            ) is None && texts_written(wire@, texts.deep_view()),
            Err(error) => either(
                list_unfit(texts@.len(), field),
                texts_unfit(texts.deep_view(), field),
            ) == Some(error),
        },
{
    validate_wire_list_length(texts.len(), field)?;
    let mut wire: Vec<Text> = Vec::new();
    let mut index: usize = 0;
    let ghost named = texts.deep_view();
    while index < texts.len()
        invariant
            index <= texts@.len(),
            named == texts.deep_view(),
            texts@.len() < CAPNP_LIST_LIMIT,
            texts_unfit(named.subrange(0, index as int), field) is None,
            texts_written(wire@, named.subrange(0, index as int)),
        decreases texts@.len() - index,
    {
        let ghost seen = named.subrange(0, index + 1);
        proof {
            assert(seen.drop_last() =~= named.subrange(0, index as int));
            assert(seen.last() == texts@[index as int]@);
        }
        match checked_text(&texts[index], field) {
            Ok(text) => {
                let ghost before = wire@;
                wire.push(text);
                proof {
                    assert forall|i: int| 0 <= i < wire@.len() implies text_written(
                        #[trigger] wire@[i],
                        seen[i],
                    ) by {
                        if i < before.len() {
                            assert(wire@[i] == before[i]);
                            assert(text_written(before[i], named.subrange(0, index as int)[i]));
                        }
                    }
                }
            },
            Err(error) => {
                proof {
                    lemma_texts_unfit_is_kept(named, index + 1, field);
                }
                return Err(error);
            },
        }
        index += 1;
    }
    assert(named.subrange(0, index as int) =~= named);
    Ok(wire)
}

proof fn lemma_texts_unfit_is_kept(texts: Seq<Seq<char>>, count: int, field: &'static str)
    requires
        0 <= count <= texts.len(),
        texts_unfit(texts.subrange(0, count), field) is Some,
    ensures
        texts_unfit(texts, field) == texts_unfit(texts.subrange(0, count), field),
    decreases texts.len(),
{
    if count == texts.len() {
        assert(texts.subrange(0, count) =~= texts);
    } else {
        assert(texts.drop_last().subrange(0, count) =~= texts.subrange(0, count));
        lemma_texts_unfit_is_kept(texts.drop_last(), count, field);
    }
}

/// The first fault of a list.
pub open spec fn list_fault<T: Conversion>(wire: Seq<T::Wire>) -> Option<RpcConversionError>
    decreases wire.len(),
{
    if wire.len() == 0 {
        None
    } else {
        either(list_fault::<T>(wire.drop_last()), T::fault(wire.last()))
    }
}

/// A list that is read as values.
pub open spec fn list_reads<T: Conversion>(wire: Seq<T::Wire>, values: Seq<T>) -> bool {
    &&& wire.len() == values.len()
    &&& forall|i: int| 0 <= i < wire.len() ==> T::reads(#[trigger] wire[i], values[i])
}

/// The first value of a list that cannot be written.
pub open spec fn items_unfit<T: Conversion>(values: Seq<T>) -> Option<RpcConversionError>
    decreases values.len(),
{
    if values.len() == 0 {
        None
    } else {
        either(items_unfit::<T>(values.drop_last()), T::unfit(values.last()))
    }
}

/// A list that holds values.
pub open spec fn list_writes<T: Conversion>(values: Seq<T>, wire: Seq<T::Wire>) -> bool {
    &&& wire.len() == values.len()
    &&& forall|i: int| 0 <= i < wire.len() ==> T::writes(values[i], #[trigger] wire[i])
}

/// A list of values that reading gives back.
pub open spec fn list_survives<T: Conversion>(values: Seq<T>) -> bool {
    forall|i: int| 0 <= i < values.len() ==> T::survives(#[trigger] values[i])
}

pub(crate) proof fn lemma_list_round_trip<T: Conversion>(values: Seq<T>, wire: Seq<T::Wire>)
    requires
        list_survives::<T>(values),
        items_unfit::<T>(values) is None,
        list_writes::<T>(values, wire),
    ensures
        list_fault::<T>(wire) is None,
        list_reads::<T>(wire, values),
    decreases wire.len(),
{
    assert forall|i: int| 0 <= i < wire.len() implies T::reads(#[trigger] wire[i], values[i]) by {
        assert(T::survives(values[i]));
        lemma_fitting_items_fit::<T>(values, i);
        T::round_trip(values[i], wire[i]);
    }
    if wire.len() > 0 {
        assert forall|i: int| 0 <= i < wire.len() - 1 implies T::writes(
            values.drop_last()[i],
            #[trigger] wire.drop_last()[i],
        ) by {
            assert(T::writes(values[i], wire[i]));
        }
        assert forall|i: int| 0 <= i < values.len() - 1 implies T::survives(
            #[trigger] values.drop_last()[i],
        ) by {
            assert(T::survives(values[i]));
        }
        lemma_list_round_trip::<T>(values.drop_last(), wire.drop_last());
        assert(T::survives(values[values.len() - 1]));
        assert(T::writes(values[wire.len() - 1], wire[wire.len() - 1]));
        T::round_trip(values.last(), wire.last());
    }
}

proof fn lemma_fitting_items_fit<T: Conversion>(values: Seq<T>, index: int)
    requires
        0 <= index < values.len(),
        items_unfit::<T>(values) is None,
    ensures
        T::unfit(values[index]) is None,
    decreases values.len(),
{
    if index < values.len() - 1 {
        lemma_fitting_items_fit::<T>(values.drop_last(), index);
    }
}

proof fn lemma_list_fault_is_kept<T: Conversion>(wire: Seq<T::Wire>, count: int)
    requires
        0 <= count <= wire.len(),
        list_fault::<T>(wire.subrange(0, count)) is Some,
    ensures
        list_fault::<T>(wire) == list_fault::<T>(wire.subrange(0, count)),
    decreases wire.len(),
{
    if count == wire.len() {
        assert(wire.subrange(0, count) =~= wire);
    } else {
        assert(wire.drop_last().subrange(0, count) =~= wire.subrange(0, count));
        lemma_list_fault_is_kept::<T>(wire.drop_last(), count);
    }
}

proof fn lemma_items_unfit_is_kept<T: Conversion>(values: Seq<T>, count: int)
    requires
        0 <= count <= values.len(),
        items_unfit::<T>(values.subrange(0, count)) is Some,
    ensures
        items_unfit::<T>(values) == items_unfit::<T>(values.subrange(0, count)),
    decreases values.len(),
{
    if count == values.len() {
        assert(values.subrange(0, count) =~= values);
    } else {
        assert(values.drop_last().subrange(0, count) =~= values.subrange(0, count));
        lemma_items_unfit_is_kept::<T>(values.drop_last(), count);
    }
}

pub(crate) fn read_list<T: Conversion>(wire: &Vec<T::Wire>) -> (result: Result<Vec<T>, RpcConversionError>)
    ensures
        match result {
            Ok(values) => list_fault::<T>(wire@) is None && list_reads::<T>(wire@, values@),
            Err(error) => list_fault::<T>(wire@) == Some(error),
        },
{
    let mut values: Vec<T> = Vec::new();
    let mut index: usize = 0;
    while index < wire.len()
        invariant
            index <= wire@.len(),
            list_fault::<T>(wire@.subrange(0, index as int)) is None,
            list_reads::<T>(wire@.subrange(0, index as int), values@),
        decreases wire@.len() - index,
    {
        let ghost seen = wire@.subrange(0, index + 1);
        proof {
            assert(seen.drop_last() =~= wire@.subrange(0, index as int));
            assert(seen.last() == wire@[index as int]);
        }
        match T::from_wire(&wire[index]) {
            Ok(value) => {
                let ghost before = values@;
                values.push(value);
                proof {
                    assert forall|i: int| 0 <= i < seen.len() implies T::reads(
                        #[trigger] seen[i],
                        values@[i],
                    ) by {
                        if i < before.len() {
                            assert(T::reads(wire@.subrange(0, index as int)[i], before[i]));
                        }
                    }
                }
            },
            Err(error) => {
                proof {
                    lemma_list_fault_is_kept::<T>(wire@, index + 1);
                }
                return Err(error);
            },
        }
        index += 1;
    }
    assert(wire@.subrange(0, index as int) =~= wire@);
    Ok(values)
}

pub(crate) fn write_list<T: Conversion>(values: &Vec<T>) -> (result: Result<Vec<T::Wire>, RpcConversionError>)
    ensures
        match result {
            Ok(wire) => items_unfit::<T>(values@) is None && list_writes::<T>(values@, wire@),
            Err(error) => items_unfit::<T>(values@) == Some(error),
        },
{
    let mut wire: Vec<T::Wire> = Vec::new();
    let mut index: usize = 0;
    while index < values.len()
        invariant
            index <= values@.len(),
            items_unfit::<T>(values@.subrange(0, index as int)) is None,
            list_writes::<T>(values@.subrange(0, index as int), wire@),
        decreases values@.len() - index,
    {
        let ghost seen = values@.subrange(0, index + 1);
        proof {
            assert(seen.drop_last() =~= values@.subrange(0, index as int));
            assert(seen.last() == values@[index as int]);
        }
        match T::to_wire(&values[index]) {
            Ok(item) => {
                let ghost before = wire@;
                wire.push(item);
                proof {
                    assert forall|i: int| 0 <= i < wire@.len() implies T::writes(
                        seen[i],
                        #[trigger] wire@[i],
                    ) by {
                        if i < before.len() {
                            assert(T::writes(values@.subrange(0, index as int)[i], before[i]));
                        }
                    }
                }
            },
            Err(error) => {
                proof {
                    lemma_items_unfit_is_kept::<T>(values@, index + 1);
                }
                return Err(error);
            },
        }
        index += 1;
    }
    assert(values@.subrange(0, index as int) =~= values@);
    Ok(wire)
}

/// What is wrong with a pointer to a value.
pub open spec fn pointer_fault<T: Conversion>(pointer: Pointer<T::Wire>) -> Option<
    RpcConversionError,
> {
    match pointer {
        Pointer::Unreadable(fault) => Some(RpcConversionError::Capnp(fault)),
        Pointer::Value(wire) => T::fault(wire),
    }
}

/// A pointer that is read as a value.
pub open spec fn pointer_reads<T: Conversion>(pointer: Pointer<T::Wire>, value: T) -> bool {
    pointer is Value && T::reads(pointer->Value_0, value)
}

/// A pointer to a written value.
pub open spec fn pointer_writes<T: Conversion>(value: T, pointer: Pointer<T::Wire>) -> bool {
    pointer is Value && T::writes(value, pointer->Value_0)
}

/// What is wrong with a pointer to a list.
pub open spec fn list_pointer_fault<T: Conversion>(pointer: Pointer<Vec<T::Wire>>) -> Option<
    RpcConversionError,
> {
    match pointer {
        Pointer::Unreadable(fault) => Some(RpcConversionError::Capnp(fault)),
        Pointer::Value(wire) => list_fault::<T>(wire@),
    }
}

/// A pointer to a list that is read as values.
pub open spec fn list_pointer_reads<T: Conversion>(
    pointer: Pointer<Vec<T::Wire>>,
    values: Seq<T>,
) -> bool {
    pointer is Value && list_reads::<T>(pointer->Value_0@, values)
}

/// A pointer to a list of written values.
pub open spec fn list_pointer_writes<T: Conversion>(
    values: Seq<T>,
    pointer: Pointer<Vec<T::Wire>>,
) -> bool {
    pointer is Value && list_writes::<T>(values, pointer->Value_0@)
}

/// What is wrong with a pointer to a list of texts.
pub open spec fn texts_pointer_fault(pointer: Pointer<Vec<Text>>, field: &'static str) -> Option<
    RpcConversionError,
> {
    match pointer {
        Pointer::Unreadable(fault) => Some(RpcConversionError::Capnp(fault)),
        Pointer::Value(wire) => texts_fault(wire@, field),
    }
}

pub(crate) fn read_pointer<T: Conversion>(pointer: &Pointer<T::Wire>) -> (result: Result<
    T,
    RpcConversionError,
>)
    ensures
        match result {
            Ok(value) => pointer_fault::<T>(*pointer) is None && pointer_reads::<T>(
                *pointer,
                value,
            ),
            Err(error) => pointer_fault::<T>(*pointer) == Some(error),
        },
{
    match pointer {
        Pointer::Unreadable(fault) => Err(RpcConversionError::Capnp(fault.duplicate())),
        Pointer::Value(wire) => T::from_wire(wire),
    }
}

pub(crate) fn write_pointer<T: Conversion>(value: &T) -> (result: Result<
    Pointer<T::Wire>,
    RpcConversionError,
>)
    ensures
        match result {
            Ok(pointer) => T::unfit(*value) is None && pointer_writes::<T>(*value, pointer),
            Err(error) => T::unfit(*value) == Some(error),
        },
{
    Ok(Pointer::Value(T::to_wire(value)?))
}

pub(crate) fn read_list_pointer<T: Conversion>(pointer: &Pointer<Vec<T::Wire>>) -> (result: Result<
    Vec<T>,
    RpcConversionError,
>)
    ensures
        match result {
            Ok(values) => list_pointer_fault::<T>(*pointer) is None && list_pointer_reads::<T>(
                *pointer,
                values@,
            ),
            Err(error) => list_pointer_fault::<T>(*pointer) == Some(error),
        },
{
    match pointer {
        Pointer::Unreadable(fault) => Err(RpcConversionError::Capnp(fault.duplicate())),
        Pointer::Value(wire) => read_list::<T>(wire),
    }
}

pub(crate) fn read_texts_pointer(pointer: &Pointer<Vec<Text>>, field: &'static str) -> (result:
    Result<Vec<String>, RpcConversionError>)
    ensures
        match result {
            Ok(values) => texts_pointer_fault(*pointer, field) is None && pointer is Value
                && values.deep_view() == texts_of(pointer->Value_0@),
            Err(error) => texts_pointer_fault(*pointer, field) == Some(error),
        },
{
    match pointer {
        Pointer::Unreadable(fault) => Err(RpcConversionError::Capnp(fault.duplicate())),
        Pointer::Value(wire) => read_texts(wire, field),
    }
}

/// What keeps a list of structs of some size from being written.
pub open spec fn struct_items_unfit<T: Conversion>(
    values: Seq<T>,
    words: int,
    field: &'static str,
) -> Option<RpcConversionError> {
    either(struct_list_unfit(values.len(), words, field), items_unfit::<T>(values))
}

pub(crate) fn write_struct_list<T: Conversion>(
    values: &Vec<T>,
    words: usize,
    field: &'static str,
) -> (result: Result<Pointer<Vec<T::Wire>>, RpcConversionError>)
    ensures
        match result {
            Ok(pointer) => struct_items_unfit::<T>(values@, words as int, field) is None
                && list_pointer_writes::<T>(values@, pointer),
            Err(error) => struct_items_unfit::<T>(values@, words as int, field) == Some(error),
        },
{
    validate_wire_inline_composite_list_length(values.len(), words, field)?;
    Ok(Pointer::Value(write_list::<T>(values)?))
}

pub(crate) proof fn lemma_pointer_round_trip<T: Conversion>(value: T, pointer: Pointer<T::Wire>)
    requires
        T::survives(value),
        T::unfit(value) is None,
        pointer_writes::<T>(value, pointer),
    ensures
        pointer_fault::<T>(pointer) is None,
        pointer_reads::<T>(pointer, value),
{
    T::round_trip(value, pointer->Value_0);
}

pub(crate) proof fn lemma_list_pointer_round_trip<T: Conversion>(
    values: Seq<T>,
    pointer: Pointer<Vec<T::Wire>>,
)
    requires
        list_survives::<T>(values),
        items_unfit::<T>(values) is None,
        list_pointer_writes::<T>(values, pointer),
    ensures
        list_pointer_fault::<T>(pointer) is None,
        list_pointer_reads::<T>(pointer, values),
{
    lemma_list_round_trip::<T>(values, pointer->Value_0@);
}

/// A field may be as long as its limit and no longer, and what a message cannot hold is refused
/// before it is written.
pub proof fn lemma_lengths_are_kept_within_their_limits()
    ensures
        forall|length: usize, limit: usize, field: &'static str, result: Result<
            (),
            RpcConversionError,
        >| #[trigger]
            call_ensures(validate_inbound_field_length, (length, limit, field), result) ==> {
                &&& result is Ok <==> length <= limit
                &&& result is Err ==> result->Err_0 == (RpcConversionError::FieldTooLong { field })
            },
        forall|length: usize, field: &'static str, result: Result<(), RpcConversionError>| #[trigger]
            call_ensures(validate_wire_text_length, (length, field), result) ==> (result is Ok
                <==> length + 1 < 0x2000_0000),
        forall|length: usize, field: &'static str, result: Result<(), RpcConversionError>| #[trigger]
            call_ensures(validate_wire_data_length, (length, field), result) ==> (result is Ok
                <==> length < 0x2000_0000),
        forall|length: usize, field: &'static str, result: Result<u32, RpcConversionError>| #[trigger]
            call_ensures(validate_wire_list_length, (length, field), result) ==> {
                &&& result is Ok <==> length < 0x2000_0000
                &&& result is Ok ==> result->Ok_0 == length
            },
        forall|length: usize, words: usize, field: &'static str, result: Result<
            u32,
            RpcConversionError,
        >| #[trigger]
            call_ensures(
                validate_wire_inline_composite_list_length,
                (length, words, field),
                result,
            ) ==> {
                &&& result is Ok <==> length < 0x2000_0000 && length * words < 0x2000_0000
                &&& result is Ok ==> result->Ok_0 == length
            },
        MAX_RPC_CWD_BYTES == 16 * 1024,
        MAX_RPC_PROMPT_BYTES == 256 * 1024,
        MAX_RPC_IDENTIFIER_BYTES == 4 * 1024,
{
}

/// Text and data are read as they were sent, or not at all: over the limit, not UTF-8, or not
/// readable.
pub proof fn lemma_fields_are_read_as_sent()
    ensures
        forall|text: &Text, limit: usize, field: &'static str, result: Result<
            String,
            RpcConversionError,
        >| #[trigger]
            call_ensures(read_inbound_text, (text, limit, field), result) ==> {
                &&& result is Ok <==> text is Value && text->Value_0@.len() <= limit && valid_utf8(
                    text->Value_0@,
                )
                &&& result is Ok ==> result->Ok_0@ == decode_utf8(text->Value_0@)
                &&& text is Value && text->Value_0@.len() > limit ==> result->Err_0 == (
                RpcConversionError::FieldTooLong { field })
            },
        forall|data: &Data, limit: usize, field: &'static str, result: Result<
            Vec<u8>,
            RpcConversionError,
        >| #[trigger]
            call_ensures(read_inbound_data, (data, limit, field), result) ==> {
                &&& result is Ok <==> data is Value && data->Value_0@.len() <= limit
                &&& result is Ok ==> result->Ok_0@ == data->Value_0@
            },
        forall|text: &Text, field: &'static str, result: Result<String, RpcConversionError>| #[trigger]
            call_ensures(read_text, (text, field), result) ==> {
                &&& result is Ok <==> text is Value && valid_utf8(text->Value_0@)
                &&& result is Ok ==> result->Ok_0@ == decode_utf8(text->Value_0@)
            },
{
}

} // verus!
