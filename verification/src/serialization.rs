//! How a resolved value crosses from the server to the client: as a text
//! that one side writes and the other reads back.
//!
//! A serializer is chosen by type. For each value type that it supports,
//! [`SerializableData`] says what text the value is written as and which
//! values a text is read as. What is written is read back as the same
//! value: the contracts of [`SerializableData::ser`] and
//! [`SerializableData::de`] ask this of every value type, and
//! [`round_trip`] shows it for all of them at once.

use crate::text::same_text;
use vstd::prelude::*;

verus! {

/// A way of writing values as text.
pub trait Serializer {

}

/// The plain serializer: a value is its own text where it is a text, and
/// its usual written form otherwise.
pub struct Str;

/// The serializer of JSON text. This library supplies no value type for
/// it: it is a name for those who do.
pub struct SerdeJson;

/// The serializer of JSON text that needs no derive. A name, as
/// [`SerdeJson`] is.
pub struct Miniserde;

/// The serializer that goes through an intermediate value. A name, as
/// [`SerdeJson`] is.
pub struct SerdeLite;

/// The serializer of archived bytes, written out as text. A name, as
/// [`SerdeJson`] is.
pub struct Rkyv;

impl Serializer for Str {

}

impl Serializer for SerdeJson {

}

impl Serializer for Miniserde {

}

impl Serializer for SerdeLite {

}

impl Serializer for Rkyv {

}

/// A value that the serializer `Ser` can write as text and read back.
///
/// A type that does not say what it is written as leaves that unknown to
/// every contract.
pub trait SerializableData<Ser: Serializer>: Sized {
    /// Why a value could not be written.
    type SerErr;

    /// Why a text could not be read.
    type DeErr;

    /// The text that this value is written as, if it can be written.
    open spec fn encoded(&self) -> Option<Seq<char>> {
        arbitrary()
    }

    /// Whether `data` is read as `value`.
    open spec fn reads(data: Seq<char>, value: &Self) -> bool {
        arbitrary()
    }

    /// Whether `other` is the same value as this one.
    open spec fn same(&self, other: &Self) -> bool {
        arbitrary()
    }

    /// Writes this value as text. The text is one that is read as this
    /// value.
    fn ser(&self) -> (written: Result<String, Self::SerErr>)
        ensures
            match written {
                Ok(text) => self.encoded() == Some(text@) && Self::reads(text@, self),
                Err(_) => self.encoded() is None,
            },
    ;

    /// Reads a value from text. A text is read as one value only: every
    /// value that it is read as is the same as the one returned.
    fn de(data: &str) -> (read: Result<Self, Self::DeErr>)
        ensures
            match read {
                Ok(value) => Self::reads(data@, &value) && (forall|other: Self| #[trigger]
                    Self::reads(data@, &other) ==> value.same(&other)),
                Err(_) => forall|value: Self| !#[trigger] Self::reads(data@, &value),
            },
    ;
}

/// No value is what `data` is read as.
pub open spec fn unreadable<T: SerializableData<Ser>, Ser: Serializer>(data: Seq<char>) -> bool {
    forall|value: T| !#[trigger] T::reads(data, &value)
}

/// Every value that `data` is read as is the same as `value`.
pub open spec fn unambiguous<T: SerializableData<Ser>, Ser: Serializer>(
    data: Seq<char>,
    value: &T,
) -> bool {
    forall|other: T| #[trigger] T::reads(data, &other) ==> value.same(&other)
}

/// Writes a value and reads back what was written: the value again, for
/// every value that can be written, of every type and with every
/// serializer.
pub fn round_trip<T: SerializableData<Ser>, Ser: Serializer>(value: &T) -> (back: Option<T>)
    ensures
        match value.encoded() {
            Some(text) => back matches Some(read) && T::reads(text, &read) && read.same(value),
            None => back is None,
        },
{
    match value.ser() {
        Ok(text) => match T::de(text.as_str()) {
            Ok(read) => Some(read),
            Err(_) => None,
        },
        Err(_) => None,
    }
}

/// A text that is not the written form of any value of the type asked
/// for.
#[derive(Clone, Copy, Debug, PartialEq, Eq, Structural)]
pub struct Unreadable;

/// A value that has no written form. No value of this library is one.
#[derive(Clone, Copy, Debug, PartialEq, Eq, Structural)]
pub struct Unwritable;

impl SerializableData<Str> for String {
    type SerErr = Unwritable;

    type DeErr = Unreadable;

    open spec fn encoded(&self) -> Option<Seq<char>> {
        Some(self@)
    }

    open spec fn reads(data: Seq<char>, value: &String) -> bool {
        value@ == data
    }

    open spec fn same(&self, other: &String) -> bool {
        self@ == other@
    }

    fn ser(&self) -> (written: Result<String, Unwritable>) {
        Ok(self.clone())
    }

    fn de(data: &str) -> (read: Result<String, Unreadable>) {
        Ok(data.to_owned())
    }
}

/// The plain serializer reads back the string that it wrote.
pub proof fn lemma_string_round_trip(value: String)
    ensures
        value.encoded() matches Some(text) && String::reads(text, &value),
{
}

impl SerializableData<Str> for bool {
    type SerErr = Unwritable;

    type DeErr = Unreadable;

    open spec fn encoded(&self) -> Option<Seq<char>> {
        Some(
            if *self {
                "true"@
            } else {
                "false"@
            },
        )
    }

    open spec fn reads(data: Seq<char>, value: &bool) -> bool {
        data == (if *value {
            "true"@
        } else {
            "false"@
        })
    }

    open spec fn same(&self, other: &bool) -> bool {
        *self == *other
    }

    fn ser(&self) -> (written: Result<String, Unwritable>) {
        if *self {
            Ok("true".to_owned())
        } else {
            Ok("false".to_owned())
        }
    }

    fn de(data: &str) -> (read: Result<bool, Unreadable>) {
        proof {
            lemma_truth_texts();
        }
        if same_text(data, "true") {
            Ok(true)
        } else if same_text(data, "false") {
            Ok(false)
        } else {
            Err(Unreadable)
        }
    }
}

/// The two written truth values differ.
pub proof fn lemma_truth_texts()
    ensures
        "true"@ != "false"@,
{
    reveal_strlit("true");
    reveal_strlit("false");
    assert("true"@.len() == 4);
}

/// The plain serializer reads back the truth value that it wrote, and
/// reads it as no other.
pub proof fn lemma_bool_round_trip(value: bool)
    ensures
        value.encoded() matches Some(text) && bool::reads(text, &value) && !bool::reads(
            text,
            &!value,
        ),
{
    lemma_truth_texts();
}

/// The decimal digit that stands for a number below ten.
pub open spec fn digit(d: nat) -> char {
    if d == 0 {
        '0'
    } else if d == 1 {
        '1'
    } else if d == 2 {
        '2'
    } else if d == 3 {
        '3'
    } else if d == 4 {
        '4'
    } else if d == 5 {
        '5'
    } else if d == 6 {
        '6'
    } else if d == 7 {
        '7'
    } else if d == 8 {
        '8'
    } else {
        '9'
    }
}

/// The number that a decimal digit stands for.
pub open spec fn digit_value(c: char) -> Option<nat> {
    if c == '0' {
        Some(0)
    } else if c == '1' {
        Some(1)
    } else if c == '2' {
        Some(2)
    } else if c == '3' {
        Some(3)
    } else if c == '4' {
        Some(4)
    } else if c == '5' {
        Some(5)
    } else if c == '6' {
        Some(6)
    } else if c == '7' {
        Some(7)
    } else if c == '8' {
        Some(8)
    } else if c == '9' {
        Some(9)
    } else {
        None
    }
}

/// A number in decimal digits, without leading zeros.
pub open spec fn decimal(n: nat) -> Seq<char>
    decreases n,
{
    if n < 10 {
        seq![digit(n)]
    } else {
        decimal(n / 10).push(digit(n % 10))
    }
}

/// Whether a text is a number in decimal digits without leading zeros.
pub open spec fn is_decimal(text: Seq<char>) -> bool {
    &&& text.len() > 0
    &&& forall|i: int| 0 <= i < text.len() ==> digit_value(#[trigger] text[i]) is Some
    &&& text.len() > 1 ==> text[0] != '0'
}

/// The number that a text of decimal digits stands for.
pub open spec fn decimal_value(text: Seq<char>) -> nat
    decreases text.len(),
{
    if text.len() == 0 {
        0
    } else {
        decimal_value(text.drop_last()) * 10 + digit_value(text.last()).unwrap()
    }
}

/// The digits of a number are a decimal text that stands for the number.
pub proof fn lemma_decimal(n: nat)
    ensures
        is_decimal(decimal(n)),
        decimal_value(decimal(n)) == n,
        n > 0 ==> decimal(n)[0] != '0',
    decreases n,
{
    if n < 10 {
        let text = decimal(n);
        assert(decimal_value(text.drop_last()) == 0);
    } else {
        lemma_decimal(n / 10);
        let front = decimal(n / 10);
        let text = front.push(digit(n % 10));
        assert(text.drop_last() =~= front);
    }
}

/// A decimal text that does not start with a zero stands for a number
/// that is not zero.
pub proof fn lemma_decimal_positive(text: Seq<char>)
    requires
        text.len() > 0,
        forall|i: int| 0 <= i < text.len() ==> digit_value(#[trigger] text[i]) is Some,
        text[0] != '0',
    ensures
        decimal_value(text) > 0,
    decreases text.len(),
{
    if text.len() == 1 {
    } else {
        let front = text.drop_last();
        lemma_decimal_positive(front);
    }
}

/// A decimal text is the digits of the number that it stands for.
pub proof fn lemma_decimal_of_value(text: Seq<char>)
    requires
        is_decimal(text),
    ensures
        decimal(decimal_value(text)) == text,
    decreases text.len(),
{
    let front = text.drop_last();
    if text.len() == 1 {
        assert(decimal_value(front) == 0);
    } else {
        lemma_decimal_positive(front);
        lemma_decimal_of_value(front);
    }
}

/// A text stands for no less than any of its beginnings.
pub proof fn lemma_decimal_prefix(text: Seq<char>, k: int)
    requires
        0 <= k <= text.len(),
    ensures
        decimal_value(text.take(k)) <= decimal_value(text),
    decreases text.len() - k,
{
    if k == text.len() {
        assert(text.take(k) =~= text);
    } else {
        assert(text.drop_last().take(k) =~= text.take(k));
        lemma_decimal_prefix(text.drop_last(), k);
    }
}

/// The text of one decimal digit.
fn digit_str(d: u64) -> (text: &'static str)
    requires
        d < 10,
    ensures
        text@ == seq![digit(d as nat)],
{
    let text = if d == 0 {
        "0"
    } else if d == 1 {
        "1"
    } else if d == 2 {
        "2"
    } else if d == 3 {
        "3"
    } else if d == 4 {
        "4"
    } else if d == 5 {
        "5"
    } else if d == 6 {
        "6"
    } else if d == 7 {
        "7"
    } else if d == 8 {
        "8"
    } else {
        "9"
    };
    proof {
        reveal_strlit("0");
        reveal_strlit("1");
        reveal_strlit("2");
        reveal_strlit("3");
        reveal_strlit("4");
        reveal_strlit("5");
        reveal_strlit("6");
        reveal_strlit("7");
        reveal_strlit("8");
        reveal_strlit("9");
    }
    text
}

/// Appends a number in decimal digits to `buf`.
pub fn write_decimal(n: u64, buf: &mut String)
    ensures
        final(buf)@ == old(buf)@ + decimal(n as nat),
    decreases n,
{
    if n >= 10 {
        write_decimal(n / 10, buf);
    }
    buf.append(digit_str(n % 10));
}

/// The number that a decimal digit stands for, if the character is one.
fn digit_of(c: char) -> (d: Option<u64>)
    ensures
        match d {
            Some(d) => digit_value(c) == Some(d as nat) && d < 10,
            None => digit_value(c) is None,
        },
{
    if c == '0' {
        Some(0)
    } else if c == '1' {
        Some(1)
    } else if c == '2' {
        Some(2)
    } else if c == '3' {
        Some(3)
    } else if c == '4' {
        Some(4)
    } else if c == '5' {
        Some(5)
    } else if c == '6' {
        Some(6)
    } else if c == '7' {
        Some(7)
    } else if c == '8' {
        Some(8)
    } else if c == '9' {
        Some(9)
    } else {
        None
    }
}

/// Reads a number in decimal digits, without leading zeros, that a `u64`
/// can hold.
pub fn read_decimal(data: &str) -> (read: Option<u64>)
    ensures
        match read {
            Some(n) => data@ == decimal(n as nat),
            None => forall|n: u64| data@ != decimal(n as nat),
        },
{
    let len = data.unicode_len();
    if len == 0 {
        return None;
    }
    let mut value: u64 = 0;
    let mut i: usize = 0;
    while i < len
        invariant
            i <= len,
            len == data@.len(),
            len > 0,
            value == decimal_value(data@.take(i as int)),
            forall|j: int| 0 <= j < i ==> digit_value(#[trigger] data@[j]) is Some,
            i > 0 && len > 1 ==> data@[0] != '0',
        decreases len - i,
    {
        let ghost shorter = data@.take(i as int);
        let ghost longer = data@.take(i + 1);
        proof {
            assert(longer.drop_last() =~= shorter);
        }
        let d = match digit_of(data.get_char(i)) {
            Some(d) => d,
            None => {
                proof {
                    assert forall|n: u64| data@ != decimal(n as nat) by {
                        lemma_decimal(n as nat);
                        if data@ == decimal(n as nat) {
                            assert(digit_value(data@[i as int]) is Some);
                        }
                    }
                }
                return None;
            },
        };
        if i == 0 && d == 0 && len > 1 {
            proof {
                assert forall|n: u64| data@ != decimal(n as nat) by {
                    lemma_decimal(n as nat);
                }
            }
            return None;
        }
        if value > (u64::MAX - d) / 10 {
            proof {
                lemma_decimal_prefix(data@, i + 1);
                assert forall|n: u64| data@ != decimal(n as nat) by {
                    lemma_decimal(n as nat);
                }
            }
            return None;
        }
        value = value * 10 + d;
        i += 1;
    }
    proof {
        assert(data@.take(i as int) =~= data@);
        lemma_decimal_of_value(data@);
    }
    Some(value)
}

impl SerializableData<Str> for u64 {
    type SerErr = Unwritable;

    type DeErr = Unreadable;

    open spec fn encoded(&self) -> Option<Seq<char>> {
        Some(decimal(*self as nat))
    }

    open spec fn reads(data: Seq<char>, value: &u64) -> bool {
        data == decimal(*value as nat)
    }

    open spec fn same(&self, other: &u64) -> bool {
        *self == *other
    }

    fn ser(&self) -> (written: Result<String, Unwritable>) {
        let mut text = String::new();
        write_decimal(*self, &mut text);
        Ok(text)
    }

    fn de(data: &str) -> (read: Result<u64, Unreadable>) {
        match read_decimal(data) {
            Some(value) => {
                proof {
                    assert forall|other: u64| data@ == decimal(other as nat) implies other
                        == value by {
                        lemma_decimal(other as nat);
                        lemma_decimal(value as nat);
                    }
                }
                Ok(value)
            },
            None => Err(Unreadable),
        }
    }
}

/// The plain serializer reads back the number that it wrote, and reads it
/// as no other.
pub proof fn lemma_u64_round_trip(value: u64, other: u64)
    ensures
        value.encoded() matches Some(text) && u64::reads(text, &value) && (u64::reads(text, &other)
            ==> other == value),
{
    lemma_decimal(value as nat);
    lemma_decimal(other as nat);
}

} // verus!
