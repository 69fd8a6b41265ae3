//! Identifiers of runs, saved accounts and logins.

use vstd::prelude::*;
use crate::paths;

verus! {

/// The digits of a UUID are small letters and decimal digits.
pub open spec fn is_lower_hex(c: char) -> bool {
    '0' <= c <= '9' || 'a' <= c <= 'f'
}

/// The hyphenated form of a UUID: groups of eight, four, four, four and twelve digits.
pub open spec fn is_hyphenated_uuid(text: Seq<char>) -> bool {
    text.len() == 36 && forall|i: int|
        0 <= i < 36 ==> if is_hyphen_place(i) {
            (#[trigger] text[i]) == '-'
        } else {
            is_lower_hex(text[i])
        }
}

/// The number that a text stands for as a UUID, in any of the forms that a UUID is written in.
pub uninterp spec fn uuid_number(text: Seq<char>) -> Option<u128>;

/// `uuid::Uuid::parse_str`: the number of the UUID that a text holds, which depends on the text
/// alone.
#[verifier::external_body]
pub(crate) fn parse_uuid(text: &str) -> (res: Option<u128>)
    ensures
        res == uuid_number(text@),
{
    uuid::Uuid::parse_str(text).ok().map(|id| id.as_u128())
}

/// The hexadecimal digit with a value.
pub open spec fn hex_digit(value: int) -> char {
    if value < 10 {
        ('0' as int + value) as char
    } else {
        ('a' as int + value - 10) as char
    }
}

/// The places of the hyphens in a UUID.
pub open spec fn is_hyphen_place(i: int) -> bool {
    i == 8 || i == 13 || i == 18 || i == 23
}

/// How many digits of a UUID stand before a place.
pub open spec fn digits_before(i: int) -> int {
    if i <= 8 {
        i
    } else if i <= 13 {
        i - 1
    } else if i <= 18 {
        i - 2
    } else if i <= 23 {
        i - 3
    } else {
        i - 4
    }
}

/// The text of the UUID with a number: its hexadecimal digits, with hyphens between the groups.
pub open spec fn uuid_text(number: u128) -> Seq<char> {
    Seq::new(
        36,
        |i: int|
            if is_hyphen_place(i) {
                '-'
            } else {
                hex_digit(
                    (number as int / vstd::arithmetic::power::pow(
                        16,
                        (31 - digits_before(i)) as nat,
                    )) % 16,
                )
            },
    )
}

/// `uuid::Uuid::from_u128` and its text: the hyphenated form, which is read back as the same number.
#[verifier::external_body]
pub(crate) fn write_uuid(number: u128) -> (res: String)
    ensures
        res@ == uuid_text(number),
        uuid_number(res@) == Some(number),
{
    uuid::Uuid::from_u128(number).to_string()
}

/// Whether a UUID is of a version, by its number: the version stands in the thirteenth digit, and the
/// two bits before the last sixty-two are a one and a zero.
pub open spec fn has_version(number: u128, version: int) -> bool {
    (number as int / 0x1000_0000_0000_0000_0000) % 16 == version && (number as int
        / 0x4000_0000_0000_0000) % 4 == 2
}

/// `uuid::Uuid::new_v4` as a number: one of version 4. Which one it is depends on chance, so nothing
/// more is said of it.
#[verifier::external_body]
pub(crate) fn random_number() -> (res: u128)
    ensures
        has_version(res, 4),
{
    uuid::Uuid::new_v4().as_u128()
}

/// `uuid::Uuid::now_v7` as a number: one of version 7. Which one it is depends on the time and on
/// chance, so nothing more is said of it.
#[verifier::external_body]
pub(crate) fn timed_number() -> (res: u128)
    ensures
        has_version(res, 7),
{
    uuid::Uuid::now_v7().as_u128()
}

/// The text of a UUID has the hyphenated form.
pub proof fn uuids_are_written_with_hyphens(number: u128)
    ensures
        is_hyphenated_uuid(uuid_text(number)),
{
}

/// Whether a text is that of a UUID of a version.
pub open spec fn is_uuid_of_version(text: Seq<char>, version: int) -> bool {
    exists|number: u128| #[trigger] has_version(number, version) && text == uuid_text(number)
}

/// A fresh identifier of a run.
pub fn fresh_run_id() -> (res: String)
    ensures
        is_uuid_of_version(res@, 4),
        is_hyphenated_uuid(res@),
{
    let number: u128 = random_number();
    proof {
        uuids_are_written_with_hyphens(number);
    }
    write_uuid(number)
}

/// A fresh identifier of a saved account.
pub fn fresh_session_id() -> (res: String)
    ensures
        is_uuid_of_version(res@, 7),
        is_hyphenated_uuid(res@),
{
    let number: u128 = timed_number();
    proof {
        uuids_are_written_with_hyphens(number);
    }
    write_uuid(number)
}

/// Fresh identifiers of saved accounts.
pub fn fresh_session_ids(count: usize) -> (res: Vec<String>)
    ensures
        res@.len() == count,
        forall|i: int|
            0 <= i < count ==> is_uuid_of_version((#[trigger] res@[i])@, 7) && is_hyphenated_uuid(
                res@[i]@,
            ),
{
    let mut ids: Vec<String> = Vec::new();
    while ids.len() < count
        invariant
            ids@.len() <= count,
            forall|i: int|
                0 <= i < ids@.len() ==> is_uuid_of_version((#[trigger] ids@[i])@, 7)
                    && is_hyphenated_uuid(ids@[i]@),
        decreases count - ids@.len(),
    {
        ids.push(fresh_session_id());
    }
    ids
}

/// A fresh identifier may stand in a path: it is never refused.
pub proof fn fresh_identifiers_may_stand_in_paths(id: Seq<char>)
    requires
        is_hyphenated_uuid(id),
    ensures
        paths::is_component(id),
        paths::stays_below(id),
{
    assert forall|i: int| 0 <= i < id.len() implies paths::is_component_char(#[trigger] id[i])
        && '\0' <= id[i] <= '\u{7f}' by {
        if is_hyphen_place(i) {
            assert(id[i] == '-');
        } else {
            assert(is_lower_hex(id[i]));
        }
    }
    assert(vstd::utf8::is_ascii_chars(id));
    vstd::utf8::is_ascii_chars_encode_utf8(id);
    paths::components_stay_below(id);
}

} // verus!
