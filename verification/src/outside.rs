//! The calls into other crates, each with what is taken for granted about it.
use crate::metadata::{ErrorMap, KnownAttributes};
use crate::text::{joined, texts};
use itertools::Itertools;
use std::string::FromUtf8Error;
use vstd::prelude::*;
use vstd::utf8::{decode_utf8, valid_utf8};

verus! {

/// The error of `move_core_types::identifier::Identifier::new`.
#[verifier::external_type_specification]
#[verifier::external_body]
pub struct ExAnyhowError(anyhow::Error);

/// The error of `url::Url::parse`.
#[verifier::external_type_specification]
#[verifier::external_body]
pub struct ExUrlParseError(url::ParseError);

/// The error of `bcs::to_bytes`.
#[verifier::external_type_specification]
#[verifier::external_body]
pub struct ExBcsError(bcs::Error);

/// The error of `String::from_utf8`.
#[verifier::external_type_specification]
#[verifier::external_body]
pub struct ExFromUtf8Error(FromUtf8Error);

/// `String::push` appends the character to the end of the string.
pub assume_specification[ String::push ](s: &mut String, ch: char)
    ensures
        final(s)@ == old(s)@.push(ch),
;

/// `String::from_utf8` succeeds on valid UTF-8 and on nothing else, and yields the characters
/// that the bytes encode.
pub assume_specification[ String::from_utf8 ](vec: Vec<u8>) -> (r: Result<String, FromUtf8Error>)
    ensures
        r is Ok <==> valid_utf8(vec@),
        r matches Ok(s) ==> s@ == decode_utf8(vec@),
;

/// A character that may stand inside an identifier.
pub open spec fn is_identifier_char(c: char) -> bool {
    c == '_' || 'a' <= c <= 'z' || 'A' <= c <= 'Z' || '0' <= c <= '9'
}

/// An identifier starts with a letter, or with an underscore that something follows, and goes on
/// with letters, digits and underscores. The name `<SELF>` is one too.
pub open spec fn is_identifier(s: Seq<char>) -> bool {
    ||| s == seq!['<', 'S', 'E', 'L', 'F', '>']
    ||| {
        &&& s.len() > 0
        &&& ('a' <= s[0] <= 'z' || 'A' <= s[0] <= 'Z' || (s[0] == '_' && s.len() > 1))
        &&& forall|i: int| 1 <= i < s.len() ==> is_identifier_char(#[trigger] s[i])
    }
}

/// `move_core_types::identifier::Identifier::new`, with the identifier taken back as text: it
/// succeeds exactly on identifiers, and keeps the text.
#[verifier::external_body]
pub(crate) fn new_identifier(name: &str) -> (r: Result<String, anyhow::Error>)
    ensures
        r is Ok <==> is_identifier(name@),
        r matches Ok(s) ==> s@ == name@,
{
    move_core_types::identifier::Identifier::new(name).map(|id| id.into_string())
}

/// `itertools::Itertools::join` over strings: the items in order, with the separator between any
/// two of them.
#[verifier::external_body]
pub(crate) fn join_texts(items: &Vec<String>, sep: &str) -> (r: String)
    ensures
        r@ == joined(texts(items@), sep@),
{
    items.iter().join(sep)
}

/// The normal form that `url::Url::parse` gives to a text that is an absolute URL, and nothing for
/// any other text.
pub uninterp spec fn normal_url(text: Seq<char>) -> Option<Seq<char>>;

/// `url::Url::parse`, which `Url::from_str` is, with the URL taken back as text.
#[verifier::external_body]
pub(crate) fn parse_url(text: &str) -> (r: Result<String, url::ParseError>)
    ensures
        match r {
            Ok(url) => normal_url(text@) == Some(url@),
            Err(_) => normal_url(text@) is None,
        },
{
    url::Url::parse(text).map(String::from)
}

/// What `bcs::to_bytes` makes of an error map, or that it fails: a sequence or a text in it is too
/// long for the format.
pub uninterp spec fn bcs_error_map(error_map: Map<u64, (Seq<char>, Seq<char>)>) -> Option<Seq<u8>>;

/// `bcs::to_bytes` on an error map. The result depends on nothing but the entries.
#[verifier::external_body]
pub(crate) fn error_map_to_bytes(error_map: &ErrorMap) -> (r: Result<Vec<u8>, bcs::Error>)
    ensures
        match r {
            Ok(bytes) => bcs_error_map(error_map.deep_view()) == Some(bytes@),
            Err(_) => bcs_error_map(error_map.deep_view()) is None,
        },
{
    bcs::to_bytes(error_map)
}

/// What `bcs::to_bytes` makes of an error map followed by two maps of attributes, or that it
/// fails: a sequence or a text in them is too long for the format.
pub uninterp spec fn bcs_metadata(
    error_map: Map<u64, (Seq<char>, Seq<char>)>,
    struct_attributes: Map<Seq<char>, Seq<(u8, Seq<Seq<char>>)>>,
    fun_attributes: Map<Seq<char>, Seq<(u8, Seq<Seq<char>>)>>,
) -> Option<Seq<u8>>;

/// `bcs::to_bytes` on an error map and two maps of attributes, in this order. The format writes a
/// tuple as it writes a record of the same fields. The result depends on nothing but the entries.
#[verifier::external_body]
pub(crate) fn metadata_to_bytes(
    error_map: &ErrorMap,
    struct_attributes: &KnownAttributes,
    fun_attributes: &KnownAttributes,
) -> (r: Result<Vec<u8>, bcs::Error>)
    ensures
        match r {
            Ok(bytes) => bcs_metadata(
                error_map.deep_view(),
                struct_attributes.deep_view(),
                fun_attributes.deep_view(),
            ) == Some(bytes@),
            Err(_) => bcs_metadata(
                error_map.deep_view(),
                struct_attributes.deep_view(),
                fun_attributes.deep_view(),
            ) is None,
        },
{
    bcs::to_bytes(&(error_map, struct_attributes, fun_attributes))
}

} // verus!
