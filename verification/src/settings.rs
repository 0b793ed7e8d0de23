//! The settings reader: from the bytes of a theme file to a settings tree.
//!
//! A settings tree is a property-list document, a loosely typed nesting of
//! dictionaries, arrays and scalars. Reading one is the work of the `plist`
//! crate; this module gives the outcome a name and makes its failure a
//! [`SettingsError`].
//!
//! One kind of document is turned away before the crate sees it. In a
//! textual property list a date is converted to universal time by a step
//! that panics when the result leaves the range of years it can hold. A
//! theme has no use for dates, so a textual document that holds a date
//! element is not read at all. Binary documents convert their dates with a
//! checked step and are read as they are.
//!
//! How deep a document may nest is not limited here.

use vstd::prelude::*;

verus! {

/// `plist::Value`: a property-list document as a loosely typed tree. It is
/// carried from the settings reader to the theme parser and never inspected.
#[verifier::external_type_specification]
#[verifier::external_body]
pub struct ExPlistValue(plist::Value);

/// `plist::Error`: why a byte stream is not a property list. Carried as the
/// payload of [`SettingsError`] and never inspected.
#[verifier::external_type_specification]
#[verifier::external_body]
pub struct ExPlistError(plist::Error);

/// Why a byte stream is not a settings tree.
#[derive(Debug)]
pub enum SettingsError {
    /// The bytes are not property-list syntax.
    Plist(plist::Error),
    /// The bytes are a textual document that holds a date element.
    DateElement,
}

impl From<plist::Error> for SettingsError {
    fn from(error: plist::Error) -> (r: SettingsError) {
        SettingsError::Plist(error)
    }
}

impl vstd::std_specs::convert::FromSpecImpl<plist::Error> for SettingsError {
    open spec fn obeys_from_spec() -> bool {
        true
    }

    open spec fn from_spec(error: plist::Error) -> SettingsError {
        SettingsError::Plist(error)
    }
}

/// What `plist::Value::from_reader` makes of a file that holds exactly
/// `bytes`: the document, or why the bytes are not one.
pub uninterp spec fn plist_document(bytes: Seq<u8>) -> Result<plist::Value, plist::Error>;

/// The eight bytes that a binary property list begins with: `bplist00`.
pub open spec fn binary_magic() -> Seq<u8> {
    seq![98u8, 112u8, 108u8, 105u8, 115u8, 116u8, 48u8, 48u8]
}

/// Whether the bytes begin as a binary property list does.
pub open spec fn is_binary(bytes: Seq<u8>) -> bool {
    bytes.len() >= 8 && bytes.subrange(0, 8) == binary_magic()
}

/// Whether the name of a date element stands at `at`: the bytes `date`,
/// directly behind the `<` that opens a tag or the `:` that ends a prefix.
pub open spec fn date_tag_at(bytes: Seq<u8>, at: int) -> bool {
    &&& 1 <= at
    &&& at + 4 <= bytes.len()
    &&& (bytes[at - 1] == 60u8 || bytes[at - 1] == 58u8)
    &&& bytes[at] == 100u8
    &&& bytes[at + 1] == 97u8
    &&& bytes[at + 2] == 116u8
    &&& bytes[at + 3] == 101u8
}

/// Whether the settings reader takes the bytes: they are a binary document,
/// or no date element can begin anywhere in them.
pub open spec fn readable(bytes: Seq<u8>) -> bool {
    is_binary(bytes) || forall|at: int| !#[trigger] date_tag_at(bytes, at)
}

/// What the settings reader makes of the bytes of a file: a textual document
/// with a date element is turned away, every other is parsed.
pub open spec fn settings_in(bytes: Seq<u8>) -> Result<plist::Value, SettingsError> {
    if readable(bytes) {
        settings_of(plist_document(bytes))
    } else {
        Err(SettingsError::DateElement)
    }
}

/// What the settings reader makes of the outcome of parsing a property list:
/// the tree as it is, or the failure as a [`SettingsError`].
pub open spec fn settings_of(parsed: Result<plist::Value, plist::Error>) -> Result<
    plist::Value,
    SettingsError,
> {
    match parsed {
        Ok(tree) => Ok(tree),
        Err(error) => Err(SettingsError::Plist(error)),
    }
}

/// Calls `plist::Value::from_reader` on a cursor over `bytes`. The contract
/// claims only that the outcome is a function of the bytes, the one that
/// [`plist_document`] names: the reader looks at the stream and at nothing
/// else, and reports malformed input as an error. Textual documents with a
/// date element are left out, since converting a date can panic there.
#[verifier::external_body]
fn parse_document(bytes: &[u8]) -> (r: Result<plist::Value, plist::Error>)
    requires
        readable(bytes@),
    ensures
        r == plist_document(bytes@),
{
    plist::Value::from_reader(std::io::Cursor::new(bytes))
}

/// Turns the outcome of parsing a property list into that of the settings
/// reader: a tree passes through, an error is wrapped unchanged.
pub fn settings_from(parsed: Result<plist::Value, plist::Error>) -> (r: Result<
    plist::Value,
    SettingsError,
>)
    ensures
        r == settings_of(parsed),
{
    match parsed {
        Ok(tree) => Ok(tree),
        Err(error) => Err(SettingsError::Plist(error)),
    }
}

/// Decides [`is_binary`].
pub fn begins_binary(bytes: &[u8]) -> (r: bool)
    ensures
        r == is_binary(bytes@),
{
    if bytes.len() < 8 {
        return false;
    }
    let r = bytes[0] == 98u8 && bytes[1] == 112u8 && bytes[2] == 108u8 && bytes[3] == 105u8
        && bytes[4] == 115u8 && bytes[5] == 116u8 && bytes[6] == 48u8 && bytes[7] == 48u8;
    proof {
        let head = bytes@.subrange(0, 8);
        if r {
            assert(head =~= binary_magic());
        } else {
            assert(head[0] == bytes[0] && head[1] == bytes[1] && head[2] == bytes[2] && head[3]
                == bytes[3] && head[4] == bytes[4] && head[5] == bytes[5] && head[6] == bytes[6]
                && head[7] == bytes[7]);
        }
    }
    r
}

/// Decides whether the name of a date element stands anywhere in the bytes.
pub fn holds_date_tag(bytes: &[u8]) -> (r: bool)
    ensures
        r == exists|at: int| #[trigger] date_tag_at(bytes@, at),
{
    let n: usize = bytes.len();
    let mut at: usize = 1;
    while at < n && n - at >= 4
        invariant
            1 <= at,
            n == bytes@.len(),
            forall|j: int| j < at ==> !#[trigger] date_tag_at(bytes@, j),
        decreases n - at,
    {
        if (bytes[at - 1] == 60u8 || bytes[at - 1] == 58u8) && bytes[at] == 100u8 && bytes[at + 1]
            == 97u8 && bytes[at + 2] == 116u8 && bytes[at + 3] == 101u8 {
            assert(date_tag_at(bytes@, at as int));
            return true;
        }
        at += 1;
    }
    false
}

/// Reads the bytes of a file as a settings tree.
pub fn read_plist(bytes: &[u8]) -> (r: Result<plist::Value, SettingsError>)
    ensures
        r == settings_in(bytes@),
{
    if begins_binary(bytes) || !holds_date_tag(bytes) {
        settings_from(parse_document(bytes))
    } else {
        Err(SettingsError::DateElement)
    }
}

} // verus!
