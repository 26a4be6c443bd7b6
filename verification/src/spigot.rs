//! The reference artifact source: resolving an identifier to its canonical
//! resource id, building the metadata / latest-version / download URLs,
//! and extracting the promised fields from a metadata response body.  The
//! network request itself happens outside the crate; this module turns its
//! response text into typed values or a typed error naming what was
//! missing.

use vstd::prelude::*;

use crate::text::{
    dec_spec, find_last, lemma_find_last_is, lemma_find_last_none, rfind_char, u64_to_string,
};

verus! {

/// Whether `s` parses as a JSON document.  Parsing depends on the text
/// alone, so the outcome can be named.
pub uninterp spec fn json_doc_ok(s: Seq<char>) -> bool;

/// The string field `key` of the document `s`: `Some` exactly when `s`
/// parses to an object carrying a JSON string under `key`.
pub uninterp spec fn json_str_field(s: Seq<char>, key: Seq<char>) -> Option<Seq<char>>;

/// The integer field `key` of the document `s`: `Some` exactly when `s`
/// parses to an object carrying a JSON integer that fits an `i64` under
/// `key`.
pub uninterp spec fn json_i64_field(s: Seq<char>, key: Seq<char>) -> Option<i64>;

/// Relies on serde_json::from_str, Value::get and Value::as_str: whether
/// the body parses, and what string the field `key` holds, are functions
/// of the text alone; `get` answers `None` on a non-object or an absent
/// key, `as_str` on a non-string value.
#[verifier::external_body]
fn json_extract_str(body: &str, key: &str) -> (r: (bool, Option<String>))
    ensures
        r.0 == json_doc_ok(body@),
        r.0 ==> match r.1 {
            Some(v) => json_str_field(body@, key@) == Some(v@),
            None => json_str_field(body@, key@) is None,
        },
{
    match serde_json::from_str::<serde_json::Value>(body) {
        Err(_) => (false, None),
        Ok(doc) => match doc.get(key) {
            None => (true, None),
            Some(f) => match f.as_str() {
                None => (true, None),
                Some(s) => (true, Some(s.to_owned())),
            },
        },
    }
}

/// Relies on serde_json::from_str, Value::get and Value::as_i64: as
/// `json_extract_str`, for an integer field; `as_i64` answers `None` for
/// anything but an integer that fits.
#[verifier::external_body]
fn json_extract_i64(body: &str, key: &str) -> (r: (bool, Option<i64>))
    ensures
        r.0 == json_doc_ok(body@),
        r.0 ==> match r.1 {
            Some(v) => json_i64_field(body@, key@) == Some(v),
            None => json_i64_field(body@, key@) is None,
        },
{
    match serde_json::from_str::<serde_json::Value>(body) {
        Err(_) => (false, None),
        Ok(doc) => match doc.get(key) {
            None => (true, None),
            Some(f) => (true, f.as_i64()),
        },
    }
}

/// The fields a metadata response is required to carry.
#[derive(Clone, Copy, Debug, PartialEq, Eq, Structural)]
pub enum FieldKind {
    /// The resource's display name.
    Name,
    /// The resource's version tag.
    Tag,
    /// The numeric id of a version.
    Id,
}

/// Why a response body yielded no value.
#[derive(Clone, Copy, Debug, PartialEq, Eq, Structural)]
pub enum SourceError {
    /// The body is not a JSON document.
    InvalidJson,
    /// The document lacks a required field, or the field has the wrong
    /// type.
    MissingField(FieldKind),
}

/// Metadata of one resource: its display name and version tag.
#[derive(Debug)]
pub struct SpigotResourceInfo {
    pub name: String,
    pub tag: String,
}

/// The canonical resource id of an identifier: a slug may precede the
/// numeric id, separated by the last `.`; if that `.` is not the final
/// character, the id is everything after it, otherwise the identifier is
/// already canonical.
pub open spec fn canonical_resource_id(s: Seq<char>) -> Seq<char> {
    match find_last(s, '.') {
        Some(i) => if i < s.len() - 1 {
            s.skip(i + 1)
        } else {
            s
        },
        None => s,
    }
}

/// Extracts the canonical resource id from an identifier.
pub fn get_resource_id(res: &str) -> (r: &str)
    ensures
        r@ == canonical_resource_id(res@),
{
    let n = res.unicode_len();
    match rfind_char(res, 0, '.') {
        Some(i) => {
            proof {
                lemma_find_last_is(res@, '.', i as int);
            }
            if i + 1 < n {
                let id = res.substring_char(i + 1, n);
                proof {
                    assert(res@.subrange(i + 1, n as int) =~= res@.skip(i + 1));
                }
                id
            } else {
                res
            }
        },
        None => {
            proof {
                lemma_find_last_none(res@, '.');
            }
            res
        },
    }
}

/// The deterministic download URL of a resource; no request is made.
pub fn get_spigot_url(id: &str) -> (r: String)
    ensures
        r@ == "https://api.spiget.org/v2/resources/"@ + canonical_resource_id(id@) + "/download"@,
{
    let mut out = String::from_str("https://api.spiget.org/v2/resources/");
    out.append(get_resource_id(id));
    out.append("/download");
    out
}

/// The metadata endpoint of a resource.
pub fn spigot_info_url(id: &str) -> (r: String)
    ensures
        r@ == "https://api.spiget.org/v2/resources/"@ + canonical_resource_id(id@),
{
    let mut out = String::from_str("https://api.spiget.org/v2/resources/");
    out.append(get_resource_id(id));
    out
}

/// The latest-version endpoint of a resource.
pub fn spigot_latest_version_url(id: &str) -> (r: String)
    ensures
        r@ == "https://api.spiget.org/v2/resources/"@ + canonical_resource_id(id@)
            + "/versions/latest"@,
{
    let mut out = String::from_str("https://api.spiget.org/v2/resources/");
    out.append(get_resource_id(id));
    out.append("/versions/latest");
    out
}

/// Builds the metadata result from the two extracted fields: both present
/// yields the info, a missing one the error naming it, name first.
pub fn info_from_fields(name: Option<String>, tag: Option<String>) -> (r: Result<
    SpigotResourceInfo,
    SourceError,
>)
    ensures
        name is None ==> r == Err::<SpigotResourceInfo, SourceError>(
            SourceError::MissingField(FieldKind::Name),
        ),
        name is Some && tag is None ==> r == Err::<SpigotResourceInfo, SourceError>(
            SourceError::MissingField(FieldKind::Tag),
        ),
        name is Some && tag is Some ==> match r {
            Ok(info) => info.name == name.unwrap() && info.tag == tag.unwrap(),
            Err(_) => false,
        },
{
    match name {
        None => Err(SourceError::MissingField(FieldKind::Name)),
        Some(n) => match tag {
            None => Err(SourceError::MissingField(FieldKind::Tag)),
            Some(t) => Ok(SpigotResourceInfo { name: n, tag: t }),
        },
    }
}

/// Decimal rendering of a signed number, a leading `-` when negative.
pub open spec fn int_dec(v: int) -> Seq<char> {
    if v >= 0 {
        dec_spec(v as nat)
    } else {
        seq!['-'] + dec_spec((-v) as nat)
    }
}

/// Renders `n` in decimal.
pub fn i64_to_string(n: i64) -> (s: String)
    ensures
        s@ == int_dec(n as int),
{
    if n >= 0 {
        u64_to_string(n as u64)
    } else {
        let mag: u64 = (-(n + 1)) as u64 + 1;
        assert(mag as int == -(n as int));
        let mut s = String::from_str("-");
        s.append(u64_to_string(mag).as_str());
        proof {
            reveal_strlit("-");
            assert("-"@ =~= seq!['-']);
        }
        s
    }
}

/// Builds the latest-version result from the extracted id field: present
/// yields its decimal rendering, absent the error naming the field.
pub fn version_from_field(id: Option<i64>) -> (r: Result<String, SourceError>)
    ensures
        match id {
            Some(n) => match r {
                Ok(s) => s@ == int_dec(n as int),
                Err(_) => false,
            },
            None => r == Err::<String, SourceError>(SourceError::MissingField(FieldKind::Id)),
        },
{
    match id {
        Some(n) => Ok(i64_to_string(n)),
        None => Err(SourceError::MissingField(FieldKind::Id)),
    }
}

/// Extracts a resource's display name and version tag from a metadata
/// response body: the info when the body is a document carrying both
/// string fields, else a typed error — `InvalidJson` for an unparsable
/// body, otherwise `MissingField` naming the first absent field, name
/// before tag.
pub fn parse_spigot_info(body: &str) -> (r: Result<SpigotResourceInfo, SourceError>)
    ensures
        !json_doc_ok(body@) ==> r == Err::<SpigotResourceInfo, SourceError>(
            SourceError::InvalidJson,
        ),
        json_doc_ok(body@) && json_str_field(body@, "name"@) is None ==> r == Err::<
            SpigotResourceInfo,
            SourceError,
        >(SourceError::MissingField(FieldKind::Name)),
        json_doc_ok(body@) && json_str_field(body@, "name"@) is Some && json_str_field(
            body@,
            "tag"@,
        ) is None ==> r == Err::<SpigotResourceInfo, SourceError>(
            SourceError::MissingField(FieldKind::Tag),
        ),
        json_doc_ok(body@) && json_str_field(body@, "name"@) is Some && json_str_field(
            body@,
            "tag"@,
        ) is Some ==> match r {
            Ok(info) => Some(info.name@) == json_str_field(body@, "name"@) && Some(info.tag@)
                == json_str_field(body@, "tag"@),
            Err(_) => false,
        },
{
    let (ok, name) = json_extract_str(body, "name");
    if !ok {
        return Err(SourceError::InvalidJson);
    }
    let (_, tag) = json_extract_str(body, "tag");
    info_from_fields(name, tag)
}

/// Extracts the numeric id of a resource's latest version from a
/// response body, rendered in decimal: the rendering of the `id` field
/// when the body is a document carrying it, else a typed error —
/// `InvalidJson` for an unparsable body, otherwise `MissingField(Id)`.
pub fn parse_spigot_latest_version(body: &str) -> (r: Result<String, SourceError>)
    ensures
        !json_doc_ok(body@) ==> r == Err::<String, SourceError>(SourceError::InvalidJson),
        json_doc_ok(body@) && json_i64_field(body@, "id"@) is None ==> r == Err::<
            String,
            SourceError,
        >(SourceError::MissingField(FieldKind::Id)),
        json_doc_ok(body@) && json_i64_field(body@, "id"@) is Some ==> match r {
            Ok(s) => s@ == int_dec(json_i64_field(body@, "id"@).unwrap() as int),
            Err(_) => false,
        },
{
    let (ok, id) = json_extract_i64(body, "id");
    if !ok {
        return Err(SourceError::InvalidJson);
    }
    version_from_field(id)
}

} // verus!
