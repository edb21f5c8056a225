//! Decoding the record model from JSON text: an array of unit objects,
//! each with a required string `phon`, an optional object `top` holding
//! strings `pos` and `kind`, and an optional array `bot` of objects
//! holding strings `op` and `kind`. The JSON value tree itself comes
//! from serde_json; its parse result is named (`parse_of`, `value_view`)
//! and modelled as a ghost tree (`JsonV`), and walking that tree and
//! validating the closed `kind` enumeration is this module's verified
//! logic: `decode` returns exactly what the spec-level decoder
//! (`spec_decode`) gives for the text.

use vstd::prelude::*;
use crate::record::{
    BottomAttachment,
    BottomAttachmentView,
    CategoryKind,
    TopAttachment,
    TopAttachmentView,
    Unit,
    UnitView,
};
use crate::record::unit_views;

verus! {

/// Why decoding failed; carries the position of the offending unit where
/// the failure belongs to one.
#[derive(Clone, Copy, Debug, PartialEq, Eq)]
pub enum DecodeError {
    /// A required field is absent, a `kind` value is outside the closed
    /// enumeration, or the structure does not match the unit shape.
    MalformedInput(Option<usize>),
}

/// Spec-level image of a JSON value tree. Numbers carry no payload: the
/// decoder never reads one, it only tells them apart from the shapes it
/// does read.
#[verifier::ext_equal]
pub ghost enum JsonV {
    Null,
    Bool(bool),
    Number,
    Str(Seq<char>),
    Arr(Seq<JsonV>),
    Obj(Map<Seq<char>, JsonV>),
}

#[verifier::external_type_specification]
#[verifier::external_body]
pub struct ExJsonValue(serde_json::Value);

#[verifier::external_type_specification]
#[verifier::external_body]
pub struct ExJsonError(serde_json::Error);

/// What parsing the text as JSON yields: `None` where the text is not a
/// well-formed JSON document, the document's tree otherwise. The parse
/// depends on the text alone.
pub uninterp spec fn parse_of(text: Seq<char>) -> Option<JsonV>;

/// The tree that a parsed JSON value holds.
pub uninterp spec fn value_view(v: serde_json::Value) -> JsonV;

/// Relies on serde_json::from_str::<Value>: parses JSON text into a
/// value tree, failing exactly where the text is not a well-formed JSON
/// document (exceeding the parser's nesting limit counts as such).
#[verifier::external_body]
fn json_parse(text: &str) -> (r: Result<serde_json::Value, serde_json::Error>)
    ensures
        match r {
            Ok(v) => parse_of(text@) == Some(value_view(v)),
            Err(_) => parse_of(text@) is None,
        },
{
    serde_json::from_str(text)
}

/// Relies on serde_json::Value::as_array: `Some` exactly when the value
/// is a JSON array, then borrowing its elements in order.
#[verifier::external_body]
fn json_as_array(v: &serde_json::Value) -> (r: Option<&Vec<serde_json::Value>>)
    ensures
        match r {
            Some(a) => value_view(*v) == JsonV::Arr(
                a@.map_values(|e: serde_json::Value| value_view(e)),
            ),
            None => !(value_view(*v) is Arr),
        },
{
    v.as_array()
}

/// Relies on serde_json::Value::get with a string index: `Some` exactly
/// when the value is a JSON object with such a member, then with that
/// member.
#[verifier::external_body]
fn json_get<'a>(v: &'a serde_json::Value, key: &str) -> (r: Option<&'a serde_json::Value>)
    ensures
        match r {
            Some(m) => match value_view(*v) {
                JsonV::Obj(fields) => fields.dom().contains(key@) && fields[key@] == value_view(
                    *m,
                ),
                _ => false,
            },
            None => match value_view(*v) {
                JsonV::Obj(fields) => !fields.dom().contains(key@),
                _ => true,
            },
        },
{
    v.get(key)
}

/// Relies on serde_json::Value::as_str: `Some` exactly when the value is
/// a JSON string, then with that string's text.
#[verifier::external_body]
fn json_as_string(v: &serde_json::Value) -> (r: Option<String>)
    ensures
        match r {
            Some(s) => value_view(*v) == JsonV::Str(s@),
            None => !(value_view(*v) is Str),
        },
{
    v.as_str().map(|s| s.to_string())
}

/// Relies on serde_json::Value::is_null: true exactly for JSON null.
#[verifier::external_body]
fn json_is_null(v: &serde_json::Value) -> (r: bool)
    ensures
        r == (value_view(*v) is Null),
{
    v.is_null()
}

/// The member of a JSON object at the key: `None` where the value is no
/// object or has no such member.
pub open spec fn spec_member(v: JsonV, key: Seq<char>) -> Option<JsonV> {
    match v {
        JsonV::Obj(fields) => if fields.dom().contains(key) {
            Some(fields[key])
        } else {
            None
        },
        _ => None,
    }
}

/// The text of a JSON string value: `None` where the value is no string.
pub open spec fn spec_str_of(v: JsonV) -> Option<Seq<char>> {
    match v {
        JsonV::Str(s) => Some(s),
        _ => None,
    }
}

/// The text of the string member at the key: `None` where the member is
/// absent or no string.
pub open spec fn spec_str_member(v: JsonV, key: Seq<char>) -> Option<Seq<char>> {
    match spec_member(v, key) {
        Some(f) => spec_str_of(f),
        None => None,
    }
}

/// The category kind written with the given name: one of exactly seven
/// names, every other name falling outside the closed enumeration.
pub open spec fn kind_of_label(s: Seq<char>) -> Option<CategoryKind> {
    if s == "Pred"@ {
        Some(CategoryKind::Pred)
    } else if s == "Nuc"@ {
        Some(CategoryKind::Nuc)
    } else if s == "Core"@ {
        Some(CategoryKind::Core)
    } else if s == "CoreP"@ {
        Some(CategoryKind::CoreP)
    } else if s == "Clause"@ {
        Some(CategoryKind::Clause)
    } else if s == "ClauseP"@ {
        Some(CategoryKind::ClauseP)
    } else if s == "Sentence"@ {
        Some(CategoryKind::Sentence)
    } else {
        None
    }
}

/// The top attachment described by a (non-null) `top` member: string
/// members `pos` and `kind`, the latter one of the seven kind names.
pub open spec fn spec_top(tv: JsonV) -> Option<TopAttachmentView> {
    match (spec_str_member(tv, "pos"@), spec_str_member(tv, "kind"@)) {
        (Some(pos), Some(kl)) => match kind_of_label(kl) {
            Some(k) => Some(TopAttachmentView { category_label: pos, kind: k }),
            None => None,
        },
        _ => None,
    }
}

/// The bottom attachment described by one element of the `bot` member:
/// string members `op` and `kind`, the latter one of the seven kind
/// names.
pub open spec fn spec_bottom(bv: JsonV) -> Option<BottomAttachmentView> {
    match (spec_str_member(bv, "op"@), spec_str_member(bv, "kind"@)) {
        (Some(op), Some(kl)) => match kind_of_label(kl) {
            Some(k) => Some(BottomAttachmentView { operator_label: op, kind: k }),
            None => None,
        },
        _ => None,
    }
}

/// The bottom attachments described by the elements of a `bot` array, in
/// order; `None` as soon as one element fails.
pub open spec fn spec_bottoms(es: Seq<JsonV>) -> Option<Seq<BottomAttachmentView>>
    decreases es.len(),
{
    if es.len() == 0 {
        Some(Seq::empty())
    } else {
        match spec_bottoms(es.drop_last()) {
            Some(pre) => match spec_bottom(es.last()) {
                Some(b) => Some(pre.push(b)),
                None => None,
            },
            None => None,
        }
    }
}

/// The unit described by one element of the input array: a required
/// string `phon`; an absent or null `top` means no top attachment, any
/// other `top` must describe one; an absent or null `bot` means no bottom
/// attachments, any other `bot` must be an array whose every element
/// describes one.
pub open spec fn spec_unit(v: JsonV) -> Option<UnitView> {
    match spec_str_member(v, "phon"@) {
        None => None,
        Some(surface) => {
            let top = match spec_member(v, "top"@) {
                None => Some(None),
                Some(tv) => if tv is Null {
                    Some(None)
                } else {
                    match spec_top(tv) {
                        Some(t) => Some(Some(t)),
                        None => None,
                    }
                },
            };
            let bottoms = match spec_member(v, "bot"@) {
                None => Some(None),
                Some(bv) => if bv is Null {
                    Some(None)
                } else {
                    match bv {
                        JsonV::Arr(es) => match spec_bottoms(es) {
                            Some(bs) => Some(Some(bs)),
                            None => None,
                        },
                        _ => None,
                    }
                },
            };
            match (top, bottoms) {
                (Some(t), Some(bs)) => Some(
                    UnitView { surface_label: surface, top: t, bottoms: bs },
                ),
                _ => None,
            }
        },
    }
}

/// The units described by the input array's elements, in order; the
/// first element that describes no unit gives a positional error.
pub open spec fn spec_units(es: Seq<JsonV>) -> Result<Seq<UnitView>, DecodeError>
    decreases es.len(),
{
    if es.len() == 0 {
        Ok(Seq::empty())
    } else {
        match spec_units(es.drop_last()) {
            Ok(pre) => match spec_unit(es.last()) {
                Some(u) => Ok(pre.push(u)),
                None => Err(DecodeError::MalformedInput(Some((es.len() - 1) as usize))),
            },
            Err(e) => Err(e),
        }
    }
}

/// What decoding the text yields: text that is no well-formed JSON
/// document, or whose document is no array, fails without a position;
/// otherwise the array's elements decode in order.
pub open spec fn spec_decode(text: Seq<char>) -> Result<Seq<UnitView>, DecodeError> {
    match parse_of(text) {
        None => Err(DecodeError::MalformedInput(None)),
        Some(doc) => match doc {
            JsonV::Arr(es) => spec_units(es),
            _ => Err(DecodeError::MalformedInput(None)),
        },
    }
}

/// An erring prefix decides the whole array: the first failing element's
/// error stands whatever follows it.
proof fn lemma_spec_units_prefix_err(es: Seq<JsonV>, k: int)
    requires
        0 <= k <= es.len(),
        spec_units(es.take(k)) is Err,
    ensures
        spec_units(es) == spec_units(es.take(k)),
    decreases es.len() - k,
{
    if k == es.len() {
        assert(es.take(k) =~= es);
    } else {
        assert(es.take(k + 1).drop_last() =~= es.take(k));
        lemma_spec_units_prefix_err(es, k + 1);
    }
}

/// A failing prefix decides the whole bottom list.
proof fn lemma_spec_bottoms_prefix_none(es: Seq<JsonV>, k: int)
    requires
        0 <= k <= es.len(),
        spec_bottoms(es.take(k)) is None,
    ensures
        spec_bottoms(es) is None,
    decreases es.len() - k,
{
    if k == es.len() {
        assert(es.take(k) =~= es);
    } else {
        assert(es.take(k + 1).drop_last() =~= es.take(k));
        lemma_spec_bottoms_prefix_none(es, k + 1);
    }
}

/// Maps a kind name to its category kind; `None` exactly for names
/// outside the closed enumeration.
pub fn kind_from_label(s: &String) -> (r: Option<CategoryKind>)
    ensures
        r == kind_of_label(s@),
{
    if *s == "Pred".to_owned() {
        Some(CategoryKind::Pred)
    } else if *s == "Nuc".to_owned() {
        Some(CategoryKind::Nuc)
    } else if *s == "Core".to_owned() {
        Some(CategoryKind::Core)
    } else if *s == "CoreP".to_owned() {
        Some(CategoryKind::CoreP)
    } else if *s == "Clause".to_owned() {
        Some(CategoryKind::Clause)
    } else if *s == "ClauseP".to_owned() {
        Some(CategoryKind::ClauseP)
    } else if *s == "Sentence".to_owned() {
        Some(CategoryKind::Sentence)
    } else {
        None
    }
}

/// Builds a top attachment from its two field values; `None` exactly when
/// the kind name falls outside the closed enumeration.
pub fn top_from_labels(pos: String, kind_label: &String) -> (r: Option<TopAttachment>)
    ensures
        match kind_of_label(kind_label@) {
            Some(k) => r == Some((TopAttachment { category_label: pos, kind: k })),
            None => r is None,
        },
{
    match kind_from_label(kind_label) {
        Some(k) => Some(TopAttachment { category_label: pos, kind: k }),
        None => None,
    }
}

/// Builds a bottom attachment from its two field values; `None` exactly
/// when the kind name falls outside the closed enumeration.
pub fn bottom_from_labels(op: String, kind_label: &String) -> (r: Option<BottomAttachment>)
    ensures
        match kind_of_label(kind_label@) {
            Some(k) => r == Some((BottomAttachment { operator_label: op, kind: k })),
            None => r is None,
        },
{
    match kind_from_label(kind_label) {
        Some(k) => Some(BottomAttachment { operator_label: op, kind: k }),
        None => None,
    }
}

/// Reads the string member at the key.
fn string_member(v: &serde_json::Value, key: &str) -> (r: Option<String>)
    ensures
        match r {
            Some(s) => spec_str_member(value_view(*v), key@) == Some(s@),
            None => spec_str_member(value_view(*v), key@) is None,
        },
{
    match json_get(v, key) {
        Some(m) => json_as_string(m),
        None => None,
    }
}

/// Decodes a (non-null) `top` member.
fn top_from_json(tv: &serde_json::Value) -> (r: Option<TopAttachment>)
    ensures
        match r {
            Some(t) => spec_top(value_view(*tv)) == Some(t@),
            None => spec_top(value_view(*tv)) is None,
        },
{
    let pos = match string_member(tv, "pos") {
        Some(s) => s,
        None => {
            return None;
        },
    };
    let kind_label = match string_member(tv, "kind") {
        Some(s) => s,
        None => {
            return None;
        },
    };
    top_from_labels(pos, &kind_label)
}

/// Decodes one element of a `bot` array.
fn bottom_from_json(bv: &serde_json::Value) -> (r: Option<BottomAttachment>)
    ensures
        match r {
            Some(b) => spec_bottom(value_view(*bv)) == Some(b@),
            None => spec_bottom(value_view(*bv)) is None,
        },
{
    let op = match string_member(bv, "op") {
        Some(s) => s,
        None => {
            return None;
        },
    };
    let kind_label = match string_member(bv, "kind") {
        Some(s) => s,
        None => {
            return None;
        },
    };
    bottom_from_labels(op, &kind_label)
}

/// Decodes the elements of a (non-null) `bot` array, in order.
fn bottoms_from_json(arr: &Vec<serde_json::Value>) -> (r: Option<Vec<BottomAttachment>>)
    ensures
        match r {
            Some(bs) => spec_bottoms(arr@.map_values(|e: serde_json::Value| value_view(e)))
                == Some(bs@.map_values(|b: BottomAttachment| b@)),
            None => spec_bottoms(arr@.map_values(|e: serde_json::Value| value_view(e))) is None,
        },
{
    let ghost es = arr@.map_values(|e: serde_json::Value| value_view(e));
    let mut bs: Vec<BottomAttachment> = Vec::new();
    let n: usize = arr.len();
    let mut j: usize = 0;
    proof {
        assert(es.take(0) =~= Seq::<JsonV>::empty());
        assert(bs@.map_values(|b: BottomAttachment| b@) =~= Seq::<BottomAttachmentView>::empty());
    }
    while j < n
        invariant
            j <= n,
            n == arr@.len(),
            es == arr@.map_values(|e: serde_json::Value| value_view(e)),
            spec_bottoms(es.take(j as int)) == Some(bs@.map_values(|b: BottomAttachment| b@)),
        decreases n - j,
    {
        proof {
            assert(es.take(j as int + 1).drop_last() =~= es.take(j as int));
            assert(es.take(j as int + 1).last() == es[j as int]);
            assert(es[j as int] == value_view(arr@[j as int]));
        }
        match bottom_from_json(&arr[j]) {
            Some(b) => {
                let ghost before = bs@.map_values(|b: BottomAttachment| b@);
                bs.push(b);
                proof {
                    assert(bs@.map_values(|b: BottomAttachment| b@) =~= before.push(b@));
                }
            },
            None => {
                proof {
                    lemma_spec_bottoms_prefix_none(es, j as int + 1);
                }
                return None;
            },
        }
        j = j + 1;
    }
    proof {
        assert(es.take(n as int) =~= es);
    }
    Some(bs)
}

/// Decodes one unit from its JSON value; a failure names the unit's
/// position.
fn unit_from_json(v: &serde_json::Value, idx: usize) -> (r: Result<Unit, DecodeError>)
    ensures
        match r {
            Ok(u) => spec_unit(value_view(*v)) == Some(u@),
            Err(e) => spec_unit(value_view(*v)) is None && e == DecodeError::MalformedInput(
                Some(idx),
            ),
        },
{
    let surface_label = match string_member(v, "phon") {
        Some(s) => s,
        None => {
            return Err(DecodeError::MalformedInput(Some(idx)));
        },
    };
    let top = match json_get(v, "top") {
        Some(tv) => if json_is_null(tv) {
            None
        } else {
            match top_from_json(tv) {
                Some(t) => Some(t),
                None => {
                    return Err(DecodeError::MalformedInput(Some(idx)));
                },
            }
        },
        None => None,
    };
    let bottoms = match json_get(v, "bot") {
        Some(bv) => if json_is_null(bv) {
            None
        } else {
            match json_as_array(bv) {
                Some(arr) => match bottoms_from_json(arr) {
                    Some(bs) => Some(bs),
                    None => {
                        return Err(DecodeError::MalformedInput(Some(idx)));
                    },
                },
                None => {
                    return Err(DecodeError::MalformedInput(Some(idx)));
                },
            }
        },
        None => None,
    };
    Ok(Unit { surface_label, top, bottoms })
}

/// Decodes an ordered unit sequence from JSON text, returning exactly
/// what `spec_decode` gives for the text: `MalformedInput` without a
/// position where the text is no well-formed JSON document or its
/// document is no array; `MalformedInput` with the first offending
/// unit's position where an element lacks a required field, has one of
/// the wrong shape, or names a kind outside the closed enumeration; and
/// otherwise the units, in input order. No cross-unit validation
/// happens here: the head invariant is the builder's to check.
pub fn decode(text: &str) -> (r: Result<Vec<Unit>, DecodeError>)
    ensures
        match r {
            Ok(us) => spec_decode(text@) == Ok::<Seq<UnitView>, DecodeError>(unit_views(us@)),
            Err(e) => spec_decode(text@) == Err::<Seq<UnitView>, DecodeError>(e),
        },
{
    let root = match json_parse(text) {
        Ok(v) => v,
        Err(_) => {
            return Err(DecodeError::MalformedInput(None));
        },
    };
    let arr = match json_as_array(&root) {
        Some(a) => a,
        None => {
            return Err(DecodeError::MalformedInput(None));
        },
    };
    let ghost es = arr@.map_values(|e: serde_json::Value| value_view(e));
    let mut units: Vec<Unit> = Vec::new();
    let n: usize = arr.len();
    let mut i: usize = 0;
    proof {
        assert(es.take(0) =~= Seq::<JsonV>::empty());
        assert(unit_views(units@) =~= Seq::<UnitView>::empty());
    }
    while i < n
        invariant
            i <= n,
            n == arr@.len(),
            es == arr@.map_values(|e: serde_json::Value| value_view(e)),
            parse_of(text@) == Some(JsonV::Arr(es)),
            spec_units(es.take(i as int)) == Ok::<Seq<UnitView>, DecodeError>(
                unit_views(units@),
            ),
        decreases n - i,
    {
        proof {
            assert(es.take(i as int + 1).drop_last() =~= es.take(i as int));
            assert(es.take(i as int + 1).last() == es[i as int]);
            assert(es[i as int] == value_view(arr@[i as int]));
        }
        match unit_from_json(&arr[i], i) {
            Ok(u) => {
                let ghost before = unit_views(units@);
                units.push(u);
                proof {
                    assert(unit_views(units@) =~= before.push(u@));
                }
            },
            Err(e) => {
                proof {
                    lemma_spec_units_prefix_err(es, i as int + 1);
                }
                return Err(e);
            },
        }
        i = i + 1;
    }
    proof {
        assert(es.take(n as int) =~= es);
    }
    Ok(units)
}

} // verus!
