//! JSON documents as values, and their passage to and from text.

use simd_json::OwnedValue;
use simd_json::StaticNode;
use vstd::prelude::*;

verus! {

/// A JSON document.
#[derive(Debug)]
pub enum JsonValue {
    Null,
    Bool(bool),
    /// A whole number from zero up.
    Number(u64),
    /// A whole number that is held with a sign: below zero, or the reading of
    /// a parser that holds small numbers so.
    Signed(i64),
    /// Any other number: a fraction, or one too large.
    OtherNumber,
    Text(String),
    Array(Vec<JsonValue>),
    /// The members of an object, in the order written. Where a name stands
    /// twice, the later member counts.
    Object(Vec<(String, JsonValue)>),
}

/// A JSON document as mathematics sees it: an object is a mapping from
/// names to documents.
pub enum JsonView {
    Null,
    Bool(bool),
    Number(u64),
    Signed(i64),
    OtherNumber,
    Text(Seq<char>),
    Array(Seq<JsonView>),
    Object(Map<Seq<char>, JsonView>),
}

/// The position of the last of `members` with the given name.
pub open spec fn last_member(members: Seq<(String, JsonValue)>, name: Seq<char>) -> int {
    choose|i: int|
        0 <= i < members.len() && members[i].0@ == name && forall|j: int|
            i < j < members.len() ==> (#[trigger] members[j]).0@ != name
}

/// Whether one of `members` has the given name.
pub open spec fn has_member(members: Seq<(String, JsonValue)>, name: Seq<char>) -> bool {
    exists|i: int| 0 <= i < members.len() && (#[trigger] members[i]).0@ == name
}

impl View for JsonValue {
    type V = JsonView;

    open spec fn view(&self) -> JsonView {
        self.document()
    }
}

impl JsonValue {
    /// The document as mathematics sees it.
    pub open spec fn document(&self) -> JsonView
        decreases self,
    {
        match self {
            JsonValue::Null => JsonView::Null,
            JsonValue::Bool(b) => JsonView::Bool(*b),
            JsonValue::Number(n) => JsonView::Number(*n),
            JsonValue::Signed(n) => JsonView::Signed(*n),
            JsonValue::OtherNumber => JsonView::OtherNumber,
            JsonValue::Text(text) => JsonView::Text(text@),
            JsonValue::Array(items) => JsonView::Array(
                Seq::new(
                    items@.len(),
                    |i: int|
                        if 0 <= i < items@.len() {
                            items@[i].document()
                        } else {
                            JsonView::Null
                        },
                ),
            ),
            JsonValue::Object(members) => JsonView::Object(
                Map::new(
                    |name: Seq<char>| has_member(members@, name),
                    |name: Seq<char>|
                        {
                            let i = last_member(members@, name);
                            if 0 <= i < members@.len() {
                                members@[i].1.document()
                            } else {
                                JsonView::Null
                            }
                        },
                ),
            ),
        }
    }

    /// Whether the document can be written as text: it holds no number of
    /// the kind whose value is not kept, and holds with a sign only numbers
    /// below zero, so that each number has one way to be written down.
    pub open spec fn encodable(&self) -> bool
        decreases self,
    {
        match self {
            JsonValue::OtherNumber => false,
            JsonValue::Signed(n) => *n < 0,
            JsonValue::Array(items) => forall|i: int|
                0 <= i < items@.len() ==> (#[trigger] items@[i]).encodable(),
            JsonValue::Object(members) => forall|i: int|
                0 <= i < members@.len() ==> (#[trigger] members@[i]).1.encodable(),
            _ => true,
        }
    }
}

/// The mapping that the members of an object stand for: each name with the
/// document of the last member of that name.
pub open spec fn members_view(members: Seq<(String, JsonValue)>) -> Map<Seq<char>, JsonView> {
    Map::new(
        |name: Seq<char>| has_member(members, name),
        |name: Seq<char>|
            {
                let i = last_member(members, name);
                if 0 <= i < members.len() {
                    members[i].1@
                } else {
                    JsonView::Null
                }
            },
    )
}

/// Among members that include the name, there is a last one of that name.
pub proof fn lemma_last_member(members: Seq<(String, JsonValue)>, name: Seq<char>)
    requires
        has_member(members, name),
    ensures
        0 <= last_member(members, name) < members.len(),
        members[last_member(members, name)].0@ == name,
        forall|j: int|
            last_member(members, name) < j < members.len() ==> (#[trigger] members[j]).0@ != name,
    decreases members.len(),
{
    if members.last().0@ == name {
        let i = members.len() - 1;
        assert(0 <= i < members.len() && members[i].0@ == name && forall|j: int|
            i < j < members.len() ==> (#[trigger] members[j]).0@ != name);
    } else {
        let earlier = members.drop_last();
        let w = choose|i: int| 0 <= i < members.len() && (#[trigger] members[i]).0@ == name;
        assert(earlier[w].0@ == name);
        lemma_last_member(earlier, name);
        let i = last_member(earlier, name);
        assert(0 <= i < members.len() && members[i].0@ == name && forall|j: int|
            i < j < members.len() ==> (#[trigger] members[j]).0@ != name) by {
            assert forall|j: int| i < j < members.len() implies (#[trigger] members[j]).0@
                != name by {
                if j < earlier.len() {
                    assert(earlier[j].0@ != name);
                }
            }
        }
    }
}

/// An object stands for the mapping of its members.
pub proof fn lemma_object_view(members: Vec<(String, JsonValue)>)
    ensures
        JsonValue::Object(members)@ == JsonView::Object(members_view(members@)),
{
    reveal_with_fuel(JsonValue::document, 2);
    let left = JsonValue::Object(members)@->Object_0;
    assert forall|name: Seq<char>| has_member(members@, name) implies left[name] == members_view(
        members@,
    )[name] by {
        lemma_last_member(members@, name);
    }
    assert(left =~= members_view(members@));
}

/// The documents of the items of an array, in order.
pub open spec fn items_view(items: Seq<JsonValue>) -> Seq<JsonView> {
    Seq::new(items.len(), |i: int| items[i]@)
}

/// An array stands for the documents of its items.
pub proof fn lemma_array_view(items: Vec<JsonValue>)
    ensures
        JsonValue::Array(items)@ == JsonView::Array(items_view(items@)),
{
    reveal_with_fuel(JsonValue::document, 2);
    assert(JsonValue::Array(items)@->Array_0 =~= items_view(items@));
}

/// Appends a member to the members of an object.
pub fn push_member(members: &mut Vec<(String, JsonValue)>, name: &str, document: JsonValue)
    requires
        document.encodable(),
        forall|i: int| 0 <= i < old(members)@.len() ==> (#[trigger] old(members)@[i]).1.encodable(),
    ensures
        members_view(final(members)@) == members_view(old(members)@).insert(name@, document@),
        forall|i: int|
            0 <= i < final(members)@.len() ==> (#[trigger] final(members)@[i]).1.encodable(),
{
    let owned = name.to_owned();
    proof {
        lemma_members_push(members@, owned, document);
    }
    members.push((owned, document));
}

/// The object with the given members.
pub fn object_of(members: Vec<(String, JsonValue)>) -> (object: JsonValue)
    requires
        forall|i: int| 0 <= i < members@.len() ==> (#[trigger] members@[i]).1.encodable(),
    ensures
        object@ == JsonView::Object(members_view(members@)),
        object.encodable(),
{
    proof {
        lemma_object_view(members);
    }
    JsonValue::Object(members)
}

/// The text document with the given characters.
pub fn text_of(text: String) -> (document: JsonValue)
    ensures
        document@ == JsonView::Text(text@),
        document.encodable(),
{
    JsonValue::Text(text)
}

/// No members stand for the empty mapping.
pub proof fn lemma_members_empty(members: Seq<(String, JsonValue)>)
    requires
        members.len() == 0,
    ensures
        members_view(members) == Map::<Seq<char>, JsonView>::empty(),
{
    assert(members_view(members) =~= Map::<Seq<char>, JsonView>::empty());
}

/// One more member at the end adds its document to the mapping under its
/// name, in place of what stood there.
pub proof fn lemma_members_push(members: Seq<(String, JsonValue)>, name: String, document: JsonValue)
    ensures
        members_view(members.push((name, document))) == members_view(members).insert(
            name@,
            document@,
        ),
{
    let after = members.push((name, document));
    assert forall|key: Seq<char>| has_member(after, key) <==> (key == name@ || has_member(
        members,
        key,
    )) by {
        if has_member(after, key) {
            let i = choose|i: int| 0 <= i < after.len() && (#[trigger] after[i]).0@ == key;
            if i < members.len() {
                assert(members[i].0@ == key);
            }
        }
        if key == name@ {
            assert(after[members.len() as int].0@ == key);
        }
        if has_member(members, key) {
            let i = choose|i: int| 0 <= i < members.len() && (#[trigger] members[i]).0@ == key;
            assert(after[i].0@ == key);
        }
    }
    assert forall|key: Seq<char>| has_member(after, key) implies members_view(after)[key]
        == members_view(members).insert(name@, document@)[key] by {
        lemma_last_member(after, key);
        let i = last_member(after, key);
        if key == name@ {
            if i < members.len() {
                assert(after[members.len() as int].0@ != key);
            }
        } else {
            assert(i < members.len());
            lemma_last_member(members, key);
            let k = last_member(members, key);
            if i < k {
                assert(after[k].0@ != key);
            } else if k < i {
                assert(members[i].0@ != key);
            }
        }
    }
    assert(members_view(after) =~= members_view(members).insert(name@, document@));
}

/// `serde_json::Value`: a JSON document as serde_json holds it. Nothing of
/// its inside is looked into here.
#[verifier::external_type_specification]
#[verifier::external_body]
pub struct ExJsonDocument(serde_json::Value);

/// `serde_json::Error`: why serde_json refused to write a document. Only
/// that there is one is used.
#[verifier::external_type_specification]
#[verifier::external_body]
pub struct ExJsonError(serde_json::Error);

/// The document that a value of serde_json holds.
pub uninterp spec fn json_content(document: serde_json::Value) -> JsonView;

/// The text that `serde_json::to_string` gives for a document, where it
/// gives one.
pub uninterp spec fn json_text(document: JsonView) -> Option<Seq<char>>;

/// Builds the value of serde_json that holds the same document: variant by
/// variant, the members of an object put into its map one after the other
/// with `Map::insert`, so that the later of two members of one name counts.
#[verifier::external_body]
pub(crate) fn to_serde_value(value: &JsonValue) -> (document: serde_json::Value)
    requires
        value.encodable(),
    ensures
        json_content(document) == value@,
{
    match value {
        JsonValue::Null | JsonValue::OtherNumber => serde_json::Value::Null,
        JsonValue::Bool(b) => serde_json::Value::Bool(*b),
        JsonValue::Number(n) => serde_json::Value::Number((*n).into()),
        JsonValue::Signed(n) => serde_json::Value::Number((*n).into()),
        JsonValue::Text(text) => serde_json::Value::String(text.clone()),
        JsonValue::Array(items) => serde_json::Value::Array(items.iter().map(to_serde_value).collect()),
        JsonValue::Object(members) => {
            let mut map = serde_json::Map::new();
            for (name, member) in members {
                map.insert(name.clone(), to_serde_value(member));
            }
            serde_json::Value::Object(map)
        },
    }
}

/// `serde_json::to_string` on a value of serde_json: the text of the
/// document that it holds, or the error of serde_json.
#[verifier::external_body]
pub(crate) fn serde_to_string(document: &serde_json::Value) -> (text: Result<String, serde_json::Error>)
    ensures
        match text {
            Ok(text) => json_text(json_content(*document)) == Some(text@),
            Err(_) => json_text(json_content(*document)).is_none(),
        },
{
    serde_json::to_string(document)
}

/// Why a document could not be written as text.
#[derive(Clone, Copy, Debug, PartialEq, Eq, Structural)]
pub enum EncodeError {
    /// The encoder refused the document.
    Refused,
}

/// The text of a document, where the encoder gives one.
pub fn encode_json(value: &JsonValue) -> (text: Result<String, EncodeError>)
    requires
        value.encodable(),
    ensures
        match text {
            Ok(text) => json_text(value@) == Some(text@),
            Err(_) => json_text(value@).is_none(),
        },
{
    let document = to_serde_value(value);
    match serde_to_string(&document) {
        Ok(text) => Ok(text),
        Err(_) => Err(EncodeError::Refused),
    }
}

/// `simd_json::OwnedValue`: a JSON document as simd_json holds it. Nothing
/// of its inside is looked into here.
#[verifier::external_type_specification]
#[verifier::external_body]
pub struct ExParsedDocument(simd_json::OwnedValue);

/// `simd_json::Error`: why bytes are no JSON document. Only that there is
/// one is used.
#[verifier::external_type_specification]
#[verifier::external_body]
pub struct ExParseError(simd_json::Error);

/// `simd_json::to_owned_value` on a copy of its own of the bytes, which it
/// is free to overwrite: the document read, or the error of simd_json.
/// Nothing is claimed of which document comes out: where an object names a
/// member twice, the parser keeps both, and in which order it then holds
/// them differs from one run to the next.
#[verifier::external_body]
pub(crate) fn simd_parse(bytes: Vec<u8>) -> (document: Result<simd_json::OwnedValue, simd_json::Error>) {
    let mut bytes = bytes;
    simd_json::to_owned_value(&mut bytes)
}

/// Builds a document from a value of simd_json, variant by variant. A whole
/// number keeps its value, signed where simd_json holds it signed; of any
/// other number only its kind is kept. The members of an object come in the
/// order in which its map is walked. Nothing is claimed of the outcome.
#[verifier::external_body]
pub(crate) fn from_simd_value(document: &simd_json::OwnedValue) -> (value: JsonValue) {
    match document {
        OwnedValue::Static(StaticNode::Null) => JsonValue::Null,
        OwnedValue::Static(StaticNode::Bool(b)) => JsonValue::Bool(*b),
        OwnedValue::Static(StaticNode::U64(n)) => JsonValue::Number(*n),
        OwnedValue::Static(StaticNode::I64(n)) => JsonValue::Signed(*n),
        OwnedValue::Static(_) => JsonValue::OtherNumber,
        OwnedValue::String(text) => JsonValue::Text(text.clone()),
        OwnedValue::Array(items) => JsonValue::Array(items.iter().map(from_simd_value).collect()),
        OwnedValue::Object(members) => JsonValue::Object(
            members.iter().map(|(name, member)| (name.clone(), from_simd_value(member))).collect(),
        ),
    }
}

/// The document that the parser reads from bytes, where it reads one. What
/// it reads is the parser's affair: what is done with the document is stated
/// where the document is taken in.
pub fn parse_json(bytes: Vec<u8>) -> (value: Option<JsonValue>) {
    match simd_parse(bytes) {
        Ok(document) => Some(from_simd_value(&document)),
        Err(_) => None,
    }
}

/// The document of the last member of the given name, where there is one.
pub fn get_member<'a>(members: &'a Vec<(String, JsonValue)>, name: &str) -> (member: Option<
    &'a JsonValue,
>)
    ensures
        match member {
            Some(member) => members_view(members@).contains_key(name@) && member@ == members_view(
                members@,
            )[name@],
            None => !members_view(members@).contains_key(name@),
        },
{
    let wanted = name.to_owned();
    let mut i: usize = members.len();
    while i > 0
        invariant
            i <= members.len(),
            wanted@ == name@,
            forall|j: int| i <= j < members@.len() ==> (#[trigger] members@[j]).0@ != name@,
        decreases i,
    {
        i -= 1;
        if members[i].0 == wanted {
            proof {
                assert(has_member(members@, name@));
                lemma_last_member(members@, name@);
                let last = last_member(members@, name@);
                if last < i {
                    assert(members@[i as int].0@ != name@);
                } else if last > i {
                    assert(members@[last].0@ != name@);
                }
            }
            return Some(&members[i].1);
        }
    }
    proof {
        if has_member(members@, name@) {
            let w = choose|w: int| 0 <= w < members@.len() && (#[trigger] members@[w]).0@ == name@;
            assert(members@[w].0@ != name@);
        }
    }
    None
}

} // verus!
