//! Bencoded values, and their passage to bytes.

use vstd::prelude::*;

verus! {

/// A value that can be bencoded.
#[derive(Debug)]
pub enum BencodeValue {
    Bytes(Vec<u8>),
    Integer(i64),
    List(Vec<BencodeValue>),
    /// The entries of a dictionary, in the order written. Where a key stands
    /// twice, the later entry counts.
    Dict(Vec<(Vec<u8>, BencodeValue)>),
}

/// A value that can be bencoded, as mathematics sees it: a dictionary is a
/// mapping from keys to values.
pub enum BencodeView {
    Bytes(Seq<u8>),
    Integer(i64),
    List(Seq<BencodeView>),
    Dict(Map<Seq<u8>, BencodeView>),
}

/// The position of the last of `entries` with the given key.
pub open spec fn last_entry(entries: Seq<(Vec<u8>, BencodeValue)>, key: Seq<u8>) -> int {
    choose|i: int|
        0 <= i < entries.len() && entries[i].0@ == key && forall|j: int|
            i < j < entries.len() ==> (#[trigger] entries[j]).0@ != key
}

/// Whether one of `entries` has the given key.
pub open spec fn has_entry(entries: Seq<(Vec<u8>, BencodeValue)>, key: Seq<u8>) -> bool {
    exists|i: int| 0 <= i < entries.len() && (#[trigger] entries[i]).0@ == key
}

impl BencodeValue {
    /// The value as mathematics sees it.
    pub open spec fn value(&self) -> BencodeView
        decreases self,
    {
        match self {
            BencodeValue::Bytes(bytes) => BencodeView::Bytes(bytes@),
            BencodeValue::Integer(number) => BencodeView::Integer(*number),
            BencodeValue::List(items) => BencodeView::List(
                Seq::new(
                    items@.len(),
                    |i: int|
                        if 0 <= i < items@.len() {
                            items@[i].value()
                        } else {
                            BencodeView::Integer(0)
                        },
                ),
            ),
            BencodeValue::Dict(entries) => BencodeView::Dict(
                Map::new(
                    |key: Seq<u8>| has_entry(entries@, key),
                    |key: Seq<u8>|
                        {
                            let i = last_entry(entries@, key);
                            if 0 <= i < entries@.len() {
                                entries@[i].1.value()
                            } else {
                                BencodeView::Integer(0)
                            }
                        },
                ),
            ),
        }
    }
}

impl View for BencodeValue {
    type V = BencodeView;

    open spec fn view(&self) -> BencodeView {
        self.value()
    }
}

/// The mapping that the entries of a dictionary stand for: each key with
/// the value of the last entry of that key.
pub open spec fn entries_view(entries: Seq<(Vec<u8>, BencodeValue)>) -> Map<Seq<u8>, BencodeView> {
    Map::new(
        |key: Seq<u8>| has_entry(entries, key),
        |key: Seq<u8>|
            {
                let i = last_entry(entries, key);
                if 0 <= i < entries.len() {
                    entries[i].1@
                } else {
                    BencodeView::Integer(0)
                }
            },
    )
}

/// Among entries that include the key, there is a last one of that key.
pub proof fn lemma_last_entry(entries: Seq<(Vec<u8>, BencodeValue)>, key: Seq<u8>)
    requires
        has_entry(entries, key),
    ensures
        0 <= last_entry(entries, key) < entries.len(),
        entries[last_entry(entries, key)].0@ == key,
        forall|j: int|
            last_entry(entries, key) < j < entries.len() ==> (#[trigger] entries[j]).0@ != key,
    decreases entries.len(),
{
    if entries.last().0@ == key {
        let i = entries.len() - 1;
        assert(0 <= i < entries.len() && entries[i].0@ == key && forall|j: int|
            i < j < entries.len() ==> (#[trigger] entries[j]).0@ != key);
    } else {
        let earlier = entries.drop_last();
        let w = choose|i: int| 0 <= i < entries.len() && (#[trigger] entries[i]).0@ == key;
        assert(earlier[w].0@ == key);
        lemma_last_entry(earlier, key);
        let i = last_entry(earlier, key);
        assert(0 <= i < entries.len() && entries[i].0@ == key && forall|j: int|
            i < j < entries.len() ==> (#[trigger] entries[j]).0@ != key) by {
            assert forall|j: int| i < j < entries.len() implies (#[trigger] entries[j]).0@
                != key by {
                if j < earlier.len() {
                    assert(earlier[j].0@ != key);
                }
            }
        }
    }
}

/// A dictionary stands for the mapping of its entries.
pub proof fn lemma_dict_view(entries: Vec<(Vec<u8>, BencodeValue)>)
    ensures
        BencodeValue::Dict(entries)@ == BencodeView::Dict(entries_view(entries@)),
{
    reveal_with_fuel(BencodeValue::value, 2);
    let left = BencodeValue::Dict(entries)@->Dict_0;
    assert forall|key: Seq<u8>| has_entry(entries@, key) implies left[key] == entries_view(
        entries@,
    )[key] by {
        lemma_last_entry(entries@, key);
    }
    assert(left =~= entries_view(entries@));
}

/// No entries stand for the empty mapping.
pub proof fn lemma_entries_empty(entries: Seq<(Vec<u8>, BencodeValue)>)
    requires
        entries.len() == 0,
    ensures
        entries_view(entries) == Map::<Seq<u8>, BencodeView>::empty(),
{
    assert(entries_view(entries) =~= Map::<Seq<u8>, BencodeView>::empty());
}

/// One more entry at the end adds its value to the mapping under its key,
/// in place of what stood there.
pub proof fn lemma_entries_push(
    entries: Seq<(Vec<u8>, BencodeValue)>,
    key: Vec<u8>,
    value: BencodeValue,
)
    ensures
        entries_view(entries.push((key, value))) == entries_view(entries).insert(key@, value@),
{
    let after = entries.push((key, value));
    assert forall|k: Seq<u8>| has_entry(after, k) <==> (k == key@ || has_entry(entries, k)) by {
        if has_entry(after, k) {
            let i = choose|i: int| 0 <= i < after.len() && (#[trigger] after[i]).0@ == k;
            if i < entries.len() {
                assert(entries[i].0@ == k);
            }
        }
        if k == key@ {
            assert(after[entries.len() as int].0@ == k);
        }
        if has_entry(entries, k) {
            let i = choose|i: int| 0 <= i < entries.len() && (#[trigger] entries[i]).0@ == k;
            assert(after[i].0@ == k);
        }
    }
    assert forall|k: Seq<u8>| has_entry(after, k) implies entries_view(after)[k] == entries_view(
        entries,
    ).insert(key@, value@)[k] by {
        lemma_last_entry(after, k);
        let i = last_entry(after, k);
        if k == key@ {
            if i < entries.len() {
                assert(after[entries.len() as int].0@ != k);
            }
        } else {
            assert(i < entries.len());
            lemma_last_entry(entries, k);
            let e = last_entry(entries, k);
            if i < e {
                assert(after[e].0@ != k);
            } else if e < i {
                assert(entries[i].0@ != k);
            }
        }
    }
    assert(entries_view(after) =~= entries_view(entries).insert(key@, value@));
}

/// Appends an entry to the entries of a dictionary.
pub fn push_entry(entries: &mut Vec<(Vec<u8>, BencodeValue)>, key: Vec<u8>, value: BencodeValue)
    ensures
        entries_view(final(entries)@) == entries_view(old(entries)@).insert(key@, value@),
{
    proof {
        lemma_entries_push(entries@, key, value);
    }
    entries.push((key, value));
}

/// The dictionary with the given entries.
pub fn dict_of(entries: Vec<(Vec<u8>, BencodeValue)>) -> (dict: BencodeValue)
    ensures
        dict@ == BencodeView::Dict(entries_view(entries@)),
{
    proof {
        lemma_dict_view(entries);
    }
    BencodeValue::Dict(entries)
}

/// The byte string with the given bytes.
pub fn bytes_of(bytes: Vec<u8>) -> (value: BencodeValue)
    ensures
        value@ == BencodeView::Bytes(bytes@),
{
    BencodeValue::Bytes(bytes)
}

/// The integer with the given number.
pub fn integer_of(number: i64) -> (value: BencodeValue)
    ensures
        value@ == BencodeView::Integer(number),
{
    BencodeValue::Integer(number)
}

/// `bendy::value::Value`: a bencoded value as bendy holds it. Nothing of
/// its inside is looked into here.
#[verifier::external_type_specification]
#[verifier::external_body]
pub struct ExBendyValue<'a>(bendy::value::Value<'a>);

/// `bendy::encoding::Error`: why bendy refused to encode. Only that there
/// is one is used.
#[verifier::external_type_specification]
#[verifier::external_body]
pub struct ExBendyError(bendy::encoding::Error);

/// The value that a value of bendy holds.
pub uninterp spec fn bendy_content(value: bendy::value::Value<'static>) -> BencodeView;

/// The bytes that `ToBencode::to_bencode` of bendy gives for a value, where
/// it gives any.
pub uninterp spec fn bencode_bytes(value: BencodeView) -> Option<Seq<u8>>;

/// Builds the value of bendy that holds the same value: variant by variant,
/// the entries of a dictionary put into its map one after the other with
/// `BTreeMap::insert`, so that the later of two entries of one key counts.
#[verifier::external_body]
pub(crate) fn to_bendy_value(value: &BencodeValue) -> (converted: bendy::value::Value<'static>)
    ensures
        bendy_content(converted) == value@,
{
    match value {
        BencodeValue::Bytes(bytes) => bendy::value::Value::Bytes(bytes.clone().into()),
        BencodeValue::Integer(number) => bendy::value::Value::Integer(*number),
        BencodeValue::List(items) => bendy::value::Value::List(items.iter().map(to_bendy_value).collect()),
        BencodeValue::Dict(entries) => {
            let mut map = std::collections::BTreeMap::new();
            for (key, entry) in entries {
                map.insert(key.clone().into(), to_bendy_value(entry));
            }
            bendy::value::Value::Dict(map)
        },
    }
}

/// `ToBencode::to_bencode` of bendy on a value of bendy: the encoding of
/// the value that it holds, or the error of bendy.
#[verifier::external_body]
pub(crate) fn bendy_to_bencode(value: &bendy::value::Value<'static>) -> (bytes: Result<
    Vec<u8>,
    bendy::encoding::Error,
>)
    ensures
        match bytes {
            Ok(bytes) => bencode_bytes(bendy_content(*value)) == Some(bytes@),
            Err(_) => bencode_bytes(bendy_content(*value)).is_none(),
        },
{
    bendy::encoding::ToBencode::to_bencode(value)
}

/// The encoding of a value, where the encoder gives one.
pub fn encode_bencode(value: &BencodeValue) -> (bytes: Option<Vec<u8>>)
    ensures
        match bytes {
            Some(bytes) => bencode_bytes(value@) == Some(bytes@),
            None => bencode_bytes(value@).is_none(),
        },
{
    let converted = to_bendy_value(value);
    match bendy_to_bencode(&converted) {
        Ok(bytes) => Some(bytes),
        Err(_) => None,
    }
}

} // verus!
