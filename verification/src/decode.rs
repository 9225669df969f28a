//! Decoding a queue notification into jobs.
//!
//! A notification body names zero or more uploaded objects, each as a
//! record holding a source-bucket object: the bucket's name and the
//! object's key.  Decoding parses the body against the grammar in
//! [`crate::json`] and reads those fields, ignoring any other field it
//! finds on the way.  A body that does not parse, or parses to
//! something without that shape, is rejected and yields no job at all.

use vstd::prelude::*;
use crate::json::{
    JsonNode, JsonValue, chars_of_str, entry_models_of, json_doc, lemma_entry_models_of_index,
    lemma_models_of_index, models_of, parse_document,
};
use crate::registry::VideoMessage;

verus! {

/// Why a notification body was rejected.
#[derive(Clone, Copy, Debug, PartialEq, Eq, Structural)]
pub enum DecodeError {
    /// The body is not a document of the grammar.
    Syntax,
    /// The body parses but does not have the notification shape.
    Schema,
}

/// The first entry named `k` at or after position `i`.
pub open spec fn obj_get_from(
    es: Seq<(Seq<char>, JsonValue)>,
    k: Seq<char>,
    i: int,
) -> Option<JsonValue>
    decreases es.len() - i,
{
    if i < 0 || i >= es.len() {
        None
    } else if es[i].0 == k {
        Some(es[i].1)
    } else {
        obj_get_from(es, k, i + 1)
    }
}

/// The value of the first entry named `k`, if there is one.
pub open spec fn obj_get(es: Seq<(Seq<char>, JsonValue)>, k: Seq<char>) -> Option<JsonValue> {
    obj_get_from(es, k, 0)
}

/// One record's source fields: the bucket name and the object key, read
/// from `record.s3.bucket.name` and `record.s3.object.key`.
pub open spec fn record_fields(v: JsonValue) -> Option<(Seq<char>, Seq<char>)> {
    match v {
        JsonValue::Obj(es) => match obj_get(es, "s3"@) {
            Some(JsonValue::Obj(s3)) => match (obj_get(s3, "bucket"@), obj_get(s3, "object"@)) {
                (Some(JsonValue::Obj(b)), Some(JsonValue::Obj(o))) => match (
                    obj_get(b, "name"@),
                    obj_get(o, "key"@),
                ) {
                    (Some(JsonValue::Text(bn)), Some(JsonValue::Text(k))) => Some((bn, k)),
                    _ => None,
                },
                _ => None,
            },
            _ => None,
        },
        _ => None,
    }
}

/// What a whole body decodes to: the records' source fields in order,
/// or the error saying why the body was rejected.  A body whose `records`
/// field is missing, is no array, or holds a record without its source
/// fields does not have the notification shape.
pub open spec fn decode_model(s: Seq<char>) -> Result<Seq<(Seq<char>, Seq<char>)>, DecodeError> {
    match json_doc(s) {
        None => Err(DecodeError::Syntax),
        Some(v) => match v {
            JsonValue::Obj(es) => match obj_get(es, "records"@) {
                Some(JsonValue::Arr(rs)) => if forall|i: int|
                    0 <= i < rs.len() ==> record_fields(rs[i]) is Some {
                    Ok(Seq::new(rs.len(), |i: int| record_fields(rs[i])->0))
                } else {
                    Err(DecodeError::Schema)
                },
                _ => Err(DecodeError::Schema),
            },
            _ => Err(DecodeError::Schema),
        },
    }
}

/// One decoded record: where the uploaded object sits.
#[derive(Debug)]
pub struct SourceRecord {
    pub bucket: String,
    pub key: String,
}

/// The records' views, in order.
pub open spec fn record_views(rs: Seq<SourceRecord>) -> Seq<(Seq<char>, Seq<char>)> {
    Seq::new(rs.len(), |i: int| (rs[i].bucket@, rs[i].key@))
}

/// Relies on `Iterator::collect` of std building a `String` from
/// characters: the result holds exactly the characters of `v`, in
/// order.
#[verifier::external_body]
fn string_of_chars(v: &Vec<char>) -> (r: String)
    ensures
        r@ == v@,
{
    v.iter().collect()
}

/// Whether the characters of `v` are exactly the characters of `s`.
fn chars_eq_str(v: &Vec<char>, s: &str) -> (r: bool)
    ensures
        r == (v@ == s@),
{
    let n = s.unicode_len();
    if v.len() != n {
        proof {
            assert(v@ != s@) by {
                assert(v@.len() != s@.len());
            }
        }
        return false;
    }
    let mut i: usize = 0;
    while i < n
        invariant
            i <= n,
            n == s@.len(),
            v@.len() == n,
            forall|j: int| 0 <= j < i ==> v@[j] == s@[j],
        decreases n - i,
    {
        if v[i] != s.get_char(i) {
            proof {
                assert(v@ != s@) by {
                    assert(v@[i as int] != s@[i as int]);
                }
            }
            return false;
        }
        i = i + 1;
    }
    proof {
        assert(v@ =~= s@);
    }
    true
}

/// The object entry named `key`, if there is one.
fn node_obj_get<'a>(es: &'a Vec<(Vec<char>, JsonNode)>, key: &str) -> (r: Option<&'a JsonNode>)
    ensures
        match r {
            Some(n) => obj_get(entry_models_of(es@), key@) == Some(n.model()),
            None => obj_get(entry_models_of(es@), key@) is None,
        },
{
    proof {
        lemma_entry_models_of_index(es@);
    }
    let ghost m = entry_models_of(es@);
    let mut i: usize = 0;
    while i < es.len()
        invariant
            i <= es@.len(),
            m == entry_models_of(es@),
            m.len() == es@.len(),
            forall|j: int| 0 <= j < es@.len() ==> m[j] == (es@[j].0@, es@[j].1.model()),
            obj_get_from(m, key@, 0) == obj_get_from(m, key@, i as int),
        decreases es@.len() - i,
    {
        let entry = &es[i];
        if chars_eq_str(&entry.0, key) {
            proof {
                assert(obj_get_from(m, key@, i as int) == Some(m[i as int].1));
            }
            return Some(&entry.1);
        }
        proof {
            assert(m[i as int].0 != key@);
            assert(obj_get_from(m, key@, i as int) == obj_get_from(m, key@, i as int + 1));
        }
        i = i + 1;
    }
    None
}

/// The entries of an object node, or nothing when the node is none.
fn as_obj<'a>(n: &'a JsonNode) -> (r: Option<&'a Vec<(Vec<char>, JsonNode)>>)
    ensures
        match r {
            Some(es) => n.model() == JsonValue::Obj(entry_models_of(es@)),
            None => !(n.model() is Obj),
        },
{
    match n {
        JsonNode::Obj(es) => Some(es),
        JsonNode::Null => None,
        JsonNode::Bool(_) => None,
        JsonNode::Number => None,
        JsonNode::Text(_) => None,
        JsonNode::Arr(_) => None,
    }
}

/// The elements of an array node, or nothing when the node is none.
fn as_arr<'a>(n: &'a JsonNode) -> (r: Option<&'a Vec<JsonNode>>)
    ensures
        match r {
            Some(items) => n.model() == JsonValue::Arr(models_of(items@)),
            None => !(n.model() is Arr),
        },
{
    match n {
        JsonNode::Arr(items) => Some(items),
        JsonNode::Null => None,
        JsonNode::Bool(_) => None,
        JsonNode::Number => None,
        JsonNode::Text(_) => None,
        JsonNode::Obj(_) => None,
    }
}

/// The characters of a string node, or nothing when the node is none.
fn as_text<'a>(n: &'a JsonNode) -> (r: Option<&'a Vec<char>>)
    ensures
        match r {
            Some(t) => n.model() == JsonValue::Text(t@),
            None => !(n.model() is Text),
        },
{
    match n {
        JsonNode::Text(t) => Some(t),
        JsonNode::Null => None,
        JsonNode::Bool(_) => None,
        JsonNode::Number => None,
        JsonNode::Arr(_) => None,
        JsonNode::Obj(_) => None,
    }
}

/// The source fields of one record node, when it has them.
fn record_of_node(n: &JsonNode) -> (r: Option<(String, String)>)
    ensures
        match r {
            Some(p) => record_fields(n.model()) == Some((p.0@, p.1@)),
            None => record_fields(n.model()) is None,
        },
{
    let es = match as_obj(n) {
        Some(es) => es,
        None => {
            return None;
        },
    };
    let s3 = match node_obj_get(es, "s3") {
        Some(x) => x,
        None => {
            return None;
        },
    };
    let s3es = match as_obj(s3) {
        Some(x) => x,
        None => {
            return None;
        },
    };
    let bucket_node = match node_obj_get(s3es, "bucket") {
        Some(x) => x,
        None => {
            return None;
        },
    };
    let object_node = match node_obj_get(s3es, "object") {
        Some(x) => x,
        None => {
            return None;
        },
    };
    let bes = match as_obj(bucket_node) {
        Some(x) => x,
        None => {
            return None;
        },
    };
    let oes = match as_obj(object_node) {
        Some(x) => x,
        None => {
            return None;
        },
    };
    let name_node = match node_obj_get(bes, "name") {
        Some(x) => x,
        None => {
            return None;
        },
    };
    let key_node = match node_obj_get(oes, "key") {
        Some(x) => x,
        None => {
            return None;
        },
    };
    let bn = match as_text(name_node) {
        Some(x) => x,
        None => {
            return None;
        },
    };
    let k = match as_text(key_node) {
        Some(x) => x,
        None => {
            return None;
        },
    };
    Some((string_of_chars(bn), string_of_chars(k)))
}

/// Decodes a notification body: exactly what [`decode_model`] says on
/// the same characters.  Success yields the records in body order; a
/// rejected body yields the error saying why, and no record.
pub fn decode(body: &str) -> (r: Result<Vec<SourceRecord>, DecodeError>)
    ensures
        match r {
            Ok(v) => decode_model(body@) == Ok::<Seq<(Seq<char>, Seq<char>)>, DecodeError>(
                record_views(v@),
            ),
            Err(e) => decode_model(body@) == Err::<Seq<(Seq<char>, Seq<char>)>, DecodeError>(e),
        },
{
    let cs = chars_of_str(body);
    let node = match parse_document(&cs) {
        Some(n) => n,
        None => {
            return Err(DecodeError::Syntax);
        },
    };
    let entries = match as_obj(&node) {
        Some(es) => es,
        None => {
            return Err(DecodeError::Schema);
        },
    };
    let records_node = match node_obj_get(entries, "records") {
        Some(x) => x,
        None => {
            return Err(DecodeError::Schema);
        },
    };
    let items = match as_arr(records_node) {
        Some(x) => x,
        None => {
            return Err(DecodeError::Schema);
        },
    };
    let ghost rs = models_of(items@);
    proof {
        lemma_models_of_index(items@);
    }
    let mut out: Vec<SourceRecord> = Vec::new();
    let mut i: usize = 0;
    while i < items.len()
        invariant
            i <= items@.len(),
            out@.len() == i,
            json_doc(body@) == Some(JsonValue::Obj(entry_models_of(entries@))),
            obj_get(entry_models_of(entries@), "records"@) == Some(JsonValue::Arr(rs)),
            rs == models_of(items@),
            rs.len() == items@.len(),
            forall|j: int| 0 <= j < items@.len() ==> rs[j] == items@[j].model(),
            forall|j: int|
                0 <= j < i ==> record_fields(rs[j]) == Some(
                    (out@[j].bucket@, out@[j].key@),
                ),
        decreases items@.len() - i,
    {
        match record_of_node(&items[i]) {
            Some(p) => {
                out.push(SourceRecord { bucket: p.0, key: p.1 });
            },
            None => {
                proof {
                    assert(json_doc(body@) == Some(
                        JsonValue::Obj(entry_models_of(entries@)),
                    ));
                    assert(obj_get(entry_models_of(entries@), "records"@) == Some(
                        JsonValue::Arr(rs),
                    ));
                    assert(!(forall|j: int| 0 <= j < rs.len() ==> record_fields(rs[j]) is Some))
                        by {
                        assert((i as int) < rs.len());
                        assert(record_fields(rs[i as int]) is None);
                    }
                    assert(decode_model(body@) == Err::<Seq<(Seq<char>, Seq<char>)>, DecodeError>(
                        DecodeError::Schema,
                    ));
                }
                return Err(DecodeError::Schema);
            },
        }
        i = i + 1;
    }
    proof {
        assert(forall|j: int| 0 <= j < rs.len() ==> record_fields(rs[j]) is Some);
        assert(record_views(out@) =~= Seq::new(rs.len(), |j: int| record_fields(rs[j])->0));
    }
    Ok(out)
}

/// Decodes a body and stamps every job with the message's ack token:
/// one job per record, in body order, each keeping the record's bucket
/// and key; a rejected body yields the error and no job.
pub fn jobs_from_event(body: &str, receipt: &str) -> (r: Result<Vec<VideoMessage>, DecodeError>)
    ensures
        match r {
            Ok(jobs) => decode_model(body@) is Ok && {
                let rs = decode_model(body@)->Ok_0;
                &&& jobs@.len() == rs.len()
                &&& forall|i: int|
                    0 <= i < rs.len() ==> jobs@[i].bucket@ == rs[i].0 && jobs@[i].key@ == rs[i].1
                        && jobs@[i].receipt_handle@ == receipt@
            },
            Err(e) => decode_model(body@) == Err::<Seq<(Seq<char>, Seq<char>)>, DecodeError>(e),
        },
{
    let recs = match decode(body) {
        Ok(v) => v,
        Err(e) => {
            return Err(e);
        },
    };
    let mut jobs: Vec<VideoMessage> = Vec::new();
    let mut i: usize = 0;
    while i < recs.len()
        invariant
            i <= recs@.len(),
            jobs@.len() == i,
            decode_model(body@) == Ok::<Seq<(Seq<char>, Seq<char>)>, DecodeError>(
                record_views(recs@),
            ),
            forall|j: int|
                0 <= j < i ==> jobs@[j].bucket@ == recs@[j].bucket@ && jobs@[j].key@
                    == recs@[j].key@ && jobs@[j].receipt_handle@ == receipt@,
        decreases recs@.len() - i,
    {
        let rec = &recs[i];
        jobs.push(
            VideoMessage {
                bucket: rec.bucket.clone(),
                key: rec.key.clone(),
                receipt_handle: receipt.to_owned(),
            },
        );
        i = i + 1;
    }
    proof {
        assert(record_views(recs@).len() == recs@.len());
        assert(forall|j: int|
            0 <= j < recs@.len() ==> record_views(recs@)[j] == (recs@[j].bucket@, recs@[j].key@));
    }
    Ok(jobs)
}

/// For every valid payload, decoding yields exactly one record per
/// entry of the `records` array, each preserving that entry's bucket
/// name and object key unchanged.
pub proof fn lemma_decode_preserves_records(
    s: Seq<char>,
    es: Seq<(Seq<char>, JsonValue)>,
    rs: Seq<JsonValue>,
)
    requires
        json_doc(s) == Some(JsonValue::Obj(es)),
        obj_get(es, "records"@) == Some(JsonValue::Arr(rs)),
        forall|i: int| 0 <= i < rs.len() ==> record_fields(#[trigger] rs[i]) is Some,
    ensures
        decode_model(s) is Ok,
        decode_model(s)->Ok_0.len() == rs.len(),
        forall|i: int| 0 <= i < rs.len() ==> decode_model(s)->Ok_0[i] == record_fields(rs[i])->0,
{
}

} // verus!
