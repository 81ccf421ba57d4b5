use vstd::prelude::*;
use crate::Error;
use crate::geometry::spec_geometry_valid;
use crate::geometry::geometry_valid;
use crate::values::spec_decode_value;
use crate::values::spec_type_of_code;
use crate::values::utf8_lossy;
use crate::values::utf8_lossy_of;
use crate::values::Value;
use crate::values::ValueModel;
use crate::values::ValueType;
use crate::wire::records_model;
use crate::wire::spec_body;
use crate::wire::parse_body;
use crate::wire::FeatureRecord;
use crate::wire::RecordModel;
use crate::wire::TagModel;

verus! {

/// One decoded feature: its geometry as validated well-known-binary bytes,
/// and its tags as a key-to-value mapping.  Keys are unique; when a block
/// carries the same key twice, the later tag has overwritten the earlier.
pub struct Feature {
    pub geometry: Vec<u8>,
    pub tags: Vec<(String, Value)>,
}

/// No two tag pairs carry the same key.
pub open spec fn unique_keys(s: Seq<(String, Value)>) -> bool {
    forall|i: int, j: int| 0 <= i < j < s.len() ==> s[i].0@ != s[j].0@
}

/// The mapping a pair sequence stands for: each pair inserted in order, so
/// a later pair with the same key wins.
pub open spec fn pairs_to_map(s: Seq<(String, Value)>) -> Map<Seq<char>, ValueModel>
    decreases s.len(),
{
    if s.len() == 0 {
        Map::empty()
    } else {
        pairs_to_map(s.drop_last()).insert(s.last().0@, s.last().1@)
    }
}

/// The mathematical shape of a `Feature`.
pub struct FeatureModel {
    pub geom: Seq<u8>,
    pub tags: Map<Seq<char>, ValueModel>,
}

impl View for Feature {
    type V = FeatureModel;

    open spec fn view(&self) -> FeatureModel {
        FeatureModel { geom: self.geometry@, tags: pairs_to_map(self.tags@) }
    }
}

/// The feature sequence a feature vector stands for.
pub open spec fn features_model(s: Seq<Feature>) -> Seq<FeatureModel> {
    s.map_values(|f: Feature| f@)
}

proof fn lemma_remove_then_insert(s: Seq<(String, Value)>, i: int, k: Seq<char>, v: ValueModel)
    requires
        0 <= i < s.len(),
        s[i].0@ == k,
        forall|j: int| 0 <= j < s.len() && j != i ==> s[j].0@ != k,
    ensures
        pairs_to_map(s.remove(i)).insert(k, v) == pairs_to_map(s).insert(k, v),
    decreases s.len(),
{
    if i == s.len() - 1 {
        assert(s.remove(i) =~= s.drop_last());
        assert(pairs_to_map(s).insert(k, v) =~= pairs_to_map(s.drop_last()).insert(k, v));
    } else {
        let k2 = s.last().0@;
        let v2 = s.last().1@;
        assert(k2 != k);
        assert(s.remove(i).drop_last() =~= s.drop_last().remove(i));
        assert(s.remove(i).last() == s.last());
        lemma_remove_then_insert(s.drop_last(), i, k, v);
        assert(pairs_to_map(s.remove(i)).insert(k, v)
            =~= pairs_to_map(s.drop_last().remove(i)).insert(k, v).insert(k2, v2));
        assert(pairs_to_map(s).insert(k, v)
            =~= pairs_to_map(s.drop_last()).insert(k, v).insert(k2, v2));
    }
}

/// Insert one tag, overwriting any earlier pair with the same key.
fn insert_tag(tags: &mut Vec<(String, Value)>, key: String, val: Value)
    requires
        unique_keys(old(tags)@),
    ensures
        unique_keys(final(tags)@),
        pairs_to_map(final(tags)@) == pairs_to_map(old(tags)@).insert(key@, val@),
{
    let ghost orig = tags@;
    let mut i: usize = 0;
    while i < tags.len()
        invariant
            i <= tags.len(),
            tags@ == orig,
            orig == old(tags)@,
            unique_keys(orig),
            forall|j: int| 0 <= j < i ==> orig[j].0@ != key@,
        decreases tags.len() - i,
    {
        if tags[i].0 == key {
            let ghost kk = key@;
            let ghost vv = val@;
            proof {
                lemma_remove_then_insert(orig, i as int, kk, vv);
            }
            tags.remove(i);
            tags.push((key, val));
            proof {
                assert(tags@.drop_last() =~= orig.remove(i as int));
                assert(pairs_to_map(tags@)
                    =~= pairs_to_map(orig.remove(i as int)).insert(kk, vv));
                assert forall|a: int, b: int| 0 <= a < b < tags@.len() implies tags@[a].0@
                    != tags@[b].0@ by {
                    if b < tags@.len() - 1 {
                        assert(tags@[a] == (if a < i { orig[a] } else { orig[a + 1] }));
                        assert(tags@[b] == (if b < i { orig[b] } else { orig[b + 1] }));
                    } else {
                        assert(tags@[a] == (if a < i { orig[a] } else { orig[a + 1] }));
                        assert(tags@[b].0@ == kk);
                    }
                }
            }
            return ;
        }
        i = i + 1;
    }
    tags.push((key, val));
    proof {
        assert(tags@.drop_last() =~= orig);
        assert forall|a: int, b: int| 0 <= a < b < tags@.len() implies tags@[a].0@
            != tags@[b].0@ by {
            if b == tags@.len() - 1 {
                assert(orig[a].0@ != key@);
            }
        }
    }
}

/// What one tag record decodes to: its code must name a value type, and the
/// raw bytes must decode under that type.
pub open spec fn spec_tag_value(t: TagModel) -> Option<ValueModel> {
    match spec_type_of_code(t.code) {
        None => None,
        Some(ty) => spec_decode_value(t.value, ty),
    }
}

/// The mapping an ordered tag-record sequence decodes to, later keys
/// overwriting earlier ones; `None` as soon as one tag is malformed.
pub open spec fn spec_tags_map(ts: Seq<TagModel>) -> Option<Map<Seq<char>, ValueModel>>
    decreases ts.len(),
{
    if ts.len() == 0 {
        Some(Map::empty())
    } else {
        match (spec_tags_map(ts.drop_last()), spec_tag_value(ts.last())) {
            (Some(m), Some(v)) => Some(m.insert(utf8_lossy_of(ts.last().key), v)),
            _ => None,
        }
    }
}

proof fn lemma_tags_map_none(ts: Seq<TagModel>, j: int)
    requires
        0 <= j < ts.len(),
        spec_tag_value(ts[j]) is None,
    ensures
        spec_tags_map(ts) is None,
    decreases ts.len(),
{
    if j < ts.len() - 1 {
        lemma_tags_map_none(ts.drop_last(), j);
    }
}

/// What one feature record translates to: a structurally valid geometry and
/// a decoded tag mapping.
pub open spec fn spec_translate_one(rec: RecordModel) -> Option<FeatureModel> {
    if !spec_geometry_valid(rec.geom) {
        None
    } else {
        match spec_tags_map(rec.tags) {
            None => None,
            Some(m) => Some(FeatureModel { geom: rec.geom, tags: m }),
        }
    }
}

/// What a record sequence translates to, in order; `None` as soon as one
/// record is malformed.
pub open spec fn spec_translate(recs: Seq<RecordModel>) -> Option<Seq<FeatureModel>>
    decreases recs.len(),
{
    if recs.len() == 0 {
        Some(Seq::empty())
    } else {
        match (spec_translate(recs.drop_last()), spec_translate_one(recs.last())) {
            (Some(prefix), Some(f)) => Some(prefix.push(f)),
            _ => None,
        }
    }
}

proof fn lemma_translate_none(recs: Seq<RecordModel>, j: int)
    requires
        0 <= j < recs.len(),
        spec_translate_one(recs[j]) is None,
    ensures
        spec_translate(recs) is None,
    decreases recs.len(),
{
    if j < recs.len() - 1 {
        lemma_translate_none(recs.drop_last(), j);
    }
}

/// Translate one record into a feature.
fn translate_record(rec: &FeatureRecord) -> (r: Result<Feature, Error>)
    ensures
        match spec_translate_one(rec@) {
            None => r == Err::<Feature, Error>(Error::Format),
            Some(fm) => r matches Ok(f) && f@ == fm && f.geometry@ == rec@.geom
                && unique_keys(f.tags@),
        },
{
    if !geometry_valid(&rec.geom) {
        return Err(Error::Format);
    }
    let ghost ts = crate::wire::tags_model(rec.tags@);
    let mut tags: Vec<(String, Value)> = Vec::new();
    let mut i: usize = 0;
    proof {
        assert(ts.take(0) =~= Seq::<TagModel>::empty());
        assert(spec_tags_map(ts.take(0)) == Some(pairs_to_map(tags@)));
    }
    while i < rec.tags.len()
        invariant
            i <= rec.tags.len(),
            ts == crate::wire::tags_model(rec.tags@),
            spec_tags_map(ts.take(i as int)) == Some(pairs_to_map(tags@)),
            unique_keys(tags@),
        decreases rec.tags.len() - i,
    {
        proof {
            assert(ts[i as int] == rec.tags@[i as int]@);
        }
        let ty = match ValueType::from_code(rec.tags[i].code) {
            None => {
                proof {
                    lemma_tags_map_none(ts, i as int);
                }
                return Err(Error::Format);
            },
            Some(t) => t,
        };
        let val = match Value::from_bytes(rec.tags[i].value.clone(), ty) {
            Err(_) => {
                proof {
                    lemma_tags_map_none(ts, i as int);
                }
                return Err(Error::Format);
            },
            Ok(v) => v,
        };
        let key = utf8_lossy(rec.tags[i].key.as_slice());
        let ghost prev = pairs_to_map(tags@);
        insert_tag(&mut tags, key, val);
        proof {
            assert(ts.take(i + 1).drop_last() =~= ts.take(i as int));
            assert(ts.take(i + 1).last() == ts[i as int]);
            assert(spec_tags_map(ts.take(i + 1))
                == Some(prev.insert(utf8_lossy_of(ts[i as int].key), val@)));
        }
        i = i + 1;
    }
    proof {
        assert(ts.take(rec.tags@.len() as int) =~= ts);
    }
    Ok(Feature { geometry: rec.geom.clone(), tags })
}

/// Translate a decoded record sequence into features, one per record and in
/// record order.
pub fn translate(records: &Vec<FeatureRecord>) -> (r: Result<Vec<Feature>, Error>)
    ensures
        match spec_translate(records_model(records@)) {
            None => r == Err::<Vec<Feature>, Error>(Error::Format),
            Some(fms) => r matches Ok(out) && features_model(out@) == fms
                && out@.len() == records@.len()
                && (forall|i: int| 0 <= i < out@.len() ==> unique_keys(#[trigger] out@[i].tags@)),
        },
{
    let ghost rs = records_model(records@);
    let mut out: Vec<Feature> = Vec::new();
    let mut i: usize = 0;
    proof {
        assert(rs.take(0) =~= Seq::<RecordModel>::empty());
        assert(features_model(out@) =~= Seq::<FeatureModel>::empty());
    }
    while i < records.len()
        invariant
            i <= records.len(),
            rs == records_model(records@),
            out@.len() == i,
            spec_translate(rs.take(i as int)) == Some(features_model(out@)),
            forall|j: int| 0 <= j < out@.len() ==> unique_keys(#[trigger] out@[j].tags@),
        decreases records.len() - i,
    {
        proof {
            assert(rs[i as int] == records@[i as int]@);
        }
        let ghost prev = features_model(out@);
        let f = match translate_record(&records[i]) {
            Err(e) => {
                proof {
                    lemma_translate_none(rs, i as int);
                }
                return Err(e);
            },
            Ok(f) => f,
        };
        let ghost fm = f@;
        out.push(f);
        proof {
            assert(rs.take(i + 1).drop_last() =~= rs.take(i as int));
            assert(rs.take(i + 1).last() == rs[i as int]);
            assert(features_model(out@) =~= prev.push(fm));
        }
        i = i + 1;
    }
    proof {
        assert(rs.take(records@.len() as int) =~= rs);
    }
    Ok(out)
}

/// What decoding a whole block body into features yields.
pub open spec fn spec_read_body(s: Seq<u8>) -> Option<Seq<FeatureModel>> {
    match spec_body(s) {
        None => None,
        Some(recs) => spec_translate(recs),
    }
}

/// Decode one block body: parse the nested message and translate every
/// feature record, in order.  A malformed message, an invalid geometry, an
/// unrecognized value-type code or an undersized value buffer is a format
/// error.
pub fn read_body(v: Vec<u8>) -> (r: Result<Vec<Feature>, Error>)
    ensures
        match spec_read_body(v@) {
            None => r == Err::<Vec<Feature>, Error>(Error::Format),
            Some(fms) => r matches Ok(out) && features_model(out@) == fms
                && (forall|i: int| 0 <= i < out@.len() ==> unique_keys(#[trigger] out@[i].tags@)),
        },
{
    let records = match parse_body(&v) {
        Err(e) => { return Err(e); },
        Ok(x) => x,
    };
    translate(&records)
}

} // verus!
