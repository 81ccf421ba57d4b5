use vstd::prelude::*;
use crate::Error;

verus! {

// The block payload is a nested message in a tagged wire encoding: a
// sequence of fields, each opened by a varint key that packs a field number
// and a wire kind.  The decoder understands the two wire kinds the schema
// uses — varint words and length-delimited chunks — and skips fields with
// numbers it does not know, so that a payload written by a newer producer
// still decodes.

/// The value of a base-128 varint starting at `pos`: the low seven bits of
/// each byte, least significant group first, ending at the first byte
/// without the continuation bit.  `None` when the sequence runs out before a
/// terminating byte.  The value is unbounded here; users reject values that
/// do not fit in 64 bits.
pub open spec fn spec_varint(s: Seq<u8>, pos: int) -> Option<(nat, int)>
    decreases s.len() - pos,
{
    if pos < 0 || pos >= s.len() {
        None
    } else if s[pos] < 128 {
        Some((s[pos] as nat, pos + 1))
    } else {
        match spec_varint(s, pos + 1) {
            None => None,
            Some((v, end)) => Some(((s[pos] - 128) as nat + 128 * v, end)),
        }
    }
}

/// A decoded varint ends past where it starts and within the sequence.
pub proof fn lemma_varint_bounds(s: Seq<u8>, pos: int)
    requires
        spec_varint(s, pos) is Some,
    ensures
        pos < spec_varint(s, pos).unwrap().1 <= s.len(),
    decreases s.len() - pos,
{
    if s[pos] >= 128 {
        lemma_varint_bounds(s, pos + 1);
    }
}

/// One decoded field: a number and either a 64-bit word or a byte chunk.
pub struct FieldModel {
    pub num: u64,
    pub val: FieldVal,
}

pub enum FieldVal {
    Word(u64),
    Chunk(Seq<u8>),
}

/// The field starting at `pos`: a varint key whose low three bits pick the
/// wire kind (0 a varint word, 2 a length-prefixed chunk) and whose
/// remaining bits are the field number, which must not be zero.  Any other
/// wire kind, an oversized varint, or a chunk longer than the bytes left is
/// malformed.
pub open spec fn spec_field(s: Seq<u8>, pos: int) -> Option<(FieldModel, int)> {
    match spec_varint(s, pos) {
        None => None,
        Some((key, p1)) => {
            if key >= 0x10000000000000000 || key / 8 == 0 {
                None
            } else {
                let num = (key / 8) as u64;
                if key % 8 == 0 {
                    match spec_varint(s, p1) {
                        None => None,
                        Some((v, p2)) => {
                            if v < 0x10000000000000000 {
                                Some((FieldModel { num, val: FieldVal::Word(v as u64) }, p2))
                            } else {
                                None
                            }
                        },
                    }
                } else if key % 8 == 2 {
                    match spec_varint(s, p1) {
                        None => None,
                        Some((n, p2)) => {
                            if n <= s.len() - p2 {
                                Some((
                                    FieldModel { num, val: FieldVal::Chunk(s.subrange(p2, p2 + n)) },
                                    p2 + n,
                                ))
                            } else {
                                None
                            }
                        },
                    }
                } else {
                    None
                }
            }
        },
    }
}

/// All fields of a message: the whole byte sequence from `pos` on, split
/// into consecutive fields.
pub open spec fn spec_fields(s: Seq<u8>, pos: int) -> Option<Seq<FieldModel>>
    decreases s.len() - pos,
{
    if pos == s.len() {
        Some(Seq::empty())
    } else {
        match spec_field(s, pos) {
            None => None,
            Some((f, end)) => {
                if pos < end <= s.len() {
                    match spec_fields(s, end) {
                        None => None,
                        Some(rest) => Some(seq![f] + rest),
                    }
                } else {
                    None
                }
            },
        }
    }
}

/// A decoded field as executable data.
pub struct RawField {
    pub num: u64,
    pub val: RawValue,
}

pub enum RawValue {
    Word(u64),
    Chunk(Vec<u8>),
}

impl View for RawField {
    type V = FieldModel;

    open spec fn view(&self) -> FieldModel {
        FieldModel {
            num: self.num,
            val: match self.val {
                RawValue::Word(w) => FieldVal::Word(w),
                RawValue::Chunk(c) => FieldVal::Chunk(c@),
            },
        }
    }
}

/// The field sequence a raw field vector stands for.
pub open spec fn fields_model(s: Seq<RawField>) -> Seq<FieldModel> {
    s.map_values(|f: RawField| f@)
}

/// Decode the varint at `pos`.  Fails on a truncated varint and on a value
/// that does not fit in 64 bits.
fn parse_varint(v: &Vec<u8>, pos: usize) -> (r: Result<(u64, usize), Error>)
    ensures
        match spec_varint(v@, pos as int) {
            None => r == Err::<(u64, usize), Error>(Error::Format),
            Some((val, end)) => {
                if val < 0x10000000000000000 {
                    r matches Ok((x, e)) && x == val && e == end && pos < end <= v@.len()
                } else {
                    r == Err::<(u64, usize), Error>(Error::Format)
                }
            },
        },
    decreases v.len() - pos,
{
    if pos >= v.len() {
        return Err(Error::Format);
    }
    let b = v[pos];
    if b < 128 {
        Ok((b as u64, pos + 1))
    } else {
        match parse_varint(v, pos + 1) {
            Err(e) => Err(e),
            Ok((rest, end)) => {
                if rest > 0x1ffffffffffffff {
                    Err(Error::Format)
                } else {
                    Ok(((b - 128) as u64 + 128 * rest, end))
                }
            },
        }
    }
}

/// Decode the field at `pos`.
fn parse_field(v: &Vec<u8>, pos: usize) -> (r: Result<(RawField, usize), Error>)
    ensures
        match spec_field(v@, pos as int) {
            None => r == Err::<(RawField, usize), Error>(Error::Format),
            Some((f, end)) => r matches Ok((rf, e)) && rf@ == f && e == end
                && pos < end <= v@.len(),
        },
{
    let buf_len = v.len();
    proof {
        assert(v@.len() == buf_len && buf_len < 0x10000000000000000);
    }
    let (key, p1) = match parse_varint(v, pos) {
        Err(e) => { return Err(e); },
        Ok(x) => x,
    };
    let num = key / 8;
    if num == 0 {
        return Err(Error::Format);
    }
    let kind = key % 8;
    if kind == 0 {
        let (w, p2) = match parse_varint(v, p1) {
            Err(e) => { return Err(e); },
            Ok(x) => x,
        };
        Ok((RawField { num, val: RawValue::Word(w) }, p2))
    } else if kind == 2 {
        let (n, p2) = match parse_varint(v, p1) {
            Err(e) => {
                proof {
                    if spec_varint(v@, p1 as int) is Some {
                        lemma_varint_bounds(v@, p1 as int);
                    }
                }
                return Err(e);
            },
            Ok(x) => x,
        };
        if n <= (v.len() - p2) as u64 {
            let n_us: usize = n as usize;
            let chunk = vstd::slice::slice_to_vec(
                vstd::slice::slice_subrange(v.as_slice(), p2, p2 + n_us),
            );
            proof {
                assert(chunk@ =~= v@.subrange(p2 as int, p2 + n as int));
            }
            Ok((RawField { num, val: RawValue::Chunk(chunk) }, p2 + n_us))
        } else {
            Err(Error::Format)
        }
    } else {
        Err(Error::Format)
    }
}

/// Decode every field from `pos` to the end of the buffer.
fn parse_fields(v: &Vec<u8>, pos: usize) -> (r: Result<Vec<RawField>, Error>)
    requires
        pos <= v.len(),
    ensures
        match spec_fields(v@, pos as int) {
            None => r == Err::<Vec<RawField>, Error>(Error::Format),
            Some(fs) => r matches Ok(out) && fields_model(out@) == fs,
        },
    decreases v.len() - pos,
{
    if pos == v.len() {
        let out: Vec<RawField> = Vec::new();
        proof {
            assert(fields_model(out@) =~= Seq::<FieldModel>::empty());
        }
        Ok(out)
    } else {
        let (f, end) = match parse_field(v, pos) {
            Err(e) => { return Err(e); },
            Ok(x) => x,
        };
        let mut rest = match parse_fields(v, end) {
            Err(e) => { return Err(e); },
            Ok(x) => x,
        };
        let ghost rest_model = fields_model(rest@);
        let ghost f_model = f@;
        rest.insert(0, f);
        proof {
            assert(fields_model(rest@) =~= seq![f_model] + rest_model);
        }
        Ok(rest)
    }
}

/// The last chunk carried by a field with the given number, or the empty
/// chunk when no such field occurs.
pub open spec fn spec_last_chunk(fs: Seq<FieldModel>, num: u64) -> Seq<u8>
    decreases fs.len(),
{
    if fs.len() == 0 {
        Seq::empty()
    } else {
        match fs.last().val {
            FieldVal::Chunk(c) => if fs.last().num == num {
                c
            } else {
                spec_last_chunk(fs.drop_last(), num)
            },
            FieldVal::Word(_) => spec_last_chunk(fs.drop_last(), num),
        }
    }
}

/// The last word carried by a field with the given number, or zero when no
/// such field occurs.
pub open spec fn spec_last_word(fs: Seq<FieldModel>, num: u64) -> u64
    decreases fs.len(),
{
    if fs.len() == 0 {
        0
    } else {
        match fs.last().val {
            FieldVal::Word(w) => if fs.last().num == num {
                w
            } else {
                spec_last_word(fs.drop_last(), num)
            },
            FieldVal::Chunk(_) => spec_last_word(fs.drop_last(), num),
        }
    }
}

/// Every chunk carried by fields with the given number, in field order.
pub open spec fn spec_chunks(fs: Seq<FieldModel>, num: u64) -> Seq<Seq<u8>>
    decreases fs.len(),
{
    if fs.len() == 0 {
        Seq::empty()
    } else {
        spec_chunks(fs.drop_last(), num) + (match fs.last().val {
            FieldVal::Chunk(c) => if fs.last().num == num {
                seq![c]
            } else {
                Seq::empty()
            },
            FieldVal::Word(_) => Seq::empty(),
        })
    }
}

fn last_chunk(fields: &Vec<RawField>, num: u64) -> (r: Vec<u8>)
    ensures
        r@ == spec_last_chunk(fields_model(fields@), num),
{
    let ghost all = fields_model(fields@);
    let mut out: Vec<u8> = Vec::new();
    let mut i: usize = 0;
    proof {
        assert(all.take(0) =~= Seq::<FieldModel>::empty());
    }
    while i < fields.len()
        invariant
            i <= fields.len(),
            all == fields_model(fields@),
            out@ == spec_last_chunk(all.take(i as int), num),
        decreases fields.len() - i,
    {
        match &fields[i].val {
            RawValue::Chunk(c) => {
                if fields[i].num == num {
                    out = c.clone();
                }
            },
            RawValue::Word(_) => {},
        }
        proof {
            assert(all.take(i + 1).drop_last() =~= all.take(i as int));
            assert(all.take(i + 1).last() == fields@[i as int]@);
        }
        i = i + 1;
    }
    proof {
        assert(all.take(fields@.len() as int) =~= all);
    }
    out
}

fn last_word(fields: &Vec<RawField>, num: u64) -> (r: u64)
    ensures
        r == spec_last_word(fields_model(fields@), num),
{
    let ghost all = fields_model(fields@);
    let mut out: u64 = 0;
    let mut i: usize = 0;
    proof {
        assert(all.take(0) =~= Seq::<FieldModel>::empty());
    }
    while i < fields.len()
        invariant
            i <= fields.len(),
            all == fields_model(fields@),
            out == spec_last_word(all.take(i as int), num),
        decreases fields.len() - i,
    {
        match &fields[i].val {
            RawValue::Word(w) => {
                if fields[i].num == num {
                    out = *w;
                }
            },
            RawValue::Chunk(_) => {},
        }
        proof {
            assert(all.take(i + 1).drop_last() =~= all.take(i as int));
            assert(all.take(i + 1).last() == fields@[i as int]@);
        }
        i = i + 1;
    }
    proof {
        assert(all.take(fields@.len() as int) =~= all);
    }
    out
}

/// The chunk sequence a chunk vector stands for.
pub open spec fn chunks_model(s: Seq<Vec<u8>>) -> Seq<Seq<u8>> {
    s.map_values(|c: Vec<u8>| c@)
}

fn chunks(fields: &Vec<RawField>, num: u64) -> (r: Vec<Vec<u8>>)
    ensures
        chunks_model(r@) == spec_chunks(fields_model(fields@), num),
{
    let ghost all = fields_model(fields@);
    let mut out: Vec<Vec<u8>> = Vec::new();
    let mut i: usize = 0;
    proof {
        assert(all.take(0) =~= Seq::<FieldModel>::empty());
        assert(chunks_model(out@) =~= spec_chunks(all.take(0), num));
    }
    while i < fields.len()
        invariant
            i <= fields.len(),
            all == fields_model(fields@),
            chunks_model(out@) == spec_chunks(all.take(i as int), num),
        decreases fields.len() - i,
    {
        let ghost prev = chunks_model(out@);
        match &fields[i].val {
            RawValue::Chunk(c) => {
                if fields[i].num == num {
                    let copy = c.clone();
                    proof {
                        assert(copy@ == c@);
                    }
                    out.push(copy);
                }
            },
            RawValue::Word(_) => {},
        }
        proof {
            assert(all.take(i + 1).drop_last() =~= all.take(i as int));
            assert(all.take(i + 1).last() == fields@[i as int]@);
            assert(chunks_model(out@) =~= spec_chunks(all.take(i + 1), num));
        }
        i = i + 1;
    }
    proof {
        assert(all.take(fields@.len() as int) =~= all);
    }
    out
}

/// One tag of the nested message: field 1 is the key, field 2 the raw value
/// bytes, field 3 the value-type code.
pub struct TagModel {
    pub key: Seq<u8>,
    pub value: Seq<u8>,
    pub code: u64,
}

/// A tag as executable data, still undecoded.
pub struct TagRecord {
    pub key: Vec<u8>,
    pub value: Vec<u8>,
    pub code: u64,
}

impl View for TagRecord {
    type V = TagModel;

    open spec fn view(&self) -> TagModel {
        TagModel { key: self.key@, value: self.value@, code: self.code }
    }
}

/// What decoding one tag message yields.
pub open spec fn spec_tag_of(s: Seq<u8>) -> Option<TagModel> {
    match spec_fields(s, 0) {
        None => None,
        Some(fs) => Some(TagModel {
            key: spec_last_chunk(fs, 1),
            value: spec_last_chunk(fs, 2),
            code: spec_last_word(fs, 3),
        }),
    }
}

fn parse_tag(v: &Vec<u8>) -> (r: Result<TagRecord, Error>)
    ensures
        match spec_tag_of(v@) {
            None => r == Err::<TagRecord, Error>(Error::Format),
            Some(t) => r matches Ok(out) && out@ == t,
        },
{
    let fields = match parse_fields(v, 0) {
        Err(e) => { return Err(e); },
        Ok(x) => x,
    };
    let key = last_chunk(&fields, 1);
    let value = last_chunk(&fields, 2);
    let code = last_word(&fields, 3);
    Ok(TagRecord { key, value, code })
}

/// One feature record of the nested message: field 3 carries the geometry
/// bytes, each field 4 one tag message.
pub struct RecordModel {
    pub geom: Seq<u8>,
    pub tags: Seq<TagModel>,
}

/// A feature record as executable data, still undecoded.
pub struct FeatureRecord {
    pub geom: Vec<u8>,
    pub tags: Vec<TagRecord>,
}

/// The tag sequence a tag vector stands for.
pub open spec fn tags_model(s: Seq<TagRecord>) -> Seq<TagModel> {
    s.map_values(|t: TagRecord| t@)
}

impl View for FeatureRecord {
    type V = RecordModel;

    open spec fn view(&self) -> RecordModel {
        RecordModel { geom: self.geom@, tags: tags_model(self.tags@) }
    }
}

/// Decoding of every chunk in a sequence as a tag message; `None` as soon as
/// one of them is malformed.
pub open spec fn spec_tags_of_chunks(cs: Seq<Seq<u8>>) -> Option<Seq<TagModel>>
    decreases cs.len(),
{
    if cs.len() == 0 {
        Some(Seq::empty())
    } else {
        match (spec_tags_of_chunks(cs.drop_last()), spec_tag_of(cs.last())) {
            (Some(prefix), Some(t)) => Some(prefix.push(t)),
            _ => None,
        }
    }
}

proof fn lemma_tags_of_chunks_none(cs: Seq<Seq<u8>>, j: int)
    requires
        0 <= j < cs.len(),
        spec_tag_of(cs[j]) is None,
    ensures
        spec_tags_of_chunks(cs) is None,
    decreases cs.len(),
{
    if j < cs.len() - 1 {
        lemma_tags_of_chunks_none(cs.drop_last(), j);
    }
}

/// What decoding one feature message yields.
pub open spec fn spec_record_of(s: Seq<u8>) -> Option<RecordModel> {
    match spec_fields(s, 0) {
        None => None,
        Some(fs) => match spec_tags_of_chunks(spec_chunks(fs, 4)) {
            None => None,
            Some(ts) => Some(RecordModel { geom: spec_last_chunk(fs, 3), tags: ts }),
        },
    }
}

fn parse_record(v: &Vec<u8>) -> (r: Result<FeatureRecord, Error>)
    ensures
        match spec_record_of(v@) {
            None => r == Err::<FeatureRecord, Error>(Error::Format),
            Some(rec) => r matches Ok(out) && out@ == rec,
        },
{
    let fields = match parse_fields(v, 0) {
        Err(e) => { return Err(e); },
        Ok(x) => x,
    };
    let geom = last_chunk(&fields, 3);
    let tag_chunks = chunks(&fields, 4);
    let ghost cs = chunks_model(tag_chunks@);
    let mut tags: Vec<TagRecord> = Vec::new();
    let mut i: usize = 0;
    proof {
        assert(cs.take(0) =~= Seq::<Seq<u8>>::empty());
        assert(tags_model(tags@) =~= Seq::<TagModel>::empty());
    }
    while i < tag_chunks.len()
        invariant
            i <= tag_chunks.len(),
            cs == chunks_model(tag_chunks@),
            spec_fields(v@, 0) is Some,
            cs == spec_chunks(spec_fields(v@, 0).unwrap(), 4),
            spec_tags_of_chunks(cs.take(i as int)) == Some(tags_model(tags@)),
        decreases tag_chunks.len() - i,
    {
        let ghost prev = tags_model(tags@);
        let t = match parse_tag(&tag_chunks[i]) {
            Err(e) => {
                proof {
                    assert(cs[i as int] == tag_chunks@[i as int]@);
                    lemma_tags_of_chunks_none(cs, i as int);
                }
                return Err(e);
            },
            Ok(x) => x,
        };
        let ghost tm = t@;
        tags.push(t);
        proof {
            assert(cs.take(i + 1).drop_last() =~= cs.take(i as int));
            assert(cs.take(i + 1).last() == tag_chunks@[i as int]@);
            assert(tags_model(tags@) =~= prev.push(tm));
        }
        i = i + 1;
    }
    proof {
        assert(cs.take(tag_chunks@.len() as int) =~= cs);
    }
    Ok(FeatureRecord { geom, tags })
}

/// The record sequence a record vector stands for.
pub open spec fn records_model(s: Seq<FeatureRecord>) -> Seq<RecordModel> {
    s.map_values(|r: FeatureRecord| r@)
}

/// Decoding of every chunk in a sequence as a feature message.
pub open spec fn spec_records_of_chunks(cs: Seq<Seq<u8>>) -> Option<Seq<RecordModel>>
    decreases cs.len(),
{
    if cs.len() == 0 {
        Some(Seq::empty())
    } else {
        match (spec_records_of_chunks(cs.drop_last()), spec_record_of(cs.last())) {
            (Some(prefix), Some(rec)) => Some(prefix.push(rec)),
            _ => None,
        }
    }
}

proof fn lemma_records_of_chunks_none(cs: Seq<Seq<u8>>, j: int)
    requires
        0 <= j < cs.len(),
        spec_record_of(cs[j]) is None,
    ensures
        spec_records_of_chunks(cs) is None,
    decreases cs.len(),
{
    if j < cs.len() - 1 {
        lemma_records_of_chunks_none(cs.drop_last(), j);
    }
}

/// What decoding a whole block body yields: each field 2 of the outer
/// message is one feature record, in order.  Any malformed outer field,
/// feature or tag makes the whole body malformed.
pub open spec fn spec_body(s: Seq<u8>) -> Option<Seq<RecordModel>> {
    match spec_fields(s, 0) {
        None => None,
        Some(fs) => spec_records_of_chunks(spec_chunks(fs, 2)),
    }
}

/// Decode a block body into its feature records.  Returns exactly the
/// records that `spec_body` assigns to the bytes, or a format error when the
/// body is malformed.
pub fn parse_body(v: &Vec<u8>) -> (r: Result<Vec<FeatureRecord>, Error>)
    ensures
        match spec_body(v@) {
            None => r == Err::<Vec<FeatureRecord>, Error>(Error::Format),
            Some(recs) => r matches Ok(out) && records_model(out@) == recs,
        },
{
    let fields = match parse_fields(v, 0) {
        Err(e) => { return Err(e); },
        Ok(x) => x,
    };
    let rec_chunks = chunks(&fields, 2);
    let ghost cs = chunks_model(rec_chunks@);
    let mut recs: Vec<FeatureRecord> = Vec::new();
    let mut i: usize = 0;
    proof {
        assert(cs.take(0) =~= Seq::<Seq<u8>>::empty());
        assert(records_model(recs@) =~= Seq::<RecordModel>::empty());
    }
    while i < rec_chunks.len()
        invariant
            i <= rec_chunks.len(),
            cs == chunks_model(rec_chunks@),
            cs == spec_chunks(spec_fields(v@, 0).unwrap(), 2),
            spec_fields(v@, 0) is Some,
            spec_records_of_chunks(cs.take(i as int)) == Some(records_model(recs@)),
        decreases rec_chunks.len() - i,
    {
        let ghost prev = records_model(recs@);
        let rec = match parse_record(&rec_chunks[i]) {
            Err(e) => {
                proof {
                    assert(cs[i as int] == rec_chunks@[i as int]@);
                    lemma_records_of_chunks_none(cs, i as int);
                }
                return Err(e);
            },
            Ok(x) => x,
        };
        let ghost rm = rec@;
        recs.push(rec);
        proof {
            assert(cs.take(i + 1).drop_last() =~= cs.take(i as int));
            assert(cs.take(i + 1).last() == rec_chunks@[i as int]@);
            assert(records_model(recs@) =~= prev.push(rm));
        }
        i = i + 1;
    }
    proof {
        assert(cs.take(rec_chunks@.len() as int) =~= cs);
    }
    Ok(recs)
}

} // verus!
