use vstd::prelude::*;
use crate::Error;

verus! {

// A feature's geometry travels as well-known-binary bytes.  The verified
// core checks that those bytes follow the little-endian WKB structure —
// header, type code, point counts, nested members — so that a malformed
// geometry is reported as a format error; reading coordinates out of the
// validated bytes is a consumer's concern, since the coordinates are
// floating-point numbers.
//
// The accepted shape of one geometry, `<geom>`, is:
//   <geom>  := 0x01 u32le(type) <body>
//   type 1  (point):            16 bytes
//   type 2  (line string):      <ring>
//   type 3  (polygon):          u32le(r), r >= 1, then r rings
//   type 4  (multi point):      <ring>
//   type 5  (multi line):       u32le(k), then k <geom> each of type 2
//   type 6  (multi polygon):    u32le(k), then k <geom> each of type 3
//   type 7  (collection):       u32le(k), then k <geom> of any type
//   <ring>  := u32le(m), then 16 * m bytes
// Trailing bytes after the first geometry are ignored, as a streaming
// reader would leave them unread.

/// Where a point run starting at `pos` ends: a count of points, then
/// sixteen bytes for each.
pub open spec fn spec_ring_end(s: Seq<u8>, pos: int) -> Option<int> {
    if pos < 0 || pos + 4 > s.len() {
        None
    } else {
        let m = vstd::bytes::spec_u32_from_le_bytes(s.subrange(pos, pos + 4));
        if pos + 4 + 16 * m > s.len() {
            None
        } else {
            Some(pos + 4 + 16 * m)
        }
    }
}

/// Where `k` consecutive point runs starting at `pos` end.
pub open spec fn spec_rings_end(s: Seq<u8>, pos: int, k: nat) -> Option<int>
    decreases k,
{
    if k == 0 {
        Some(pos)
    } else {
        match spec_ring_end(s, pos) {
            None => None,
            Some(e) => spec_rings_end(s, e, (k - 1) as nat),
        }
    }
}

/// Where the geometry starting at `pos` ends, or `None` if the bytes do not
/// follow the structure.  When `req` names a type code, the geometry must
/// carry exactly that code, as the members of a typed multi-geometry must.
pub open spec fn spec_wkb_end(s: Seq<u8>, pos: int, req: Option<u32>) -> Option<int>
    decreases s.len() - pos, 0nat,
{
    if pos < 0 || pos + 5 > s.len() {
        None
    } else if s[pos] != 1 {
        None
    } else {
        let t = vstd::bytes::spec_u32_from_le_bytes(s.subrange(pos + 1, pos + 5));
        if req matches Some(rt) && t != rt {
            None
        } else if t == 1 {
            if pos + 21 <= s.len() {
                Some(pos + 21)
            } else {
                None
            }
        } else if t == 2 || t == 4 {
            spec_ring_end(s, pos + 5)
        } else if t == 3 {
            if pos + 9 > s.len() {
                None
            } else {
                let r = vstd::bytes::spec_u32_from_le_bytes(s.subrange(pos + 5, pos + 9));
                if r == 0 {
                    None
                } else {
                    spec_rings_end(s, pos + 9, r as nat)
                }
            }
        } else if t == 5 || t == 6 || t == 7 {
            if pos + 9 > s.len() {
                None
            } else {
                let k = vstd::bytes::spec_u32_from_le_bytes(s.subrange(pos + 5, pos + 9));
                let req_inner: Option<u32> = if t == 5 {
                    Some(2u32)
                } else if t == 6 {
                    Some(3u32)
                } else {
                    None
                };
                spec_wkb_members_end(s, pos + 9, k as nat, req_inner)
            }
        } else {
            None
        }
    }
}

/// Where `k` consecutive member geometries starting at `pos` end.
pub open spec fn spec_wkb_members_end(s: Seq<u8>, pos: int, k: nat, req: Option<u32>) -> Option<int>
    decreases s.len() - pos, k,
{
    if k == 0 {
        Some(pos)
    } else {
        match spec_wkb_end(s, pos, req) {
            None => None,
            Some(e) => {
                if pos < e <= s.len() {
                    spec_wkb_members_end(s, e, (k - 1) as nat, req)
                } else {
                    None
                }
            },
        }
    }
}

/// The bytes open with one structurally well-formed geometry.
pub open spec fn spec_geometry_valid(s: Seq<u8>) -> bool {
    spec_wkb_end(s, 0, None) is Some
}

fn ring_end(v: &Vec<u8>, pos: usize) -> (r: Result<usize, Error>)
    ensures
        match spec_ring_end(v@, pos as int) {
            None => r == Err::<usize, Error>(Error::Format),
            Some(e) => r matches Ok(x) && x == e && pos <= e <= v@.len(),
        },
{
    if pos > v.len() || v.len() - pos < 4 {
        return Err(Error::Format);
    }
    let m = vstd::bytes::u32_from_le_bytes(
        vstd::slice::slice_subrange(v.as_slice(), pos, pos + 4),
    );
    let rem: u64 = (v.len() - (pos + 4)) as u64;
    if (m as u64) * 16 > rem {
        return Err(Error::Format);
    }
    let adv: usize = (m as usize) * 16;
    Ok(pos + 4 + adv)
}

fn rings_end(v: &Vec<u8>, pos: usize, k: u32) -> (r: Result<usize, Error>)
    requires
        pos <= v@.len(),
    ensures
        match spec_rings_end(v@, pos as int, k as nat) {
            None => r == Err::<usize, Error>(Error::Format),
            Some(e) => r matches Ok(x) && x == e && pos <= e <= v@.len(),
        },
    decreases k,
{
    if k == 0 {
        return Ok(pos);
    }
    let e = match ring_end(v, pos) {
        Err(err) => { return Err(err); },
        Ok(x) => x,
    };
    rings_end(v, e, k - 1)
}

fn wkb_end(v: &Vec<u8>, pos: usize, req: Option<u32>) -> (r: Result<usize, Error>)
    requires
        pos <= v@.len(),
    ensures
        match spec_wkb_end(v@, pos as int, req) {
            None => r == Err::<usize, Error>(Error::Format),
            Some(e) => r matches Ok(x) && x == e && pos < e <= v@.len(),
        },
    decreases v.len() - pos, 0nat,
{
    if v.len() - pos < 5 {
        return Err(Error::Format);
    }
    if v[pos] != 1 {
        return Err(Error::Format);
    }
    let t = vstd::bytes::u32_from_le_bytes(
        vstd::slice::slice_subrange(v.as_slice(), pos + 1, pos + 5),
    );
    match req {
        Some(rt) => {
            if t != rt {
                return Err(Error::Format);
            }
        },
        None => {},
    }
    if t == 1 {
        if v.len() - pos >= 21 {
            Ok(pos + 21)
        } else {
            Err(Error::Format)
        }
    } else if t == 2 || t == 4 {
        match ring_end(v, pos + 5) {
            Err(err) => Err(err),
            Ok(e) => {
                proof {
                    assert(spec_ring_end(v@, pos + 5) == Some(e as int));
                }
                Ok(e)
            },
        }
    } else if t == 3 {
        if v.len() - pos < 9 {
            return Err(Error::Format);
        }
        let rcount = vstd::bytes::u32_from_le_bytes(
            vstd::slice::slice_subrange(v.as_slice(), pos + 5, pos + 9),
        );
        if rcount == 0 {
            return Err(Error::Format);
        }
        match rings_end(v, pos + 9, rcount) {
            Err(err) => Err(err),
            Ok(e) => Ok(e),
        }
    } else if t == 5 || t == 6 || t == 7 {
        if v.len() - pos < 9 {
            return Err(Error::Format);
        }
        let k = vstd::bytes::u32_from_le_bytes(
            vstd::slice::slice_subrange(v.as_slice(), pos + 5, pos + 9),
        );
        let req_inner: Option<u32> = if t == 5 {
            Some(2u32)
        } else if t == 6 {
            Some(3u32)
        } else {
            None
        };
        wkb_members_end(v, pos + 9, k, req_inner)
    } else {
        Err(Error::Format)
    }
}

fn wkb_members_end(v: &Vec<u8>, pos: usize, k: u32, req: Option<u32>) -> (r: Result<usize, Error>)
    requires
        pos <= v@.len(),
    ensures
        match spec_wkb_members_end(v@, pos as int, k as nat, req) {
            None => r == Err::<usize, Error>(Error::Format),
            Some(e) => r matches Ok(x) && x == e && pos <= e <= v@.len(),
        },
    decreases v.len() - pos, k,
{
    if k == 0 {
        return Ok(pos);
    }
    let e = match wkb_end(v, pos, req) {
        Err(err) => { return Err(err); },
        Ok(x) => x,
    };
    wkb_members_end(v, e, k - 1, req)
}

/// Check that a geometry buffer opens with one structurally well-formed
/// little-endian WKB geometry.
pub fn geometry_valid(b: &Vec<u8>) -> (r: bool)
    ensures
        r == spec_geometry_valid(b@),
{
    match wkb_end(b, 0, None) {
        Ok(_) => true,
        Err(_) => false,
    }
}

} // verus!
