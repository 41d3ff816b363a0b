//! The binary form of a stored history record: a fixed header followed by
//! length-prefixed UTF-8 strings. The encoder and decoder are exact
//! inverses, which [`lemma_parse_encode_entry`] states and proves.

use vstd::prelude::*;
use vstd::bytes::*;
use vstd::utf8::*;
use vstd::slice::*;
use vstd::string::StrSliceExecFns;
use crate::entry::{AppEntry, AppEntryKind, EntryModel, KindModel};

verus! {

/// A string is encoded as its UTF-8 byte length (8 bytes, little endian)
/// followed by its UTF-8 bytes.
pub open spec fn spec_encode_str(s: Seq<char>) -> Seq<u8> {
    spec_u64_to_le_bytes(encode_utf8(s).len() as u64) + encode_utf8(s)
}

/// A kind is encoded as a tag byte followed by its string fields in order.
pub open spec fn spec_encode_kind(k: KindModel) -> Seq<u8> {
    match k {
        KindModel::Exe { path, params } => seq![1u8] + spec_encode_str(path) + spec_encode_str(
            params,
        ),
        KindModel::Link { path, params, target_path } => seq![2u8] + spec_encode_str(path)
            + spec_encode_str(params) + spec_encode_str(target_path),
        KindModel::Appx { identity_id, publisher_id, application_id, path } => seq![3u8]
            + spec_encode_str(identity_id) + spec_encode_str(publisher_id) + spec_encode_str(
            application_id,
        ) + spec_encode_str(path),
        KindModel::Command { command } => seq![4u8] + spec_encode_str(command),
    }
}

/// A record is encoded as use count, last use time, name, kind.
pub open spec fn spec_encode_entry(m: EntryModel) -> Seq<u8> {
    spec_u32_to_le_bytes(m.use_count) + spec_u64_to_le_bytes(m.last_use_time) + spec_encode_str(
        m.name,
    ) + spec_encode_kind(m.kind)
}

pub open spec fn spec_parse_u32(b: Seq<u8>, pos: int) -> Option<(u32, int)> {
    if 0 <= pos && pos + 4 <= b.len() {
        Some((spec_u32_from_le_bytes(b.subrange(pos, pos + 4)), pos + 4))
    } else {
        None
    }
}

pub open spec fn spec_parse_u64(b: Seq<u8>, pos: int) -> Option<(u64, int)> {
    if 0 <= pos && pos + 8 <= b.len() {
        Some((spec_u64_from_le_bytes(b.subrange(pos, pos + 8)), pos + 8))
    } else {
        None
    }
}

pub open spec fn spec_parse_str(b: Seq<u8>, pos: int) -> Option<(Seq<char>, int)> {
    match spec_parse_u64(b, pos) {
        Option::None => None,
        Option::Some((n, p)) => {
            if p + n <= b.len() && valid_utf8(b.subrange(p, p + n as int)) {
                Some((decode_utf8(b.subrange(p, p + n as int)), p + n as int))
            } else {
                None
            }
        },
    }
}

pub open spec fn spec_parse_kind(b: Seq<u8>, pos: int) -> Option<(KindModel, int)> {
    if 0 <= pos && pos + 1 <= b.len() {
        let tag = b[pos];
        if tag == 1u8 {
            match spec_parse_str(b, pos + 1) {
                Option::None => None,
                Option::Some((path, p1)) => match spec_parse_str(b, p1) {
                    Option::None => None,
                    Option::Some((params, p2)) => Some((KindModel::Exe { path, params }, p2)),
                },
            }
        } else if tag == 2u8 {
            match spec_parse_str(b, pos + 1) {
                Option::None => None,
                Option::Some((path, p1)) => match spec_parse_str(b, p1) {
                    Option::None => None,
                    Option::Some((params, p2)) => match spec_parse_str(b, p2) {
                        Option::None => None,
                        Option::Some((target_path, p3)) => Some(
                            (KindModel::Link { path, params, target_path }, p3),
                        ),
                    },
                },
            }
        } else if tag == 3u8 {
            match spec_parse_str(b, pos + 1) {
                Option::None => None,
                Option::Some((identity_id, p1)) => match spec_parse_str(b, p1) {
                    Option::None => None,
                    Option::Some((publisher_id, p2)) => match spec_parse_str(b, p2) {
                        Option::None => None,
                        Option::Some((application_id, p3)) => match spec_parse_str(b, p3) {
                            Option::None => None,
                            Option::Some((path, p4)) => Some(
                                (
                                    KindModel::Appx {
                                        identity_id,
                                        publisher_id,
                                        application_id,
                                        path,
                                    },
                                    p4,
                                ),
                            ),
                        },
                    },
                },
            }
        } else if tag == 4u8 {
            match spec_parse_str(b, pos + 1) {
                Option::None => None,
                Option::Some((command, p1)) => Some((KindModel::Command { command }, p1)),
            }
        } else {
            None
        }
    } else {
        None
    }
}

/// Parse a whole record; the record must use the buffer exactly.
pub open spec fn spec_parse_entry(b: Seq<u8>) -> Option<EntryModel> {
    match spec_parse_u32(b, 0) {
        Option::None => None,
        Option::Some((use_count, p1)) => match spec_parse_u64(b, p1) {
            Option::None => None,
            Option::Some((last_use_time, p2)) => match spec_parse_str(b, p2) {
                Option::None => None,
                Option::Some((name, p3)) => match spec_parse_kind(b, p3) {
                    Option::None => None,
                    Option::Some((kind, p4)) => {
                        if p4 == b.len() {
                            Some(EntryModel { name, use_count, last_use_time, kind })
                        } else {
                            None
                        }
                    },
                },
            },
        },
    }
}

fn push_u32(out: &mut Vec<u8>, x: u32)
    ensures
        final(out)@ == old(out)@ + spec_u32_to_le_bytes(x),
{
    let mut b = u32_to_le_bytes(x);
    out.append(&mut b);
}

fn push_u64(out: &mut Vec<u8>, x: u64)
    ensures
        final(out)@ == old(out)@ + spec_u64_to_le_bytes(x),
{
    let mut b = u64_to_le_bytes(x);
    out.append(&mut b);
}

fn push_str(out: &mut Vec<u8>, s: &String)
    ensures
        final(out)@ == old(out)@ + spec_encode_str(s@),
{
    let mut bv = s.as_str().as_bytes_vec();
    push_u64(out, bv.len() as u64);
    out.append(&mut bv);
    assert(out@ =~= old(out)@ + spec_encode_str(s@));
}

/// Encode a record into its stored byte form.
pub fn encode_entry(e: &AppEntry) -> (r: Vec<u8>)
    ensures
        r@ == spec_encode_entry(e@),
{
    let mut out: Vec<u8> = Vec::new();
    push_u32(&mut out, e.use_count);
    push_u64(&mut out, e.last_use_time);
    push_str(&mut out, &e.name);
    match &e.kind {
        AppEntryKind::Exe { path, params } => {
            out.push(1u8);
            push_str(&mut out, path);
            push_str(&mut out, params);
        },
        AppEntryKind::Link { path, params, target_path } => {
            out.push(2u8);
            push_str(&mut out, path);
            push_str(&mut out, params);
            push_str(&mut out, target_path);
        },
        AppEntryKind::Appx { identity_id, publisher_id, application_id, path } => {
            out.push(3u8);
            push_str(&mut out, identity_id);
            push_str(&mut out, publisher_id);
            push_str(&mut out, application_id);
            push_str(&mut out, path);
        },
        AppEntryKind::Command { command } => {
            out.push(4u8);
            push_str(&mut out, command);
        },
    }
    assert(out@ =~= spec_encode_entry(e@));
    out
}

/// Relies on `String::from_utf8`: it accepts exactly the valid UTF-8 byte
/// sequences and decodes them to the characters they encode.
#[verifier::external_body]
fn string_from_utf8(v: Vec<u8>) -> (r: Option<String>)
    ensures
        r is Some <==> valid_utf8(v@),
        r matches Some(s) ==> s@ == decode_utf8(v@),
{
    String::from_utf8(v).ok()
}

fn read_u32(bytes: &Vec<u8>, pos: usize) -> (r: Option<(u32, usize)>)
    requires
        pos <= bytes@.len(),
    ensures
        match r {
            Some((x, p)) => spec_parse_u32(bytes@, pos as int) == Some((x, p as int)) && p
                <= bytes@.len(),
            None => spec_parse_u32(bytes@, pos as int) is None,
        },
{
    if bytes.len() - pos >= 4 {
        let x = u32_from_le_bytes(slice_subrange(bytes.as_slice(), pos, pos + 4));
        Some((x, pos + 4))
    } else {
        None
    }
}

fn read_u64(bytes: &Vec<u8>, pos: usize) -> (r: Option<(u64, usize)>)
    requires
        pos <= bytes@.len(),
    ensures
        match r {
            Some((x, p)) => spec_parse_u64(bytes@, pos as int) == Some((x, p as int)) && p
                <= bytes@.len(),
            None => spec_parse_u64(bytes@, pos as int) is None,
        },
{
    if bytes.len() - pos >= 8 {
        let x = u64_from_le_bytes(slice_subrange(bytes.as_slice(), pos, pos + 8));
        Some((x, pos + 8))
    } else {
        None
    }
}

fn read_str(bytes: &Vec<u8>, pos: usize) -> (r: Option<(String, usize)>)
    requires
        pos <= bytes@.len(),
    ensures
        match r {
            Some((s, p)) => spec_parse_str(bytes@, pos as int) == Some((s@, p as int)) && p
                <= bytes@.len(),
            None => spec_parse_str(bytes@, pos as int) is None,
        },
{
    match read_u64(bytes, pos) {
        None => None,
        Some((n, p1)) => {
            if n > (bytes.len() - p1) as u64 {
                return None;
            }
            let nn = n as usize;
            let sl = slice_subrange(bytes.as_slice(), p1, p1 + nn);
            let v = slice_to_vec(sl);
            match string_from_utf8(v) {
                Some(s) => Some((s, p1 + nn)),
                None => None,
            }
        },
    }
}

fn read_kind(bytes: &Vec<u8>, pos: usize) -> (r: Option<(AppEntryKind, usize)>)
    requires
        pos <= bytes@.len(),
    ensures
        match r {
            Some((k, p)) => spec_parse_kind(bytes@, pos as int) == Some((k@, p as int)) && p
                <= bytes@.len(),
            None => spec_parse_kind(bytes@, pos as int) is None,
        },
{
    if bytes.len() - pos < 1 {
        return None;
    }
    let tag = bytes[pos];
    if tag == 1u8 {
        match read_str(bytes, pos + 1) {
            None => None,
            Some((path, p1)) => match read_str(bytes, p1) {
                None => None,
                Some((params, p2)) => Some((AppEntryKind::Exe { path, params }, p2)),
            },
        }
    } else if tag == 2u8 {
        match read_str(bytes, pos + 1) {
            None => None,
            Some((path, p1)) => match read_str(bytes, p1) {
                None => None,
                Some((params, p2)) => match read_str(bytes, p2) {
                    None => None,
                    Some((target_path, p3)) => Some(
                        (AppEntryKind::Link { path, params, target_path }, p3),
                    ),
                },
            },
        }
    } else if tag == 3u8 {
        match read_str(bytes, pos + 1) {
            None => None,
            Some((identity_id, p1)) => match read_str(bytes, p1) {
                None => None,
                Some((publisher_id, p2)) => match read_str(bytes, p2) {
                    None => None,
                    Some((application_id, p3)) => match read_str(bytes, p3) {
                        None => None,
                        Some((path, p4)) => Some(
                            (
                                AppEntryKind::Appx {
                                    identity_id,
                                    publisher_id,
                                    application_id,
                                    path,
                                },
                                p4,
                            ),
                        ),
                    },
                },
            },
        }
    } else if tag == 4u8 {
        match read_str(bytes, pos + 1) {
            None => None,
            Some((command, p1)) => Some((AppEntryKind::Command { command }, p1)),
        }
    } else {
        None
    }
}

/// Decode a stored byte form back into a record. Returns `None` exactly
/// when the bytes are not the encoding of any record.
pub fn decode_entry(bytes: &Vec<u8>) -> (r: Option<AppEntry>)
    ensures
        match r {
            Some(e) => spec_parse_entry(bytes@) == Some(e@),
            None => spec_parse_entry(bytes@) is None,
        },
{
    match read_u32(bytes, 0) {
        None => None,
        Some((use_count, p1)) => match read_u64(bytes, p1) {
            None => None,
            Some((last_use_time, p2)) => match read_str(bytes, p2) {
                None => None,
                Some((name, p3)) => match read_kind(bytes, p3) {
                    None => None,
                    Some((kind, p4)) => {
                        if p4 == bytes.len() {
                            Some(AppEntry { name, use_count, last_use_time, kind })
                        } else {
                            None
                        }
                    },
                },
            },
        },
    }
}

proof fn lemma_subrange_of_subrange(s: Seq<u8>, i: int, j: int, k: int, l: int)
    requires
        0 <= i <= k <= l <= j <= s.len(),
    ensures
        s.subrange(i, j).subrange(k - i, l - i) == s.subrange(k, l),
{
    assert(s.subrange(i, j).subrange(k - i, l - i) =~= s.subrange(k, l));
}

proof fn lemma_parse_u32_at(b: Seq<u8>, pos: int, x: u32)
    requires
        0 <= pos,
        pos + 4 <= b.len(),
        b.subrange(pos, pos + 4) == spec_u32_to_le_bytes(x),
    ensures
        spec_parse_u32(b, pos) == Some((x, pos + 4)),
{
    lemma_auto_spec_u32_to_from_le_bytes();
    assert(spec_u32_to_le_bytes(x).len() == 4);
}

proof fn lemma_parse_u64_at(b: Seq<u8>, pos: int, x: u64)
    requires
        0 <= pos,
        pos + 8 <= b.len(),
        b.subrange(pos, pos + 8) == spec_u64_to_le_bytes(x),
    ensures
        spec_parse_u64(b, pos) == Some((x, pos + 8)),
{
    lemma_auto_spec_u64_to_from_le_bytes();
    assert(spec_u64_to_le_bytes(x).len() == 8);
}

/// True when every string of the record has a UTF-8 form whose byte length
/// fits the length prefix; every record held in memory satisfies it.
pub open spec fn model_fits(m: EntryModel) -> bool {
    &&& encode_utf8(m.name).len() <= u64::MAX
    &&& match m.kind {
        KindModel::Exe { path, params } => encode_utf8(path).len() <= u64::MAX && encode_utf8(
            params,
        ).len() <= u64::MAX,
        KindModel::Link { path, params, target_path } => encode_utf8(path).len() <= u64::MAX
            && encode_utf8(params).len() <= u64::MAX && encode_utf8(target_path).len()
            <= u64::MAX,
        KindModel::Appx { identity_id, publisher_id, application_id, path } => encode_utf8(
            identity_id,
        ).len() <= u64::MAX && encode_utf8(publisher_id).len() <= u64::MAX && encode_utf8(
            application_id,
        ).len() <= u64::MAX && encode_utf8(path).len() <= u64::MAX,
        KindModel::Command { command } => encode_utf8(command).len() <= u64::MAX,
    }
}

proof fn lemma_parse_str_at(b: Seq<u8>, pos: int, s: Seq<char>)
    requires
        0 <= pos,
        encode_utf8(s).len() <= u64::MAX,
        pos + spec_encode_str(s).len() <= b.len(),
        b.subrange(pos, pos + spec_encode_str(s).len() as int) == spec_encode_str(s),
    ensures
        spec_parse_str(b, pos) == Some((s, pos + spec_encode_str(s).len() as int)),
{
    broadcast use encode_utf8_valid_utf8, encode_utf8_decode_utf8;

    let u = encode_utf8(s);
    let n = u.len() as u64;
    let e = spec_encode_str(s);
    lemma_auto_spec_u64_to_from_le_bytes();
    assert(spec_u64_to_le_bytes(n).len() == 8);
    assert(e.len() == 8 + u.len());
    lemma_subrange_of_subrange(b, pos, pos + e.len() as int, pos, pos + 8);
    assert(e.subrange(0, 8) =~= spec_u64_to_le_bytes(n));
    lemma_parse_u64_at(b, pos, n);
    lemma_subrange_of_subrange(b, pos, pos + e.len() as int, pos + 8, pos + e.len() as int);
    assert(e.subrange(8, e.len() as int) =~= u);
    assert(b.subrange(pos + 8, pos + 8 + n as int) == u);
}

proof fn lemma_parse_kind_at(b: Seq<u8>, pos: int, k: KindModel)
    requires
        0 <= pos,
        model_fits(EntryModel { name: Seq::empty(), use_count: 0, last_use_time: 0, kind: k }),
        pos + spec_encode_kind(k).len() <= b.len(),
        b.subrange(pos, pos + spec_encode_kind(k).len() as int) == spec_encode_kind(k),
    ensures
        spec_parse_kind(b, pos) == Some((k, pos + spec_encode_kind(k).len() as int)),
{
    let e = spec_encode_kind(k);
    let all = b.subrange(pos, pos + e.len() as int);
    assert(b[pos] == all[0]);
    match k {
        KindModel::Exe { path, params } => {
            let s1 = spec_encode_str(path);
            let s2 = spec_encode_str(params);
            assert(e.len() == 1 + s1.len() + s2.len());
            assert(b[pos] == 1u8);
            lemma_subrange_of_subrange(b, pos, pos + e.len() as int, pos + 1, pos + 1 + s1.len());
            assert(e.subrange(1, 1 + s1.len() as int) =~= s1);
            lemma_parse_str_at(b, pos + 1, path);
            lemma_subrange_of_subrange(
                b,
                pos,
                pos + e.len() as int,
                pos + 1 + s1.len(),
                pos + e.len() as int,
            );
            assert(e.subrange(1 + s1.len() as int, e.len() as int) =~= s2);
            lemma_parse_str_at(b, pos + 1 + s1.len(), params);
        },
        KindModel::Link { path, params, target_path } => {
            let s1 = spec_encode_str(path);
            let s2 = spec_encode_str(params);
            let s3 = spec_encode_str(target_path);
            assert(e.len() == 1 + s1.len() + s2.len() + s3.len());
            assert(b[pos] == 2u8);
            lemma_subrange_of_subrange(b, pos, pos + e.len() as int, pos + 1, pos + 1 + s1.len());
            assert(e.subrange(1, 1 + s1.len() as int) =~= s1);
            lemma_parse_str_at(b, pos + 1, path);
            lemma_subrange_of_subrange(
                b,
                pos,
                pos + e.len() as int,
                pos + 1 + s1.len(),
                pos + 1 + s1.len() + s2.len(),
            );
            assert(e.subrange(1 + s1.len() as int, 1 + s1.len() + s2.len() as int) =~= s2);
            lemma_parse_str_at(b, pos + 1 + s1.len(), params);
            lemma_subrange_of_subrange(
                b,
                pos,
                pos + e.len() as int,
                pos + 1 + s1.len() + s2.len(),
                pos + e.len() as int,
            );
            assert(e.subrange(1 + s1.len() + s2.len() as int, e.len() as int) =~= s3);
            lemma_parse_str_at(b, pos + 1 + s1.len() + s2.len(), target_path);
        },
        KindModel::Appx { identity_id, publisher_id, application_id, path } => {
            let s1 = spec_encode_str(identity_id);
            let s2 = spec_encode_str(publisher_id);
            let s3 = spec_encode_str(application_id);
            let s4 = spec_encode_str(path);
            assert(e.len() == 1 + s1.len() + s2.len() + s3.len() + s4.len());
            assert(b[pos] == 3u8);
            lemma_subrange_of_subrange(b, pos, pos + e.len() as int, pos + 1, pos + 1 + s1.len());
            assert(e.subrange(1, 1 + s1.len() as int) =~= s1);
            lemma_parse_str_at(b, pos + 1, identity_id);
            lemma_subrange_of_subrange(
                b,
                pos,
                pos + e.len() as int,
                pos + 1 + s1.len(),
                pos + 1 + s1.len() + s2.len(),
            );
            assert(e.subrange(1 + s1.len() as int, 1 + s1.len() + s2.len() as int) =~= s2);
            lemma_parse_str_at(b, pos + 1 + s1.len(), publisher_id);
            lemma_subrange_of_subrange(
                b,
                pos,
                pos + e.len() as int,
                pos + 1 + s1.len() + s2.len(),
                pos + 1 + s1.len() + s2.len() + s3.len(),
            );
            assert(e.subrange(
                1 + s1.len() + s2.len() as int,
                1 + s1.len() + s2.len() + s3.len() as int,
            ) =~= s3);
            lemma_parse_str_at(b, pos + 1 + s1.len() + s2.len(), application_id);
            lemma_subrange_of_subrange(
                b,
                pos,
                pos + e.len() as int,
                pos + 1 + s1.len() + s2.len() + s3.len(),
                pos + e.len() as int,
            );
            assert(e.subrange(1 + s1.len() + s2.len() + s3.len() as int, e.len() as int) =~= s4);
            lemma_parse_str_at(b, pos + 1 + s1.len() + s2.len() + s3.len(), path);
        },
        KindModel::Command { command } => {
            let s1 = spec_encode_str(command);
            assert(e.len() == 1 + s1.len());
            assert(b[pos] == 4u8);
            lemma_subrange_of_subrange(b, pos, pos + e.len() as int, pos + 1, pos + e.len() as int);
            assert(e.subrange(1, e.len() as int) =~= s1);
            lemma_parse_str_at(b, pos + 1, command);
        },
    }
}

/// Decoding inverts encoding: parsing the encoded form of any record gives
/// back exactly that record.
pub proof fn lemma_parse_encode_entry(m: EntryModel)
    requires
        model_fits(m),
    ensures
        spec_parse_entry(spec_encode_entry(m)) == Some(m),
{
    let b = spec_encode_entry(m);
    let h1 = spec_u32_to_le_bytes(m.use_count);
    let h2 = spec_u64_to_le_bytes(m.last_use_time);
    let sn = spec_encode_str(m.name);
    let sk = spec_encode_kind(m.kind);
    lemma_auto_spec_u32_to_from_le_bytes();
    lemma_auto_spec_u64_to_from_le_bytes();
    assert(b.len() == 4 + 8 + sn.len() + sk.len());
    assert(b.subrange(0, 4) =~= h1);
    lemma_parse_u32_at(b, 0, m.use_count);
    assert(b.subrange(4, 12) =~= h2);
    lemma_parse_u64_at(b, 4, m.last_use_time);
    assert(b.subrange(12, 12 + sn.len() as int) =~= sn);
    lemma_parse_str_at(b, 12, m.name);
    assert(b.subrange(12 + sn.len() as int, b.len() as int) =~= sk);
    lemma_parse_kind_at(b, 12 + sn.len() as int, m.kind);
    assert(model_fits(
        EntryModel { name: Seq::empty(), use_count: 0, last_use_time: 0, kind: m.kind },
    ));
}

} // verus!
