//! Localized strings: a fixed tuple of per-locale string references
//! followed by a flags word. The first game version stores 8 locale slots,
//! the later two store 16.

use vstd::prelude::*;
use crate::DbcError;
use crate::util::{u32_le, u32_at, read_u32_le, push_u32_le, lemma_u32_at_of_le, lemma_u32_le_len};
use crate::string_block::{block_bytes, block_len, slots_wf};
use crate::str_list::{
    strs_slots, strs_view, strs_rec_bytes, decode_strs, lemma_strs_rec_bytes_len,
    lemma_strs_round_trip, read_str_list, write_str_list, push_block_slots, str_list_block_size,
};

verus! {

/// A string in eight locales plus a flags word, as the first game version
/// stores it: 9 × 4 bytes on the wire.
#[derive(Debug, Clone, PartialEq, Eq, PartialOrd, Ord, Hash)]
pub struct LocalizedString {
    pub en_gb: String,
    pub ko_kr: String,
    pub fr_fr: String,
    pub de_de: String,
    pub en_cn: String,
    pub en_tw: String,
    pub es_es: String,
    pub es_mx: String,
    pub flags: u32,
}

/// The mathematical view of a [`LocalizedString`].
pub struct LocalizedStringV {
    pub en_gb: Seq<char>,
    pub ko_kr: Seq<char>,
    pub fr_fr: Seq<char>,
    pub de_de: Seq<char>,
    pub en_cn: Seq<char>,
    pub en_tw: Seq<char>,
    pub es_es: Seq<char>,
    pub es_mx: Seq<char>,
    pub flags: u32,
}

impl View for LocalizedString {
    type V = LocalizedStringV;

    open spec fn view(&self) -> LocalizedStringV {
        LocalizedStringV {
            en_gb: self.en_gb@,
            ko_kr: self.ko_kr@,
            fr_fr: self.fr_fr@,
            de_de: self.de_de@,
            en_cn: self.en_cn@,
            en_tw: self.en_tw@,
            es_es: self.es_es@,
            es_mx: self.es_mx@,
            flags: self.flags,
        }
    }
}

/// The eight locale strings, in wire order.
pub open spec fn loc_strs(l: LocalizedStringV) -> Seq<Seq<char>> {
    seq![l.en_gb, l.ko_kr, l.fr_fr, l.de_de, l.en_cn, l.en_tw, l.es_es, l.es_mx]
}

/// The string slots a localized string contributes to the block.
pub open spec fn loc_slots(l: LocalizedStringV) -> Seq<Seq<u8>> {
    strs_slots(loc_strs(l))
}

/// The 36 record bytes a writer emits for a localized string at cursor `c`.
pub open spec fn loc_rec_bytes(l: LocalizedStringV, c: int) -> Seq<u8> {
    strs_rec_bytes(loc_strs(l), c) + u32_le(l.flags)
}

/// What a reader makes of 36 record bytes at `pos` against the block.
pub open spec fn decode_loc(rec: Seq<u8>, pos: int, block: Seq<u8>) -> Result<
    LocalizedStringV,
    DbcError,
> {
    match decode_strs(rec, pos, 8, block) {
        Err(e) => Err(e),
        Ok(ss) => Ok(
            LocalizedStringV {
                en_gb: ss[0],
                ko_kr: ss[1],
                fr_fr: ss[2],
                de_de: ss[3],
                en_cn: ss[4],
                en_tw: ss[5],
                es_es: ss[6],
                es_mx: ss[7],
                flags: u32_at(rec, pos + 32),
            },
        ),
    }
}

impl LocalizedString {
    /// The locale strings as a list, in wire order.
    fn to_list(&self) -> (r: Vec<String>)
        ensures
            strs_view(r@) == loc_strs(self@),
    {
        let mut v: Vec<String> = Vec::new();
        v.push(self.en_gb.clone());
        v.push(self.ko_kr.clone());
        v.push(self.fr_fr.clone());
        v.push(self.de_de.clone());
        v.push(self.en_cn.clone());
        v.push(self.en_tw.clone());
        v.push(self.es_es.clone());
        v.push(self.es_mx.clone());
        proof {
            assert(strs_view(v@) =~= loc_strs(self@));
        }
        v
    }

    /// Reads the 36-byte localized string at `*pos`, resolving every locale
    /// slot in `block`.
    pub fn read(rec: &[u8], pos: &mut usize, block: &[u8]) -> (r: Result<
        LocalizedString,
        DbcError,
    >)
        requires
            *old(pos) + 36 <= rec@.len(),
        ensures
            match r {
                Ok(l) => {
                    &&& *final(pos) == *old(pos) + 36
                    &&& decode_loc(rec@, *old(pos) as int, block@) == Ok::<
                        LocalizedStringV,
                        DbcError,
                    >(l@)
                },
                Err(e) => decode_loc(rec@, *old(pos) as int, block@) == Err::<
                    LocalizedStringV,
                    DbcError,
                >(e),
            },
    {
        let v = match read_str_list(rec, pos, 8, block) {
            Ok(v) => v,
            Err(e) => {
                return Err(e);
            },
        };
        let flags = read_u32_le(rec, pos);
        let l = LocalizedString {
            en_gb: v[0].clone(),
            ko_kr: v[1].clone(),
            fr_fr: v[2].clone(),
            de_de: v[3].clone(),
            en_cn: v[4].clone(),
            en_tw: v[5].clone(),
            es_es: v[6].clone(),
            es_mx: v[7].clone(),
            flags,
        };
        proof {
            let ss = strs_view(v@);
            assert(ss[0] == v@[0]@);
            assert(ss[1] == v@[1]@);
            assert(ss[2] == v@[2]@);
            assert(ss[3] == v@[3]@);
            assert(ss[4] == v@[4]@);
            assert(ss[5] == v@[5]@);
            assert(ss[6] == v@[6]@);
            assert(ss[7] == v@[7]@);
        }
        Ok(l)
    }

    /// Emits the 36 record bytes: eight string references, then the flags
    /// word verbatim.
    pub fn write(&self, out: &mut Vec<u8>, cursor: &mut u64)
        requires
            1 <= *old(cursor),
            *old(cursor) + block_len(loc_slots(self@)) <= u32::MAX,
        ensures
            final(out)@ == old(out)@ + loc_rec_bytes(self@, *old(cursor) as int),
            *final(cursor) == *old(cursor) + block_len(loc_slots(self@)),
    {
        let tmp = self.to_list();
        write_str_list(out, &tmp, cursor);
        push_u32_le(out, self.flags);
        proof {
            assert(final(out)@ =~= old(out)@ + loc_rec_bytes(self@, *old(cursor) as int));
        }
    }

    /// Appends every non-empty locale string to the string block.
    pub fn write_block(&self, out: &mut Vec<u8>)
        ensures
            final(out)@ == old(out)@ + block_bytes(loc_slots(self@)),
    {
        let tmp = self.to_list();
        push_block_slots(out, &tmp);
    }

    /// The number of string-block bytes the locale strings will occupy.
    pub fn block_size(&self) -> (r: u64)
        requires
            block_len(loc_slots(self@)) <= u32::MAX,
        ensures
            r == block_len(loc_slots(self@)),
    {
        let tmp = self.to_list();
        str_list_block_size(&tmp)
    }
}

/// Decoding the written 36 bytes against a block holding the slots at `c`
/// gives the localized string back.
pub proof fn lemma_loc_round_trip(
    l: LocalizedStringV,
    rec: Seq<u8>,
    pos: int,
    block: Seq<u8>,
    c: int,
)
    requires
        slots_wf(loc_slots(l)),
        1 <= c,
        c + block_len(loc_slots(l)) <= u32::MAX,
        c + block_len(loc_slots(l)) <= block.len(),
        block[0] == 0,
        block.subrange(c, c + block_len(loc_slots(l))) == block_bytes(loc_slots(l)),
        0 <= pos,
        pos + 36 <= rec.len(),
        rec.subrange(pos, pos + 36) == loc_rec_bytes(l, c),
    ensures
        decode_loc(rec, pos, block) == Ok::<LocalizedStringV, DbcError>(l),
{
    let ss = loc_strs(l);
    lemma_strs_rec_bytes_len(ss, c);
    assert(rec.subrange(pos, pos + 32) =~= strs_rec_bytes(ss, c)) by {
        assert(forall|j: int|
            0 <= j < 36 ==> rec.subrange(pos, pos + 36)[j] == loc_rec_bytes(l, c)[j]);
    }
    lemma_strs_round_trip(ss, rec, pos, block, c, 8);
    assert(ss.take(8) =~= ss);
    lemma_u32_le_len(l.flags);
    assert(rec.subrange(pos + 32, pos + 36) =~= u32_le(l.flags)) by {
        assert forall|j: int| 0 <= j < 4 implies rec.subrange(pos + 32, pos + 36)[j] == u32_le(
            l.flags,
        )[j] by {
            assert(rec.subrange(pos + 32, pos + 36)[j] == rec[pos + 32 + j]);
            assert(rec.subrange(pos, pos + 36)[32 + j] == rec[pos + 32 + j]);
            assert(loc_rec_bytes(l, c)[32 + j] == u32_le(l.flags)[j]);
        }
    }
    lemma_u32_at_of_le(rec, pos + 32, l.flags);
}

/// A string in sixteen locales plus a flags word, as the later game
/// versions store it: 17 × 4 bytes on the wire.
#[derive(Debug, Clone, PartialEq, Eq, PartialOrd, Ord, Hash)]
pub struct ExtendedLocalizedString {
    pub en_gb: String,
    pub ko_kr: String,
    pub fr_fr: String,
    pub de_de: String,
    pub en_cn: String,
    pub en_tw: String,
    pub es_es: String,
    pub es_mx: String,
    pub ru_ru: String,
    pub ja_jp: String,
    pub pt_pt: String,
    pub it_it: String,
    pub unknown_12: String,
    pub unknown_13: String,
    pub unknown_14: String,
    pub unknown_15: String,
    pub flags: u32,
}

/// The mathematical view of an [`ExtendedLocalizedString`].
pub struct ExtendedLocalizedStringV {
    pub en_gb: Seq<char>,
    pub ko_kr: Seq<char>,
    pub fr_fr: Seq<char>,
    pub de_de: Seq<char>,
    pub en_cn: Seq<char>,
    pub en_tw: Seq<char>,
    pub es_es: Seq<char>,
    pub es_mx: Seq<char>,
    pub ru_ru: Seq<char>,
    pub ja_jp: Seq<char>,
    pub pt_pt: Seq<char>,
    pub it_it: Seq<char>,
    pub unknown_12: Seq<char>,
    pub unknown_13: Seq<char>,
    pub unknown_14: Seq<char>,
    pub unknown_15: Seq<char>,
    pub flags: u32,
}

impl View for ExtendedLocalizedString {
    type V = ExtendedLocalizedStringV;

    open spec fn view(&self) -> ExtendedLocalizedStringV {
        ExtendedLocalizedStringV {
            en_gb: self.en_gb@,
            ko_kr: self.ko_kr@,
            fr_fr: self.fr_fr@,
            de_de: self.de_de@,
            en_cn: self.en_cn@,
            en_tw: self.en_tw@,
            es_es: self.es_es@,
            es_mx: self.es_mx@,
            ru_ru: self.ru_ru@,
            ja_jp: self.ja_jp@,
            pt_pt: self.pt_pt@,
            it_it: self.it_it@,
            unknown_12: self.unknown_12@,
            unknown_13: self.unknown_13@,
            unknown_14: self.unknown_14@,
            unknown_15: self.unknown_15@,
            flags: self.flags,
        }
    }
}

/// The sixteen locale strings, in wire order.
pub open spec fn ext_strs(l: ExtendedLocalizedStringV) -> Seq<Seq<char>> {
    seq![
        l.en_gb,
        l.ko_kr,
        l.fr_fr,
        l.de_de,
        l.en_cn,
        l.en_tw,
        l.es_es,
        l.es_mx,
        l.ru_ru,
        l.ja_jp,
        l.pt_pt,
        l.it_it,
        l.unknown_12,
        l.unknown_13,
        l.unknown_14,
        l.unknown_15,
    ]
}

/// The string slots an extended localized string contributes to the block.
pub open spec fn ext_slots(l: ExtendedLocalizedStringV) -> Seq<Seq<u8>> {
    strs_slots(ext_strs(l))
}

/// The 68 record bytes a writer emits for an extended localized string at
/// cursor `c`.
pub open spec fn ext_rec_bytes(l: ExtendedLocalizedStringV, c: int) -> Seq<u8> {
    strs_rec_bytes(ext_strs(l), c) + u32_le(l.flags)
}

/// What a reader makes of 68 record bytes at `pos` against the block.
pub open spec fn decode_ext(rec: Seq<u8>, pos: int, block: Seq<u8>) -> Result<
    ExtendedLocalizedStringV,
    DbcError,
> {
    match decode_strs(rec, pos, 16, block) {
        Err(e) => Err(e),
        Ok(ss) => Ok(
            ExtendedLocalizedStringV {
                en_gb: ss[0],
                ko_kr: ss[1],
                fr_fr: ss[2],
                de_de: ss[3],
                en_cn: ss[4],
                en_tw: ss[5],
                es_es: ss[6],
                es_mx: ss[7],
                ru_ru: ss[8],
                ja_jp: ss[9],
                pt_pt: ss[10],
                it_it: ss[11],
                unknown_12: ss[12],
                unknown_13: ss[13],
                unknown_14: ss[14],
                unknown_15: ss[15],
                flags: u32_at(rec, pos + 64),
            },
        ),
    }
}

impl ExtendedLocalizedString {
    /// The locale strings as a list, in wire order.
    fn to_list(&self) -> (r: Vec<String>)
        ensures
            strs_view(r@) == ext_strs(self@),
    {
        let mut v: Vec<String> = Vec::new();
        v.push(self.en_gb.clone());
        v.push(self.ko_kr.clone());
        v.push(self.fr_fr.clone());
        v.push(self.de_de.clone());
        v.push(self.en_cn.clone());
        v.push(self.en_tw.clone());
        v.push(self.es_es.clone());
        v.push(self.es_mx.clone());
        v.push(self.ru_ru.clone());
        v.push(self.ja_jp.clone());
        v.push(self.pt_pt.clone());
        v.push(self.it_it.clone());
        v.push(self.unknown_12.clone());
        v.push(self.unknown_13.clone());
        v.push(self.unknown_14.clone());
        v.push(self.unknown_15.clone());
        proof {
            assert(strs_view(v@) =~= ext_strs(self@));
        }
        v
    }

    /// Reads the 68-byte extended localized string at `*pos`, resolving
    /// every locale slot in `block`.
    pub fn read(rec: &[u8], pos: &mut usize, block: &[u8]) -> (r: Result<
        ExtendedLocalizedString,
        DbcError,
    >)
        requires
            *old(pos) + 68 <= rec@.len(),
        ensures
            match r {
                Ok(l) => {
                    &&& *final(pos) == *old(pos) + 68
                    &&& decode_ext(rec@, *old(pos) as int, block@) == Ok::<
                        ExtendedLocalizedStringV,
                        DbcError,
                    >(l@)
                },
                Err(e) => decode_ext(rec@, *old(pos) as int, block@) == Err::<
                    ExtendedLocalizedStringV,
                    DbcError,
                >(e),
            },
    {
        let v = match read_str_list(rec, pos, 16, block) {
            Ok(v) => v,
            Err(e) => {
                return Err(e);
            },
        };
        let flags = read_u32_le(rec, pos);
        let l = ExtendedLocalizedString {
            en_gb: v[0].clone(),
            ko_kr: v[1].clone(),
            fr_fr: v[2].clone(),
            de_de: v[3].clone(),
            en_cn: v[4].clone(),
            en_tw: v[5].clone(),
            es_es: v[6].clone(),
            es_mx: v[7].clone(),
            ru_ru: v[8].clone(),
            ja_jp: v[9].clone(),
            pt_pt: v[10].clone(),
            it_it: v[11].clone(),
            unknown_12: v[12].clone(),
            unknown_13: v[13].clone(),
            unknown_14: v[14].clone(),
            unknown_15: v[15].clone(),
            flags,
        };
        proof {
            let ss = strs_view(v@);
            assert forall|j: int| 0 <= j < 16 implies ss[j] == v@[j]@ by {}
        }
        Ok(l)
    }

    /// Emits the 68 record bytes: sixteen string references, then the flags
    /// word verbatim.
    pub fn write(&self, out: &mut Vec<u8>, cursor: &mut u64)
        requires
            1 <= *old(cursor),
            *old(cursor) + block_len(ext_slots(self@)) <= u32::MAX,
        ensures
            final(out)@ == old(out)@ + ext_rec_bytes(self@, *old(cursor) as int),
            *final(cursor) == *old(cursor) + block_len(ext_slots(self@)),
    {
        let tmp = self.to_list();
        write_str_list(out, &tmp, cursor);
        push_u32_le(out, self.flags);
        proof {
            assert(final(out)@ =~= old(out)@ + ext_rec_bytes(self@, *old(cursor) as int));
        }
    }

    /// Appends every non-empty locale string to the string block.
    pub fn write_block(&self, out: &mut Vec<u8>)
        ensures
            final(out)@ == old(out)@ + block_bytes(ext_slots(self@)),
    {
        let tmp = self.to_list();
        push_block_slots(out, &tmp);
    }

    /// The number of string-block bytes the locale strings will occupy.
    pub fn block_size(&self) -> (r: u64)
        requires
            block_len(ext_slots(self@)) <= u32::MAX,
        ensures
            r == block_len(ext_slots(self@)),
    {
        let tmp = self.to_list();
        str_list_block_size(&tmp)
    }
}

/// Decoding the written 68 bytes against a block holding the slots at `c`
/// gives the extended localized string back.
pub proof fn lemma_ext_round_trip(
    l: ExtendedLocalizedStringV,
    rec: Seq<u8>,
    pos: int,
    block: Seq<u8>,
    c: int,
)
    requires
        slots_wf(ext_slots(l)),
        1 <= c,
        c + block_len(ext_slots(l)) <= u32::MAX,
        c + block_len(ext_slots(l)) <= block.len(),
        block[0] == 0,
        block.subrange(c, c + block_len(ext_slots(l))) == block_bytes(ext_slots(l)),
        0 <= pos,
        pos + 68 <= rec.len(),
        rec.subrange(pos, pos + 68) == ext_rec_bytes(l, c),
    ensures
        decode_ext(rec, pos, block) == Ok::<ExtendedLocalizedStringV, DbcError>(l),
{
    let ss = ext_strs(l);
    lemma_strs_rec_bytes_len(ss, c);
    assert(rec.subrange(pos, pos + 64) =~= strs_rec_bytes(ss, c)) by {
        assert(forall|j: int|
            0 <= j < 68 ==> rec.subrange(pos, pos + 68)[j] == ext_rec_bytes(l, c)[j]);
    }
    lemma_strs_round_trip(ss, rec, pos, block, c, 16);
    assert(ss.take(16) =~= ss);
    lemma_u32_le_len(l.flags);
    assert(rec.subrange(pos + 64, pos + 68) =~= u32_le(l.flags)) by {
        assert forall|j: int| 0 <= j < 4 implies rec.subrange(pos + 64, pos + 68)[j] == u32_le(
            l.flags,
        )[j] by {
            assert(rec.subrange(pos + 64, pos + 68)[j] == rec[pos + 64 + j]);
            assert(rec.subrange(pos, pos + 68)[64 + j] == rec[pos + 64 + j]);
            assert(ext_rec_bytes(l, c)[64 + j] == u32_le(l.flags)[j]);
        }
    }
    lemma_u32_at_of_le(rec, pos + 64, l.flags);
}

} // verus!
