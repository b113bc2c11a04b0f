//! Crops and how they are stored.

use vstd::prelude::*;
use vstd::bytes::*;
use vstd::string::*;
use crate::codec::{
    lemma_taken_opt, lemma_taken_text, lemma_taken_u32, lemma_taken_u64, lemma_take_opt, lemma_take_text, lemma_take_u32, lemma_take_u64, lemma_text_len, opt_bytes,
    put_opt, put_text, put_u32, put_u64, read_opt, read_text, read_u32, read_u64, take_opt,
    take_text, take_u32, take_u64, text_bytes, MAX_RECORD_SIZE,
};
use crate::record::Record;

verus! {

/// A crop that the farm grows.
#[derive(Clone, Debug, PartialEq, Eq)]
pub struct Crop {
    /// The identifier under which the crop is stored.
    pub id: u64,
    pub name: String,
    pub description: String,
    /// How much of the crop there is.
    pub quantity: u32,
    /// When the crop was created.
    pub created_at: u64,
    /// When the crop was last updated; `None` until its first update.
    pub updated_at: Option<u64>,
}

/// What a caller supplies of a crop.
#[derive(Clone, Debug, PartialEq, Eq)]
pub struct CropPayload {
    pub name: String,
    pub description: String,
    pub quantity: u32,
}

/// The mathematical value of a [`Crop`].
pub struct CropView {
    pub id: u64,
    pub name: Seq<char>,
    pub description: Seq<char>,
    pub quantity: u32,
    pub created_at: u64,
    pub updated_at: Option<u64>,
}

impl View for Crop {
    type V = CropView;

    open spec fn view(&self) -> CropView {
        CropView {
            id: self.id,
            name: self.name@,
            description: self.description@,
            quantity: self.quantity,
            created_at: self.created_at,
            updated_at: self.updated_at,
        }
    }
}

impl Record for Crop {
    open spec fn key(v: CropView) -> u64 {
        v.id
    }

    open spec fn encoding(v: CropView) -> Seq<u8> {
        spec_u64_to_le_bytes(v.id) + (text_bytes(v.name) + (text_bytes(v.description) + (
        spec_u32_to_le_bytes(v.quantity) + (spec_u64_to_le_bytes(v.created_at) + opt_bytes(
            v.updated_at,
        )))))
    }

    open spec fn decoding(bytes: Seq<u8>) -> Option<CropView> {
        match take_u64(bytes) {
            Some((id, s1)) => match take_text(s1) {
                Some((name, s2)) => match take_text(s2) {
                    Some((description, s3)) => match take_u32(s3) {
                        Some((quantity, s4)) => match take_u64(s4) {
                            Some((created_at, s5)) => match take_opt(s5) {
                                Some((updated_at, s6)) => if s6.len() == 0 {
                                    Some(
                                        CropView {
                                            id,
                                            name,
                                            description,
                                            quantity,
                                            created_at,
                                            updated_at,
                                        },
                                    )
                                } else {
                                    None
                                },
                                None => None,
                            },
                            None => None,
                        },
                        None => None,
                    },
                    None => None,
                },
                None => None,
            },
            None => None,
        }
    }

    proof fn lemma_round_trip(v: CropView) {
        lemma_auto_spec_u64_to_from_le_bytes();
        lemma_auto_spec_u32_to_from_le_bytes();
        lemma_text_len(v.name);
        lemma_text_len(v.description);
        let f6 = opt_bytes(v.updated_at);
        let f5 = spec_u64_to_le_bytes(v.created_at) + f6;
        let f4 = spec_u32_to_le_bytes(v.quantity) + f5;
        let f3 = text_bytes(v.description) + f4;
        let f2 = text_bytes(v.name) + f3;
        lemma_take_u64(v.id, f2);
        lemma_take_text(v.name, f3);
        lemma_take_text(v.description, f4);
        lemma_take_u32(v.quantity, f5);
        lemma_take_u64(v.created_at, f6);
        lemma_take_opt(v.updated_at, Seq::empty());
        assert(f6 + Seq::<u8>::empty() =~= f6);
    }

    proof fn lemma_decoding_is_exact(bytes: Seq<u8>) {
        lemma_taken_u64(bytes);
        let s1 = take_u64(bytes).unwrap().1;
        lemma_taken_text(s1);
        let s2 = take_text(s1).unwrap().1;
        lemma_taken_text(s2);
        let s3 = take_text(s2).unwrap().1;
        lemma_taken_u32(s3);
        let s4 = take_u32(s3).unwrap().1;
        lemma_taken_u64(s4);
        let s5 = take_u64(s4).unwrap().1;
        lemma_taken_opt(s5);
        let s6 = take_opt(s5).unwrap().1;
        assert(s5 =~= opt_bytes(take_opt(s5).unwrap().0)) by {
            assert(s6 =~= Seq::<u8>::empty());
        }
    }

    fn id(&self) -> (k: u64) {
        self.id
    }

    fn encode(&self) -> (r: Option<Vec<u8>>) {
        proof {
            lemma_auto_spec_u64_to_from_le_bytes();
            lemma_auto_spec_u32_to_from_le_bytes();
            lemma_text_len(self.name@);
            lemma_text_len(self.description@);
        }
        let name_len = self.name.as_str().as_bytes().len();
        let description_len = self.description.as_str().as_bytes().len();
        if name_len > MAX_RECORD_SIZE || description_len > MAX_RECORD_SIZE {
            return None;
        }
        let tail: usize = if self.updated_at.is_some() { 9 } else { 1 };
        if 28 + name_len + description_len + tail > MAX_RECORD_SIZE {
            return None;
        }
        let mut buf: Vec<u8> = Vec::new();
        put_u64(&mut buf, self.id);
        put_text(&mut buf, self.name.as_str());
        put_text(&mut buf, self.description.as_str());
        put_u32(&mut buf, self.quantity);
        put_u64(&mut buf, self.created_at);
        put_opt(&mut buf, self.updated_at);
        assert(buf@ =~= Self::encoding(self@));
        Some(buf)
    }

    fn decode(bytes: &[u8]) -> (r: Option<Crop>) {
        assert(bytes@.skip(0) =~= bytes@);
        let (id, at) = match read_u64(bytes, 0) {
            Some(p) => p,
            None => { return None; },
        };
        let (name, at) = match read_text(bytes, at) {
            Some(p) => p,
            None => { return None; },
        };
        let (description, at) = match read_text(bytes, at) {
            Some(p) => p,
            None => { return None; },
        };
        let (quantity, at) = match read_u32(bytes, at) {
            Some(p) => p,
            None => { return None; },
        };
        let (created_at, at) = match read_u64(bytes, at) {
            Some(p) => p,
            None => { return None; },
        };
        let (updated_at, at) = match read_opt(bytes, at) {
            Some(p) => p,
            None => { return None; },
        };
        if at != bytes.len() {
            return None;
        }
        Some(Crop { id, name, description, quantity, created_at, updated_at })
    }
}

} // verus!
