//! Expenses and how they are stored.

use vstd::prelude::*;
use vstd::bytes::*;
use vstd::string::*;
use crate::codec::{
    lemma_taken_opt, lemma_taken_text, lemma_taken_u64, lemma_take_opt, lemma_take_text, lemma_take_u64, lemma_text_len, opt_bytes, put_opt, put_text,
    put_u64, read_opt, read_text, read_u64, take_opt, take_text, take_u64, text_bytes,
    MAX_RECORD_SIZE,
};
use crate::record::Record;

verus! {

/// Money spent.
///
/// The amount is a signed real number in binary floating point. The store
/// keeps and returns the 64 bits of that number and never computes with
/// them.
#[derive(Clone, Debug, PartialEq, Eq)]
pub struct Expense {
    /// The identifier under which the expense is stored.
    pub id: u64,
    pub description: String,
    /// The bits of the amount.
    pub amount: u64,
    /// When the expense was created.
    pub timestamp: u64,
    /// The identifier of the crop that the money was spent on, if any.
    /// Nothing checks that such a crop is stored.
    pub crop_id: Option<u64>,
}

/// What a caller supplies of an expense.
#[derive(Clone, Debug, PartialEq, Eq)]
pub struct ExpensePayload {
    pub description: String,
    /// The bits of the amount.
    pub amount: u64,
    pub crop_id: Option<u64>,
}

/// The mathematical value of an [`Expense`].
pub struct ExpenseView {
    pub id: u64,
    pub description: Seq<char>,
    pub amount: u64,
    pub timestamp: u64,
    pub crop_id: Option<u64>,
}

impl View for Expense {
    type V = ExpenseView;

    open spec fn view(&self) -> ExpenseView {
        ExpenseView {
            id: self.id,
            description: self.description@,
            amount: self.amount,
            timestamp: self.timestamp,
            crop_id: self.crop_id,
        }
    }
}

impl Record for Expense {
    open spec fn key(v: ExpenseView) -> u64 {
        v.id
    }

    open spec fn encoding(v: ExpenseView) -> Seq<u8> {
        spec_u64_to_le_bytes(v.id) + (text_bytes(v.description) + (spec_u64_to_le_bytes(v.amount)
            + (spec_u64_to_le_bytes(v.timestamp) + opt_bytes(v.crop_id))))
    }

    open spec fn decoding(bytes: Seq<u8>) -> Option<ExpenseView> {
        match take_u64(bytes) {
            Some((id, s1)) => match take_text(s1) {
                Some((description, s2)) => match take_u64(s2) {
                    Some((amount, s3)) => match take_u64(s3) {
                        Some((timestamp, s4)) => match take_opt(s4) {
                            Some((crop_id, s5)) => if s5.len() == 0 {
                                Some(ExpenseView { id, description, amount, timestamp, crop_id })
                            } else {
                                None
                            },
                            None => None,
                        },
                        None => None,
                    },
                    None => None,
                },
                None => None,
            },
            None => None,
        }
    }

    proof fn lemma_round_trip(v: ExpenseView) {
        lemma_auto_spec_u64_to_from_le_bytes();
        lemma_text_len(v.description);
        let f5 = opt_bytes(v.crop_id);
        let f4 = spec_u64_to_le_bytes(v.timestamp) + f5;
        let f3 = spec_u64_to_le_bytes(v.amount) + f4;
        let f2 = text_bytes(v.description) + f3;
        lemma_take_u64(v.id, f2);
        lemma_take_text(v.description, f3);
        lemma_take_u64(v.amount, f4);
        lemma_take_u64(v.timestamp, f5);
        lemma_take_opt(v.crop_id, Seq::empty());
        assert(f5 + Seq::<u8>::empty() =~= f5);
    }

    proof fn lemma_decoding_is_exact(bytes: Seq<u8>) {
        lemma_taken_u64(bytes);
        let s1 = take_u64(bytes).unwrap().1;
        lemma_taken_text(s1);
        let s2 = take_text(s1).unwrap().1;
        lemma_taken_u64(s2);
        let s3 = take_u64(s2).unwrap().1;
        lemma_taken_u64(s3);
        let s4 = take_u64(s3).unwrap().1;
        lemma_taken_opt(s4);
        let s5 = take_opt(s4).unwrap().1;
        assert(s4 =~= opt_bytes(take_opt(s4).unwrap().0)) by {
            assert(s5 =~= Seq::<u8>::empty());
        }
    }

    fn id(&self) -> (k: u64) {
        self.id
    }

    fn encode(&self) -> (r: Option<Vec<u8>>) {
        proof {
            lemma_auto_spec_u64_to_from_le_bytes();
            lemma_text_len(self.description@);
        }
        let description_len = self.description.as_str().as_bytes().len();
        if description_len > MAX_RECORD_SIZE {
            return None;
        }
        let tail: usize = if self.crop_id.is_some() { 9 } else { 1 };
        if 28 + description_len + tail > MAX_RECORD_SIZE {
            return None;
        }
        let mut buf: Vec<u8> = Vec::new();
        put_u64(&mut buf, self.id);
        put_text(&mut buf, self.description.as_str());
        put_u64(&mut buf, self.amount);
        put_u64(&mut buf, self.timestamp);
        put_opt(&mut buf, self.crop_id);
        assert(buf@ =~= Self::encoding(self@));
        Some(buf)
    }

    fn decode(bytes: &[u8]) -> (r: Option<Expense>) {
        assert(bytes@.skip(0) =~= bytes@);
        let (id, at) = match read_u64(bytes, 0) {
            Some(p) => p,
            None => { return None; },
        };
        let (description, at) = match read_text(bytes, at) {
            Some(p) => p,
            None => { return None; },
        };
        let (amount, at) = match read_u64(bytes, at) {
            Some(p) => p,
            None => { return None; },
        };
        let (timestamp, at) = match read_u64(bytes, at) {
            Some(p) => p,
            None => { return None; },
        };
        let (crop_id, at) = match read_opt(bytes, at) {
            Some(p) => p,
            None => { return None; },
        };
        if at != bytes.len() {
            return None;
        }
        Some(Expense { id, description, amount, timestamp, crop_id })
    }
}

} // verus!
