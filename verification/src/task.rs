//! Tasks and how they are stored.

use vstd::prelude::*;
use vstd::bytes::*;
use vstd::string::*;
use crate::codec::{
    lemma_taken_bool, lemma_taken_text, lemma_taken_u64, bool_bytes, lemma_take_bool, lemma_take_text, lemma_take_u64, lemma_text_len, put_bool,
    put_text, put_u64, read_bool, read_text, read_u64, take_bool, take_text, take_u64, text_bytes,
    MAX_RECORD_SIZE,
};
use crate::record::Record;

verus! {

/// A piece of work to be done on a crop.
#[derive(Clone, Debug, PartialEq, Eq)]
pub struct Task {
    /// The identifier under which the task is stored.
    pub id: u64,
    pub name: String,
    pub description: String,
    /// Whether the work has been done.
    pub completed: bool,
    /// The identifier of the crop that the task is for. Nothing checks that
    /// such a crop is stored.
    pub crop_id: u64,
    /// When the task was created.
    pub created_at: u64,
}

/// What a caller supplies of a task.
#[derive(Clone, Debug, PartialEq, Eq)]
pub struct TaskPayload {
    pub name: String,
    pub description: String,
    pub crop_id: u64,
}

/// The mathematical value of a [`Task`].
pub struct TaskView {
    pub id: u64,
    pub name: Seq<char>,
    pub description: Seq<char>,
    pub completed: bool,
    pub crop_id: u64,
    pub created_at: u64,
}

impl View for Task {
    type V = TaskView;

    open spec fn view(&self) -> TaskView {
        TaskView {
            id: self.id,
            name: self.name@,
            description: self.description@,
            completed: self.completed,
            crop_id: self.crop_id,
            created_at: self.created_at,
        }
    }
}

impl Record for Task {
    open spec fn key(v: TaskView) -> u64 {
        v.id
    }

    open spec fn encoding(v: TaskView) -> Seq<u8> {
        spec_u64_to_le_bytes(v.id) + (text_bytes(v.name) + (text_bytes(v.description) + (
        bool_bytes(v.completed) + (spec_u64_to_le_bytes(v.crop_id) + spec_u64_to_le_bytes(
            v.created_at,
        )))))
    }

    open spec fn decoding(bytes: Seq<u8>) -> Option<TaskView> {
        match take_u64(bytes) {
            Some((id, s1)) => match take_text(s1) {
                Some((name, s2)) => match take_text(s2) {
                    Some((description, s3)) => match take_bool(s3) {
                        Some((completed, s4)) => match take_u64(s4) {
                            Some((crop_id, s5)) => match take_u64(s5) {
                                Some((created_at, s6)) => if s6.len() == 0 {
                                    Some(
                                        TaskView {
                                            id,
                                            name,
                                            description,
                                            completed,
                                            crop_id,
                                            created_at,
                                        },
                                    )
                                } else {
                                    None
                                },
                                None => None,
                            },
                            None => None,
                        },
                        None => None,
                    },
                    None => None,
                },
                None => None,
            },
            None => None,
        }
    }

    proof fn lemma_round_trip(v: TaskView) {
        lemma_auto_spec_u64_to_from_le_bytes();
        lemma_text_len(v.name);
        lemma_text_len(v.description);
        let f6 = spec_u64_to_le_bytes(v.created_at);
        let f5 = spec_u64_to_le_bytes(v.crop_id) + f6;
        let f4 = bool_bytes(v.completed) + f5;
        let f3 = text_bytes(v.description) + f4;
        let f2 = text_bytes(v.name) + f3;
        lemma_take_u64(v.id, f2);
        lemma_take_text(v.name, f3);
        lemma_take_text(v.description, f4);
        lemma_take_bool(v.completed, f5);
        lemma_take_u64(v.crop_id, f6);
        lemma_take_u64(v.created_at, Seq::empty());
        assert(f6 + Seq::<u8>::empty() =~= f6);
    }

    proof fn lemma_decoding_is_exact(bytes: Seq<u8>) {
        lemma_taken_u64(bytes);
        let s1 = take_u64(bytes).unwrap().1;
        lemma_taken_text(s1);
        let s2 = take_text(s1).unwrap().1;
        lemma_taken_text(s2);
        let s3 = take_text(s2).unwrap().1;
        lemma_taken_bool(s3);
        let s4 = take_bool(s3).unwrap().1;
        lemma_taken_u64(s4);
        let s5 = take_u64(s4).unwrap().1;
        lemma_taken_u64(s5);
        let s6 = take_u64(s5).unwrap().1;
        assert(s5 =~= spec_u64_to_le_bytes(take_u64(s5).unwrap().0)) by {
            assert(s6 =~= Seq::<u8>::empty());
        }
    }

    fn id(&self) -> (k: u64) {
        self.id
    }

    fn encode(&self) -> (r: Option<Vec<u8>>) {
        proof {
            lemma_auto_spec_u64_to_from_le_bytes();
            lemma_text_len(self.name@);
            lemma_text_len(self.description@);
        }
        let name_len = self.name.as_str().as_bytes().len();
        let description_len = self.description.as_str().as_bytes().len();
        if name_len > MAX_RECORD_SIZE || description_len > MAX_RECORD_SIZE {
            return None;
        }
        if 33 + name_len + description_len > MAX_RECORD_SIZE {
            return None;
        }
        let mut buf: Vec<u8> = Vec::new();
        put_u64(&mut buf, self.id);
        put_text(&mut buf, self.name.as_str());
        put_text(&mut buf, self.description.as_str());
        put_bool(&mut buf, self.completed);
        put_u64(&mut buf, self.crop_id);
        put_u64(&mut buf, self.created_at);
        assert(buf@ =~= Self::encoding(self@));
        Some(buf)
    }

    fn decode(bytes: &[u8]) -> (r: Option<Task>) {
        assert(bytes@.skip(0) =~= bytes@);
        let (id, at) = match read_u64(bytes, 0) {
            Some(p) => p,
            None => { return None; },
        };
        let (name, at) = match read_text(bytes, at) {
            Some(p) => p,
            None => { return None; },
        };
        let (description, at) = match read_text(bytes, at) {
            Some(p) => p,
            None => { return None; },
        };
        let (completed, at) = match read_bool(bytes, at) {
            Some(p) => p,
            None => { return None; },
        };
        let (crop_id, at) = match read_u64(bytes, at) {
            Some(p) => p,
            None => { return None; },
        };
        let (created_at, at) = match read_u64(bytes, at) {
            Some(p) => p,
            None => { return None; },
        };
        if at != bytes.len() {
            return None;
        }
        Some(Task { id, name, description, completed, crop_id, created_at })
    }
}

} // verus!
