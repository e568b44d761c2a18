//! A JSON document held as plain values.
//!
//! The loosely-typed input that reaches the service (signal-definition
//! documents, client-supplied values) is carried in this shape. A number
//! records, besides its exact integer readings where they exist, its
//! double- and single-precision bit patterns, fixed at the boundary that
//! read the text: the verified core does no floating-point arithmetic and
//! treats the patterns as opaque payloads.

use vstd::prelude::*;

verus! {

/// A JSON number.
///
/// `int_val` is present exactly when the number is an integer that fits a
/// signed 64-bit value; `uint_val` exactly when it is a non-negative
/// integer that fits an unsigned 64-bit value. `double_bits` and
/// `float_bits` hold the number rounded to double and single precision,
/// by bit pattern, fixed by the reader of the text.
#[derive(Debug, Clone, PartialEq, Eq)]
pub struct JsonNum {
    pub int_val: Option<i64>,
    pub uint_val: Option<u64>,
    pub float_bits: u32,
    pub double_bits: u64,
}

/// A JSON value.
#[derive(Debug, PartialEq, Eq)]
pub enum Json {
    Null,
    Bool(bool),
    Num(JsonNum),
    Str(String),
    Arr(Vec<Json>),
    Obj(Vec<(String, Json)>),
}

/// The value under the given key among the members of a JSON object, the
/// first match where a key repeats.
pub open spec fn spec_find_member(members: Seq<(String, Json)>, key: Seq<char>) -> Option<Json>
    decreases members.len(),
{
    if members.len() == 0 {
        Option::None
    } else if members[0].0@ == key {
        Option::Some(members[0].1)
    } else {
        spec_find_member(members.drop_first(), key)
    }
}

/// A found member is one of the sequence's entries.
pub proof fn lemma_find_member_witness(members: Seq<(String, Json)>, key: Seq<char>)
    requires
        spec_find_member(members, key) is Some,
    ensures
        exists|j: int| 0 <= j < members.len() && (#[trigger] members[j]).1 == spec_find_member(
            members,
            key,
        )->Some_0,
    decreases members.len(),
{
    if members[0].0@ == key {
        assert(members[0].1 == spec_find_member(members, key)->Some_0);
    } else {
        lemma_find_member_witness(members.drop_first(), key);
        let j = choose|j: int| 0 <= j < members.drop_first().len() && (
        #[trigger] members.drop_first()[j]).1 == spec_find_member(
            members.drop_first(),
            key,
        )->Some_0;
        assert(members[j + 1].1 == spec_find_member(members, key)->Some_0);
    }
}

impl Json {
    /// The member of a JSON object under the given key, if the value is an
    /// object holding that key.
    pub open spec fn spec_get(self, key: Seq<char>) -> Option<Json> {
        match self {
            Json::Obj(members) => spec_find_member(members@, key),
            _ => Option::None,
        }
    }

    /// Looks a key up in a JSON object, as `spec_get` describes.
    pub fn get(&self, key: &str) -> (r: Option<&Json>)
        ensures
            match r {
                Option::Some(j) => self.spec_get(key@) == Option::Some(*j),
                Option::None => self.spec_get(key@) is None,
            },
    {
        match self {
            Json::Obj(members) => {
                let key_string = key.to_owned();
                let n = members.len();
                let mut i: usize = 0;
                proof {
                    assert(members@.skip(0) =~= members@);
                    assert(self.spec_get(key@) == spec_find_member(members@, key@));
                }
                while i < n
                    invariant
                        n == members@.len(),
                        i <= n,
                        key_string@ == key@,
                        self.spec_get(key@) == spec_find_member(members@, key@),
                        spec_find_member(members@, key@) == spec_find_member(
                            members@.skip(i as int),
                            key@,
                        ),
                    decreases n - i,
                {
                    proof {
                        assert(members@.skip(i as int).drop_first() =~= members@.skip(i + 1));
                        assert(members@.skip(i as int)[0] == members@[i as int]);
                    }
                    if members[i].0.eq(&key_string) {
                        proof {
                            assert(members@.skip(i as int).len() > 0);
                            assert(members@.skip(i as int)[0].0@ == key@);
                            assert(spec_find_member(members@.skip(i as int), key@)
                                == Option::Some(members@[i as int].1));
                        }
                        return Option::Some(&members[i].1);
                    }
                    i = i + 1;
                }
                proof {
                    assert(members@.skip(n as int) =~= Seq::<(String, Json)>::empty());
                }
                Option::None
            },
            _ => Option::None,
        }
    }
}

} // verus!
