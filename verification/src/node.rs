//! A cluster member's record: its random id, its leader, its followers and
//! the checksum of its log.
use vstd::prelude::*;

verus! {

/// Whether `c` is a lower-case hexadecimal digit.
pub open spec fn is_lower_hex(c: char) -> bool {
    ('0' <= c && c <= '9') || ('a' <= c && c <= 'f')
}

/// The text of a random (version 4) UUID in hyphenated lower-case form:
/// 36 characters, hyphens at positions 8, 13, 18 and 23, lower-case hex
/// digits elsewhere, the version digit `4` at position 14 and one of
/// `8`, `9`, `a`, `b` at position 19.
pub open spec fn is_v4_uuid_text(s: Seq<char>) -> bool {
    &&& s.len() == 36
    &&& forall|i: int|
        0 <= i < 36 ==> if i == 8 || i == 13 || i == 18 || i == 23 {
            s[i] == '-'
        } else {
            is_lower_hex(#[trigger] s[i])
        }
    &&& s[14] == '4'
    &&& (s[19] == '8' || s[19] == '9' || s[19] == 'a' || s[19] == 'b')
}

/// Calls `uuid::Uuid::new_v4` and converts the id to a `String`. The source
/// sets the version nibble to 4 and the variant bits to `10`, and the
/// conversion writes the hyphenated lower-case form; which random id comes
/// back is not stated.
#[verifier::external_body]
fn new_v4_text() -> (r: String)
    ensures
        is_v4_uuid_text(r@),
{
    uuid::Uuid::new_v4().into()
}

pub struct Node {
    pub id: String,
    pub leader_address: Option<String>,
    pub follower_address: Vec<String>,
    pub log_checksum: String,
}

impl Node {
    /// A node with the given id, no followers and an empty checksum. The
    /// leader address is kept when `is_leader` holds and dropped otherwise.
    pub fn with_id(id: String, is_leader: bool, leader_address: String) -> (r: Self)
        ensures
            r.id == id,
            is_leader ==> r.leader_address == Some(leader_address),
            !is_leader ==> r.leader_address is None,
            r.follower_address@.len() == 0,
            r.log_checksum@ == Seq::<char>::empty(),
    {
        if is_leader {
            return Self {
                id,
                leader_address: Some(leader_address),
                follower_address: Vec::new(),
                log_checksum: String::new(),
            };
        }
        Self { id, leader_address: None, follower_address: Vec::new(), log_checksum: String::new() }
    }

    /// A node with a fresh random id; otherwise as `with_id`.
    pub fn new(is_leader: bool, leader_address: String) -> (r: Self)
        ensures
            is_v4_uuid_text(r.id@),
            is_leader ==> r.leader_address == Some(leader_address),
            !is_leader ==> r.leader_address is None,
            r.follower_address@.len() == 0,
            r.log_checksum@ == Seq::<char>::empty(),
    {
        let id: String = new_v4_text();
        Self::with_id(id, is_leader, leader_address)
    }
}

} // verus!
