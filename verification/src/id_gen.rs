//! Issuing of online ids: 5-character uppercase alphanumeric strings, each
//! distinct from every id issued before it in this process.

use rand::RngExt;
use vstd::prelude::*;

verus! {

/// Whether a character is an ASCII letter or digit.
pub open spec fn is_alphanumeric_char(c: char) -> bool {
    (65 <= c as u32 <= 90) || (97 <= c as u32 <= 122) || (48 <= c as u32 <= 57)
}

/// Whether a character is an ASCII uppercase letter or digit.
pub open spec fn is_upper_alphanumeric_char(c: char) -> bool {
    (65 <= c as u32 <= 90) || (48 <= c as u32 <= 57)
}

/// What mapping a character to ASCII uppercase does to its code: lowercase
/// letters move down by 32, every other character keeps its code.
pub open spec fn ascii_upper_code(u: u32) -> u32 {
    if 97 <= u <= 122 {
        (u - 32) as u32
    } else {
        u
    }
}

/// Whether a string is a well-formed online id: exactly 5 uppercase
/// alphanumeric characters.
pub open spec fn is_online_id(s: Seq<char>) -> bool {
    s.len() == 5 && (forall|i: int| 0 <= i < 5 ==> is_upper_alphanumeric_char(#[trigger] s[i]))
}

/// Relies on rand's `Alphanumeric` distribution, sampled through `rand::rng`:
/// every drawn character is one of `A`-`Z`, `a`-`z`, `0`-`9`. Which ones come
/// back is chance; only their count and range hold of every outcome.
#[verifier::external_body]
fn draw_candidate() -> (r: String)
    ensures
        r@.len() == 5,
        forall|i: int| 0 <= i < 5 ==> is_alphanumeric_char(#[trigger] r@[i]),
{
    rand::rng().sample_iter(rand::distr::Alphanumeric).take(5).map(char::from).collect()
}

/// Relies on `str::make_ascii_uppercase`: ASCII lowercase letters are replaced
/// by their uppercase counterparts, all other characters are unchanged.
#[verifier::external_body]
fn ascii_uppercase_in_place(s: &mut String)
    ensures
        final(s)@.len() == old(s)@.len(),
        forall|i: int| 0 <= i < old(s)@.len() ==> (#[trigger] final(s)@[i]) as u32
            == ascii_upper_code(old(s)@[i] as u32),
{
    s.make_ascii_uppercase();
}

/// How many fresh draws one `generate` call makes before giving up, a guard
/// against looping without bound if the id space were ever exhausted.
pub const MAX_DRAW_ATTEMPTS: usize = 64;

/// Issues online ids and remembers every id it has ever returned, so that no
/// two calls ever return the same string.
pub struct IdGenerator {
    used_ids: Vec<String>,
}

impl IdGenerator {
    /// The ids issued so far, in order of issue.
    pub closed spec fn issued(self) -> Seq<Seq<char>> {
        self.used_ids@.map_values(|s: String| s@)
    }

    /// Every issued id is a well-formed online id and no two are equal.
    pub open spec fn wf(self) -> bool {
        &&& forall|i: int| 0 <= i < self.issued().len() ==> is_online_id(#[trigger] self.issued()[i])
        &&& forall|i: int, j: int|
            0 <= i < j < self.issued().len() ==> self.issued()[i] != self.issued()[j]
    }

    /// A generator that has issued nothing yet.
    pub fn new() -> (r: IdGenerator)
        ensures
            r.wf(),
            r.issued().len() == 0,
    {
        IdGenerator { used_ids: Vec::new() }
    }

    /// Whether `id` has been issued before.
    fn contains_id(&self, id: &String) -> (r: bool)
        ensures
            r == self.issued().contains(id@),
    {
        let mut i: usize = 0;
        while i < self.used_ids.len()
            invariant
                0 <= i <= self.used_ids@.len(),
                forall|j: int| 0 <= j < i ==> self.used_ids@[j]@ != id@,
            decreases self.used_ids@.len() - i,
        {
            if self.used_ids[i] == *id {
                proof {
                    assert(self.issued()[i as int] == id@);
                }
                return true;
            }
            i = i + 1;
        }
        proof {
            assert(forall|j: int| 0 <= j < self.issued().len() ==> self.issued()[j] !=
            id@);
        }
        false
    }

    /// Issue a fresh online id: draw random alphanumeric strings, map them to
    /// uppercase, and return the first never issued before, recording it.
    /// Returns `None`, leaving the record unchanged, only if every draw
    /// collided with an already issued id.
    pub fn generate(&mut self) -> (r: Option<String>)
        requires
            old(self).wf(),
        ensures
            final(self).wf(),
            match r {
                Some(id) => {
                    &&& is_online_id(id@)
                    &&& !old(self).issued().contains(id@)
                    &&& final(self).issued() == old(self).issued().push(id@)
                },
                None => *final(self) == *old(self),
            },
    {
        let mut attempts: usize = 0;
        while attempts < MAX_DRAW_ATTEMPTS
            invariant
                self.wf(),
                *self == *old(self),
            decreases MAX_DRAW_ATTEMPTS - attempts,
        {
            let mut candidate = draw_candidate();
            ascii_uppercase_in_place(&mut candidate);
            proof {
                assert forall|i: int| 0 <= i < 5 implies is_upper_alphanumeric_char(
                    #[trigger] candidate@[i],
                ) by {
                    vstd::utf8::char_is_scalar(candidate@[i]);
                }
            }
            if !self.contains_id(&candidate) {
                let issued_id = candidate.clone();
                self.used_ids.push(candidate);
                proof {
                    assert(self.issued() =~= old(self).issued().push(issued_id@));
                }
                return Some(issued_id);
            }
            attempts = attempts + 1;
        }
        None
    }
}

/// An id accepted by `generate` is distinct from everything issued before it,
/// and stays on the record: a later id can collide with neither the earlier
/// record nor the id just issued. Issued ids are therefore pairwise distinct.
pub proof fn lemma_issued_ids_pairwise_distinct(gen: IdGenerator, i: int, j: int)
    requires
        gen.wf(),
        0 <= i < gen.issued().len(),
        0 <= j < gen.issued().len(),
        i != j,
    ensures
        gen.issued()[i] != gen.issued()[j],
        is_online_id(gen.issued()[i]),
{
}

} // verus!
