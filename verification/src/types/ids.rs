//! Identities: 128-bit values that are written as UUIDs.

use vstd::prelude::*;

use crate::number::digit;
use crate::text::{has_substring, middle_is_found};

verus! {

/// The identity of a thread.
#[derive(Debug, Clone, Copy, PartialEq, Eq, Structural)]
pub struct ThreadId(pub u128);

/// The identity of a step of a thread.
#[derive(Debug, Clone, Copy, PartialEq, Eq, Structural)]
pub struct StepId(pub u128);

/// The identity of a lease.
#[derive(Debug, Clone, Copy, PartialEq, Eq, Structural)]
pub struct LeaseId(pub u128);

/// The identity of a memory document.
#[derive(Debug, Clone, Copy, PartialEq, Eq, Structural)]
pub struct DocId(pub u128);

/// The identity of a project.
#[derive(Debug, Clone, Copy, PartialEq, Eq, Structural)]
pub struct ProjectId(pub u128);

/// The last hexadecimal digits of a number, with zeros in front where it has fewer.
pub open spec fn last_digits(n: nat, count: nat) -> Seq<char>
    decreases count,
{
    if count == 0 {
        Seq::empty()
    } else {
        last_digits(n / 16, (count - 1) as nat).push(digit(n % 16))
    }
}

/// The text of a UUID: 32 hexadecimal digits in groups of eight, four, four, four and
/// twelve, with hyphens between them.
pub open spec fn uuid_text(n: u128) -> Seq<char> {
    let d = last_digits(n as nat, 32);
    d.subrange(0, 8).push('-') + d.subrange(8, 12).push('-') + d.subrange(12, 16).push('-')
        + d.subrange(16, 20).push('-') + d.subrange(20, 32)
}

/// The value that `uuid::Uuid::parse_str` reads from a text; `None` where it
/// returns an error.
pub uninterp spec fn uuid_parsed(text: Seq<char>) -> Option<u128>;

/// Writes a value as a hyphenated UUID: `Display` of `uuid::Uuid`. The text is that of
/// `uuid_text`, in small letters, and it is read back as that value.
#[verifier::external_body]
pub(crate) fn write_uuid(n: u128) -> (r: String)
    ensures
        r@ == uuid_text(n),
        uuid_parsed(r@) == Some(n),
{
    uuid::Uuid::from_u128(n).to_string()
}

/// Reads a UUID with `uuid::Uuid::parse_str`. The result is a function of the
/// text alone, which `uuid_parsed` names.
#[verifier::external_body]
pub(crate) fn read_uuid(text: &str) -> (r: Option<u128>)
    ensures
        r == uuid_parsed(text@),
{
    uuid::Uuid::parse_str(text).ok().map(|u| u.as_u128())
}

/// How a lease identity is shown in messages.
pub open spec fn lease_id_text(id: LeaseId) -> Seq<char> {
    "LeaseId("@ + uuid_text(id.0) + ")"@
}

impl LeaseId {
    /// How the identity is shown in messages.
    pub fn text(&self) -> (r: String)
        ensures
            r@ == lease_id_text(*self),
    {
        let mut s = "LeaseId(".to_owned();
        s.append(write_uuid(self.0).as_str());
        s.append(")");
        s
    }
}

impl ThreadId {
    /// How the identity is shown in messages.
    pub fn text(&self) -> (r: String)
        ensures
            r@ == uuid_text(self.0),
    {
        write_uuid(self.0)
    }
}

impl StepId {
    /// The text of the identity.
    pub fn text(&self) -> (r: String)
        ensures
            r@ == uuid_text(self.0),
    {
        write_uuid(self.0)
    }
}

impl DocId {
    /// How the identity is shown in messages.
    pub fn text(&self) -> (r: String)
        ensures
            r@ == uuid_text(self.0),
    {
        write_uuid(self.0)
    }

    /// Reads an identity from its text.
    pub fn parse(text: &str) -> (r: Option<DocId>)
        ensures
            r == (match uuid_parsed(text@) {
                Some(n) => Some(DocId(n)),
                None => None,
            }),
    {
        match read_uuid(text) {
            Some(n) => Some(DocId(n)),
            None => None,
        }
    }
}

spec fn within(n: nat, count: nat) -> bool
    decreases count,
{
    if count == 0 {
        n == 0
    } else {
        within(n / 16, (count - 1) as nat)
    }
}

proof fn lemma_last_digits(a: nat, b: nat, count: nat)
    ensures
        last_digits(a, count).len() == count,
        within(a, count) && within(b, count) && last_digits(a, count) == last_digits(b, count)
            ==> a == b,
    decreases count,
{
    if count > 0 {
        let s = last_digits(a, count);
        let t = last_digits(b, count);
        let m = (count - 1) as nat;
        lemma_last_digits(a / 16, b / 16, m);
        if within(a, count) && within(b, count) && s == t {
            assert(s.last() == digit(a % 16));
            assert(t.last() == digit(b % 16));
            assert(s.drop_last() =~= last_digits(a / 16, m));
            assert(t.drop_last() =~= last_digits(b / 16, m));
            assert(a % 16 == b % 16);
        }
    }
}

/// A UUID has thirty-six characters, with hyphens in the four places between its groups.
pub proof fn uuids_are_written_in_groups(n: u128)
    ensures
        uuid_text(n).len() == 36,
        uuid_text(n)[8] == '-',
        uuid_text(n)[13] == '-',
        uuid_text(n)[18] == '-',
        uuid_text(n)[23] == '-',
        uuid_text(n)[35] == digit((n % 16) as nat),
{
    lemma_last_digits(n as nat, n as nat, 32);
    let d = last_digits(n as nat, 32);
    assert(d[31] == digit((n as nat) % 16));
    let g = uuid_text(n);
    assert(g[35] == d.subrange(20, 32)[11]);
}

/// Two UUIDs that are written alike are one.
pub proof fn uuids_are_told_apart(a: u128, b: u128)
    requires
        uuid_text(a) == uuid_text(b),
    ensures
        a == b,
{
    let d = last_digits(a as nat, 32);
    let e = last_digits(b as nat, 32);
    lemma_last_digits(a as nat, b as nat, 32);
    lemma_last_digits(b as nat, a as nat, 32);
    let s = uuid_text(a);
    let t = uuid_text(b);
    assert forall|i: int| 0 <= i < 32 implies (#[trigger] d[i]) == e[i] by {
        let k = if i < 8 {
            i
        } else if i < 12 {
            i + 1
        } else if i < 16 {
            i + 2
        } else if i < 20 {
            i + 3
        } else {
            i + 4
        };
        assert(s[k] == d[i]);
        assert(t[k] == e[i]);
    }
    assert(d =~= e);
    reveal_with_fuel(within, 33);
    assert(within(a as nat, 32));
    assert(within(b as nat, 32));
}

/// A lease is shown with its identity.
pub proof fn leases_are_shown_with_their_identity(id: LeaseId)
    ensures
        has_substring(lease_id_text(id), uuid_text(id.0)),
{
    middle_is_found("LeaseId("@, uuid_text(id.0), ")"@);
}

} // verus!
