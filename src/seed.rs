//! Sample data for an empty store: random identifiers of the shape `0x`
//! followed by ASCII letters and digits.
use vstd::prelude::*;
use rand::Rng;
use crate::guard::AllowlistGuard;
use crate::models::NewEntry;

verus! {

/// The number of random characters after the `0x` prefix.
pub const DUMMY_ADDRESS_CHARS: usize = 40;

/// An ASCII letter or digit.
pub open spec fn is_ascii_alphanumeric(c: char) -> bool {
    ('a' <= c && c <= 'z') || ('A' <= c && c <= 'Z') || ('0' <= c && c <= '9')
}

/// `0x` followed by `DUMMY_ADDRESS_CHARS` ASCII letters and digits.
pub open spec fn is_dummy_address(s: Seq<char>) -> bool {
    &&& s.len() == 2 + DUMMY_ADDRESS_CHARS
    &&& s[0] == '0'
    &&& s[1] == 'x'
    &&& forall|i: int| 2 <= i < s.len() ==> is_ascii_alphanumeric(#[trigger] s[i])
}

/// Relies on `rand::Rng::sample` with `rand::distributions::Alphanumeric` on the
/// thread-local generator: a byte drawn from `A-Z`, `a-z` and `0-9`, turned
/// into a `char` by `char::from`.
#[verifier::external_body]
fn random_alphanumeric() -> (c: char)
    ensures
        is_ascii_alphanumeric(c),
{
    char::from(rand::thread_rng().sample(rand::distributions::Alphanumeric))
}

/// Relies on `String::push`: appends one character.
#[verifier::external_body]
fn push_char(s: &mut String, c: char)
    ensures
        final(s)@ == old(s)@.push(c),
{
    s.push(c)
}

/// A fresh random identifier of the dummy shape.
fn random_address() -> (r: String)
    ensures
        is_dummy_address(r@),
{
    let mut address = String::new();
    push_char(&mut address, '0');
    push_char(&mut address, 'x');
    let mut i: usize = 0;
    while i < DUMMY_ADDRESS_CHARS
        invariant
            i <= DUMMY_ADDRESS_CHARS,
            address@.len() == 2 + i,
            address@[0] == '0',
            address@[1] == 'x',
            forall|j: int| 2 <= j < address@.len() ==> is_ascii_alphanumeric(#[trigger] address@[j]),
        decreases DUMMY_ADDRESS_CHARS - i,
    {
        let c = random_alphanumeric();
        push_char(&mut address, c);
        i = i + 1;
    }
    address
}

impl AllowlistGuard {
    /// The rows to seed a store with, given how many it already holds:
    /// nothing when it holds at least `count`, else `count` fresh random
    /// identifiers.
    pub fn migrate_dummy_data(current_count: i64, count: usize) -> (r: Option<Vec<NewEntry>>)
        ensures
            r is None <==> current_count >= count,
            r is Some ==> r->Some_0@.len() == count,
            r is Some ==> forall|i: int|
                0 <= i < count ==> is_dummy_address(#[trigger] r->Some_0@[i].wallet_address@),
    {
        if current_count >= 0 && current_count as u64 >= count as u64 {
            return None;
        }
        let mut entries: Vec<NewEntry> = Vec::new();
        let mut i: usize = 0;
        while i < count
            invariant
                i <= count,
                entries@.len() == i,
                forall|j: int| 0 <= j < i ==> is_dummy_address(#[trigger] entries@[j].wallet_address@),
            decreases count - i,
        {
            let wallet_address = random_address();
            entries.push(NewEntry { wallet_address });
            i = i + 1;
        }
        Some(entries)
    }
}

} // verus!
