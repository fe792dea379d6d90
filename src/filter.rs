//! The membership filter: a Bloom filter of identifiers, modelled by the set
//! of identifiers inserted into it.
use vstd::prelude::*;
use bloomfilter::Bloom;
use crate::error::GuardError;

verus! {

#[verifier::external_type_specification]
#[verifier::external_body]
#[verifier::reject_recursive_types(T)]
pub struct ExBloom<T: ?Sized>(Bloom<T>);

/// The identifiers that have been recorded in a Bloom filter.
pub uninterp spec fn bloom_items(b: Bloom<String>) -> Set<Seq<char>>;

/// The largest bitmap, in bytes, whose size in bits still fits in 64 bits.
pub const MAX_BITMAP_BYTES: usize = usize::MAX / 8;

/// Relies on `bloomfilter::Bloom::new`: a filter with nothing recorded and
/// every bit clear. It asserts that both sizes are positive and multiplies the
/// byte count by 8 with a checked multiplication; it also unwraps the OS
/// random source that seeds its hashers.
#[verifier::external_body]
fn bloom_new(bitmap_size: usize, items_count: usize) -> (r: Bloom<String>)
    requires
        0 < bitmap_size <= MAX_BITMAP_BYTES,
        0 < items_count,
    ensures
        bloom_items(r) == Set::<Seq<char>>::empty(),
{
    Bloom::new(bitmap_size, items_count)
}

/// Relies on `bloomfilter::Bloom::set`: records the item, setting its bits.
#[verifier::external_body]
fn bloom_set(b: &mut Bloom<String>, item: &String)
    ensures
        bloom_items(*final(b)) == bloom_items(*old(b)).insert(item@),
{
    b.set(item)
}

/// Relies on `bloomfilter::Bloom::check`: `set` sets every bit that `check`
/// tests for the same item, so a recorded item is always reported. Only `set`
/// sets bits of a filter made by `Bloom::new`, so one with nothing recorded
/// reports nothing.
#[verifier::external_body]
fn bloom_check(b: &Bloom<String>, item: &String) -> (r: bool)
    ensures
        bloom_items(*b).contains(item@) ==> r,
        bloom_items(*b).is_empty() ==> !r,
{
    b.check(item)
}

/// A probabilistic set of identifiers: "definitely absent" or "possibly
/// present", never a false negative. Its view is the set of identifiers
/// inserted so far; entries are never removed.
pub struct MembershipFilter {
    bloom: Bloom<String>,
}

impl View for MembershipFilter {
    type V = Set<Seq<char>>;

    closed spec fn view(&self) -> Set<Seq<char>> {
        bloom_items(self.bloom)
    }
}

/// Whether a bitmap of `bitmap_bytes` bytes for `expected_items` identifiers
/// is a filter that can be built.
pub open spec fn valid_sizing(bitmap_bytes: usize, expected_items: usize) -> bool {
    0 < bitmap_bytes <= MAX_BITMAP_BYTES && 0 < expected_items
}

impl MembershipFilter {
    /// An empty filter with a bitmap of `bitmap_bytes` bytes, sized for
    /// `expected_items` identifiers. Exceeding that count degrades the false
    /// positive rate but is no error.
    pub fn new(bitmap_bytes: usize, expected_items: usize) -> (r: Result<MembershipFilter, GuardError>)
        ensures
            valid_sizing(bitmap_bytes, expected_items) <==> r is Ok,
            r is Ok ==> r->Ok_0@ == Set::<Seq<char>>::empty(),
            r is Err ==> r->Err_0 == GuardError::ConfigurationError,
    {
        if bitmap_bytes == 0 || bitmap_bytes > MAX_BITMAP_BYTES || expected_items == 0 {
            Err(GuardError::ConfigurationError)
        } else {
            Ok(MembershipFilter::with_sizing(bitmap_bytes, expected_items))
        }
    }

    /// An empty filter for a sizing already known to be valid.
    pub fn with_sizing(bitmap_bytes: usize, expected_items: usize) -> (r: MembershipFilter)
        requires
            valid_sizing(bitmap_bytes, expected_items),
        ensures
            r@ == Set::<Seq<char>>::empty(),
    {
        MembershipFilter { bloom: bloom_new(bitmap_bytes, expected_items) }
    }

    /// Marks `key` as present. Idempotent; never fails.
    pub fn insert(&mut self, key: &str)
        ensures
            final(self)@ == old(self)@.insert(key@),
    {
        let item = key.to_owned();
        bloom_set(&mut self.bloom, &item);
    }

    /// `true` when `key` is possibly present, `false` when it is definitely
    /// absent. An inserted key is always possibly present; an empty filter
    /// holds nothing.
    pub fn test(&self, key: &str) -> (r: bool)
        ensures
            self@.contains(key@) ==> r,
            self@.is_empty() ==> !r,
    {
        let item = key.to_owned();
        bloom_check(&self.bloom, &item)
    }
}

} // verus!
