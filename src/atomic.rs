//! Atomic tagged pointers.
//!
//! A tagged pointer is one machine word: the address of an aligned heap object,
//! whose low bits are known to be zero, with a small tag stored in those bits.

use core::marker::PhantomData;
use core::sync::atomic::{AtomicUsize, Ordering};
use vstd::prelude::*;

verus! {

/// `a` is a valid alignment: a power of two.
pub open spec fn is_alignment(a: usize) -> bool {
    a != 0 && a & ((a - 1) as usize) == 0
}

/// The mask of the tag bits for alignment `a`.
pub open spec fn low_mask(a: usize) -> usize {
    (a - 1) as usize
}

/// The address part of a tagged word.
pub open spec fn raw_part(data: usize, a: usize) -> usize {
    data & !low_mask(a)
}

/// The tag part of a tagged word.
pub open spec fn tag_part(data: usize, a: usize) -> usize {
    data & low_mask(a)
}

/// The word with the address part of `data` and the tag `tag`, cut to the tag bits.
pub open spec fn with_tag_word(data: usize, tag: usize, a: usize) -> usize {
    (data & !low_mask(a)) | (tag & low_mask(a))
}

/// An address that leaves the tag bits free.
pub open spec fn is_aligned_to(raw: usize, a: usize) -> bool {
    raw & low_mask(a) == 0
}

/// Word-sized handle types that own a heap object.
///
/// A handle is represented by one machine word: the address of its object, which
/// is never zero and is aligned to `align()`, so that the low bits of the word are
/// free to hold a tag.
pub trait Handle: Sized {
    /// The alignment of the owned object.
    spec fn spec_align() -> usize;

    /// The address that this handle owns.
    spec fn addr(&self) -> usize;

    /// The alignment of the owned object: a power of two.
    fn align() -> (r: usize)
        ensures
            r == Self::spec_align(),
            is_alignment(r),
    ;

    /// Gives up the handle as the address of its object.
    fn into_usize(self) -> (r: usize)
        ensures
            r == self.addr(),
            r != 0,
            is_aligned_to(r, Self::spec_align()),
    ;

    /// Takes back a handle from an address that `into_usize` gave out.
    fn from_usize(data: usize) -> (r: Self)
        requires
            data != 0,
            is_aligned_to(data, Self::spec_align()),
        ensures
            r.addr() == data,
    ;
}

/// The tag of a word survives composing it in, and the address part is kept.
pub proof fn lemma_tag_round_trip(data: usize, tag: usize, a: usize)
    requires
        is_alignment(a),
        tag < a,
    ensures
        tag_part(with_tag_word(data, tag, a), a) == tag,
        raw_part(with_tag_word(data, tag, a), a) == raw_part(data, a),
{
    let m = low_mask(a);
    assert(m == (a - 1) as usize);
    assert(((data & !m) | (tag & m)) & m == tag) by (bit_vector)
        requires
            a != 0,
            a & m == 0,
            m == (a - 1) as usize,
            tag < a,
    ;
    assert(((data & !m) | (tag & m)) & !m == data & !m) by (bit_vector);
}

/// The mask of the tag bits of `H`'s words.
fn low_bits<H: Handle>() -> (r: usize)
    ensures
        r == low_mask(H::spec_align()),
        is_alignment(H::spec_align()),
{
    let a = H::align();
    a - 1
}

/// Puts `tag` into the tag bits of `data`, keeping its address part.
fn compose_tag<H: Handle>(data: usize, tag: usize) -> (r: usize)
    ensures
        r == with_tag_word(data, tag, H::spec_align()),
{
    let m = low_bits::<H>();
    (data & !m) | (tag & m)
}

/// Splits a word into its address part and its tag.
fn decompose_tag<H: Handle>(data: usize) -> (r: (usize, usize))
    ensures
        r.0 == raw_part(data, H::spec_align()),
        r.1 == tag_part(data, H::spec_align()),
{
    let m = low_bits::<H>();
    let raw = data & !m;
    let tag = data & m;
    (raw, tag)
}

/// The ordering that a failed compare-and-set uses when only one ordering is given.
pub open spec fn failure_of(ord: Ordering) -> Ordering {
    match ord {
        Ordering::Relaxed | Ordering::Release => Ordering::Relaxed,
        Ordering::Acquire | Ordering::AcqRel => Ordering::Acquire,
        _ => Ordering::SeqCst,
    }
}

/// A valid pair of compare-and-set orderings: the failure ordering is neither
/// `Release` nor `AcqRel`, and no stronger than the success ordering.
pub open spec fn is_cas_pair(success: Ordering, failure: Ordering) -> bool {
    match failure {
        Ordering::Relaxed => true,
        Ordering::Acquire => success == Ordering::Acquire || success == Ordering::AcqRel || success
            == Ordering::SeqCst,
        Ordering::SeqCst => success == Ordering::SeqCst,
        _ => false,
    }
}

/// The strongest ordering a failed compare-and-set can have, given the success ordering.
fn strongest_failure_ordering(ord: Ordering) -> (r: Ordering)
    ensures
        r == failure_of(ord),
        is_cas_pair(ord, r),
{
    match ord {
        Ordering::Relaxed | Ordering::Release => Ordering::Relaxed,
        Ordering::Acquire | Ordering::AcqRel => Ordering::Acquire,
        _ => Ordering::SeqCst,
    }
}

/// The two orderings of a compare-and-set: one for success, one for failure.
pub trait CompareAndSetOrdering {
    spec fn spec_success(&self) -> Ordering;

    spec fn spec_failure(&self) -> Ordering;

    /// The ordering used when the compare succeeds.
    fn success(&self) -> (r: Ordering)
        ensures
            r == self.spec_success(),
    ;

    /// The ordering used when the compare fails.
    fn failure(&self) -> (r: Ordering)
        ensures
            r == self.spec_failure(),
    ;
}

/// One ordering: the failure ordering is derived from it.
impl CompareAndSetOrdering for Ordering {
    open spec fn spec_success(&self) -> Ordering {
        *self
    }

    open spec fn spec_failure(&self) -> Ordering {
        failure_of(*self)
    }

    fn success(&self) -> (r: Ordering) {
        *self
    }

    fn failure(&self) -> (r: Ordering) {
        strongest_failure_ordering(*self)
    }
}

/// An explicit `(success, failure)` pair.
impl CompareAndSetOrdering for (Ordering, Ordering) {
    open spec fn spec_success(&self) -> Ordering {
        self.0
    }

    open spec fn spec_failure(&self) -> Ordering {
        self.1
    }

    fn success(&self) -> (r: Ordering) {
        self.0
    }

    fn failure(&self) -> (r: Ordering) {
        self.1
    }
}

/// Evidence that the current thread is pinned.
///
/// Pointers loaded from an `Atomic` under a guard carry the guard's lifetime:
/// they stay dereferenceable until the guard is dropped.
pub struct Guard {
    _private: (),
}

/// Pins the current thread.
pub fn pin() -> (r: Guard) {
    Guard { _private: () }
}

/// Types that can be stored into an `Atomic<H>` as a tagged word.
pub trait Pointer<H: Handle>: Sized {
    /// The tagged word that this pointer stands for.
    spec fn tagged(&self) -> usize;

    /// The words from which a pointer of this type can be taken back.
    spec fn admits(data: usize) -> bool;

    /// Gives up the pointer as its tagged word.
    fn into_usize(self) -> (r: usize)
        ensures
            r == self.tagged(),
            Self::admits(r),
    ;

    /// Takes a pointer back from its tagged word.
    fn from_usize(data: usize) -> (r: Self)
        requires
            Self::admits(data),
        ensures
            r.tagged() == data,
    ;
}

/// A tagged pointer that is valid while the guard of lifetime `'g` lives.
pub struct Shared<'g, H: Handle> {
    data: usize,
    _marker: PhantomData<(&'g (), H)>,
}

impl<'g, H: Handle> Clone for Shared<'g, H> {
    fn clone(&self) -> (r: Self)
        ensures
            r.word() == self.word(),
    {
        Shared { data: self.data, _marker: PhantomData }
    }
}

impl<'g, H: Handle> Copy for Shared<'g, H> {
}

impl<'g, H: Handle> Shared<'g, H> {
    /// The tagged word.
    pub closed spec fn word(&self) -> usize {
        self.data
    }

    /// The null pointer with tag zero.
    pub fn null() -> (r: Self)
        ensures
            r.word() == 0,
    {
        Shared { data: 0, _marker: PhantomData }
    }

    /// A pointer with tag zero to the object at address `raw`.
    ///
    /// The address must leave the tag bits free.
    pub fn from_raw(raw: usize) -> (r: Self)
        requires
            is_aligned_to(raw, H::spec_align()),
        ensures
            r.word() == raw,
    {
        Shared { data: raw, _marker: PhantomData }
    }

    /// The address, without the tag.
    pub fn as_raw(&self) -> (r: usize)
        ensures
            r == raw_part(self.word(), H::spec_align()),
    {
        let (raw, _) = decompose_tag::<H>(self.data);
        raw
    }

    /// Whether the address is null, whatever the tag.
    pub fn is_null(&self) -> (r: bool)
        ensures
            r == (raw_part(self.word(), H::spec_align()) == 0),
    {
        let (raw, _) = decompose_tag::<H>(self.data);
        raw == 0
    }

    /// The tag.
    pub fn tag(&self) -> (r: usize)
        ensures
            r == tag_part(self.word(), H::spec_align()),
    {
        let (_, tag) = decompose_tag::<H>(self.data);
        tag
    }

    /// The same address with `tag`, cut to the tag bits.
    pub fn with_tag(&self, tag: usize) -> (r: Self)
        ensures
            r.word() == with_tag_word(self.word(), tag, H::spec_align()),
    {
        Shared { data: compose_tag::<H>(self.data, tag), _marker: PhantomData }
    }

}

impl<'g, H: Handle> Shared<'g, H> {
    /// Takes ownership of the object, keeping the tag.
    ///
    /// The address must not be null, and nobody else may own or use the object
    /// afterwards.
    pub fn into_owned(self) -> (r: Owned<H>)
        requires
            raw_part(self.word(), H::spec_align()) != 0,
        ensures
            r.word() == self.word(),
    {
        Owned::from_usize(self.data)
    }
}

/// Two pointers are equal when their tagged words are: the same object with
/// different tags is not equal.
impl<'g, H: Handle> PartialEq for Shared<'g, H> {
    fn eq(&self, other: &Self) -> (r: bool) {
        self.data == other.data
    }
}

impl<'g, H: Handle> vstd::std_specs::cmp::PartialEqSpecImpl for Shared<'g, H> {
    open spec fn obeys_eq_spec() -> bool {
        true
    }

    open spec fn eq_spec(&self, other: &Self) -> bool {
        self.word() == other.word()
    }
}

impl<'g, H: Handle> Eq for Shared<'g, H> {
}

impl<'g, H: Handle> Pointer<H> for Shared<'g, H> {
    open spec fn tagged(&self) -> usize {
        self.word()
    }

    open spec fn admits(data: usize) -> bool {
        true
    }

    fn into_usize(self) -> (r: usize) {
        self.data
    }

    fn from_usize(data: usize) -> (r: Self) {
        Shared { data, _marker: PhantomData }
    }
}

/// Composing a tag into an aligned address keeps the address.
proof fn lemma_aligned_compose(addr: usize, tag: usize, m: usize)
    requires
        addr & m == 0,
    ensures
        ((addr & !m) | (tag & m)) & !m == addr,
        ((addr & !m) | (tag & m)) & m == tag & m,
{
    assert(((addr & !m) | (tag & m)) & !m == addr) by (bit_vector)
        requires
            addr & m == 0,
    ;
    assert(((addr & !m) | (tag & m)) & m == tag & m) by (bit_vector);
}

/// A word is its address part and its tag put back together.
proof fn lemma_decompose_compose(data: usize, m: usize)
    ensures
        (((data & !m) & !m) | ((data & m) & m)) == data,
        (data & !m) & m == 0,
{
    assert((((data & !m) & !m) | ((data & m) & m)) == data) by (bit_vector);
    assert((data & !m) & m == 0) by (bit_vector);
}

/// An owned, tagged pointer to a heap object.
///
/// Dropping it drops the handle, which frees the object.
pub struct Owned<H: Handle> {
    handle: H,
    tag: usize,
}

impl<H: Handle> Owned<H> {
    /// The address of the owned object.
    pub closed spec fn addr(&self) -> usize {
        self.handle.addr()
    }

    /// The tagged word: the address with the tag in the low bits.
    pub closed spec fn word(&self) -> usize {
        with_tag_word(self.handle.addr(), self.tag, H::spec_align())
    }

    /// Takes ownership of a handle, with tag zero.
    pub fn new(handle: H) -> (r: Self)
        ensures
            r.addr() == handle.addr(),
            r.word() == with_tag_word(handle.addr(), 0, H::spec_align()),
    {
        Owned { handle, tag: 0 }
    }

    /// Turns the owned pointer into one that lives as long as the guard.
    ///
    /// The object is then no longer owned: it must be retired by other means.
    pub fn into_shared<'g>(self, _guard: &'g Guard) -> (r: Shared<'g, H>)
        ensures
            r.word() == self.word(),
    {
        let data = self.into_usize();
        Shared::from_usize(data)
    }

    /// The handle, through which the object is reached.
    pub fn handle(&self) -> (r: &H)
        ensures
            r.addr() == self.addr(),
    {
        &self.handle
    }

    /// Gives back the handle, dropping the tag.
    pub fn into_handle(self) -> (r: H)
        ensures
            r.addr() == self.addr(),
    {
        self.handle
    }

    /// The tag.
    pub fn tag(&self) -> (r: usize)
        ensures
            r == tag_part(self.word(), H::spec_align()),
    {
        let m = low_bits::<H>();
        let t = self.tag & m;
        proof {
            let a = self.handle.addr();
            let t0 = self.tag;
            assert(((a & !m) | (t0 & m)) & m == t0 & m) by (bit_vector);
        }
        t
    }

    /// The same object with `tag`, cut to the tag bits.
    pub fn with_tag(self, tag: usize) -> (r: Self)
        ensures
            r.addr() == self.addr(),
            r.word() == with_tag_word(self.word(), tag, H::spec_align()),
    {
        let m = low_bits::<H>();
        proof {
            let a = self.handle.addr();
            let t = self.tag;
            assert((((a & !m) | (t & m)) & !m) | (tag & m) == (a & !m) | (tag & m)) by (bit_vector);
        }
        Owned { handle: self.handle, tag }
    }
}

impl<H: Handle> Pointer<H> for Owned<H> {
    open spec fn tagged(&self) -> usize {
        self.word()
    }

    open spec fn admits(data: usize) -> bool {
        raw_part(data, H::spec_align()) != 0
    }

    fn into_usize(self) -> (r: usize) {
        let t = self.tag;
        let a = self.handle.into_usize();
        let r = compose_tag::<H>(a, t);
        proof {
            lemma_aligned_compose(a, t, low_mask(H::spec_align()));
        }
        r
    }

    fn from_usize(data: usize) -> (r: Self) {
        let (raw, tag) = decompose_tag::<H>(data);
        proof {
            lemma_decompose_compose(data, low_mask(H::spec_align()));
        }
        let handle = H::from_usize(raw);
        Owned { handle, tag }
    }
}

/// The error of a failed compare-and-set: the word that was found, and the
/// pointer that was to be stored, handed back.
pub struct CompareAndSetError<'g, H: Handle, P: Pointer<H>> {
    /// The value found in the atomic.
    pub current: Shared<'g, H>,
    /// The value that was to be stored.
    pub new: P,
}

/// An ordering that an atomic load accepts.
pub open spec fn is_load_ordering(ord: Ordering) -> bool {
    !(ord == Ordering::Release || ord == Ordering::AcqRel)
}

/// An ordering that an atomic store accepts.
pub open spec fn is_store_ordering(ord: Ordering) -> bool {
    !(ord == Ordering::Acquire || ord == Ordering::AcqRel)
}

/// Relies on `crossbeam_utils::atomic::AtomicConsume::load_consume` for
/// `AtomicUsize`: a load with consume ordering. The value depends on other
/// threads, so nothing is stated of it.
#[verifier::external_body]
fn consume_load(a: &AtomicUsize) -> (r: usize) {
    crossbeam_utils::atomic::AtomicConsume::load_consume(a)
}

/// Relies on `AtomicUsize::compare_exchange`: it stores `new` only where the
/// word is `current`, and returns the word it found, which on success is
/// `current`. It panics on a failure ordering of `Release` or `AcqRel`.
#[verifier::external_body]
pub(crate) fn compare_exchange_word(
    a: &AtomicUsize,
    current: usize,
    new: usize,
    success: Ordering,
    failure: Ordering,
) -> (r: Result<usize, usize>)
    requires
        !(failure == Ordering::Release || failure == Ordering::AcqRel),
    ensures
        r is Ok ==> r->Ok_0 == current,
        r is Err ==> r->Err_0 != current,
{
    a.compare_exchange(current, new, success, failure)
}

/// The operand of an atomic AND that changes only the tag bits: every address bit set.
pub open spec fn and_operand(val: usize, a: usize) -> usize {
    val | !low_mask(a)
}

/// The operand of an atomic OR or XOR that changes only the tag bits: `val` cut to them.
pub open spec fn tag_operand(val: usize, a: usize) -> usize {
    val & low_mask(a)
}

/// The operand that an atomic AND is given for `val`.
fn and_mask<H: Handle>(val: usize) -> (r: usize)
    ensures
        r == and_operand(val, H::spec_align()),
{
    val | !low_bits::<H>()
}

/// The operand that an atomic OR or XOR is given for `val`.
fn tag_mask<H: Handle>(val: usize) -> (r: usize)
    ensures
        r == tag_operand(val, H::spec_align()),
{
    val & low_bits::<H>()
}

/// The atomic tag operations leave the address part of the word alone and act
/// on the tag as the plain operation would.
pub proof fn lemma_tag_ops_keep_address(w: usize, val: usize, a: usize)
    ensures
        raw_part(w & and_operand(val, a), a) == raw_part(w, a),
        tag_part(w & and_operand(val, a), a) == tag_part(w, a) & val,
        raw_part(w | tag_operand(val, a), a) == raw_part(w, a),
        tag_part(w | tag_operand(val, a), a) == tag_part(w, a) | tag_part(val, a),
        raw_part(w ^ tag_operand(val, a), a) == raw_part(w, a),
        tag_part(w ^ tag_operand(val, a), a) == tag_part(w, a) ^ tag_part(val, a),
{
    let m = low_mask(a);
    assert((w & (val | !m)) & !m == w & !m) by (bit_vector);
    assert((w & (val | !m)) & m == (w & m) & val) by (bit_vector);
    assert((w | (val & m)) & !m == w & !m) by (bit_vector);
    assert((w | (val & m)) & m == (w & m) | (val & m)) by (bit_vector);
    assert((w ^ (val & m)) & !m == w & !m) by (bit_vector);
    assert((w ^ (val & m)) & m == (w & m) ^ (val & m)) by (bit_vector);
}

/// The object that the tagged word `data` owns, or `None` where its address is null.
fn owned_from_word<H: Handle>(data: usize) -> (r: Option<Owned<H>>)
    ensures
        r is None <==> raw_part(data, H::spec_align()) == 0,
        r is Some ==> r->Some_0.word() == data,
{
    let (raw, _) = decompose_tag::<H>(data);
    if raw == 0 {
        None
    } else {
        Some(Owned::from_usize(data))
    }
}

/// An atomic tagged pointer to a heap object owned through `H`.
///
/// Other threads may change the word at any time, so the contracts speak of the
/// words that go in and of what is done with the words that come out.
pub struct Atomic<H: Handle> {
    data: AtomicUsize,
    _marker: PhantomData<H>,
}

impl<H: Handle> Atomic<H> {
    fn from_usize(data: usize) -> (r: Self) {
        Atomic { data: AtomicUsize::new(data), _marker: PhantomData }
    }

    /// An atomic holding the object at address `raw`, with tag zero.
    ///
    /// The address must leave the tag bits free.
    pub fn from_raw(raw: usize) -> (r: Self)
        requires
            is_aligned_to(raw, H::spec_align()),
    {
        Self::from_usize(raw)
    }

    /// An atomic holding the null pointer.
    pub fn null() -> (r: Self) {
        Self::from_usize(0)
    }

    /// Loads the word, as a pointer valid while `guard` lives.
    pub fn load<'g>(&self, ord: Ordering, _guard: &'g Guard) -> (r: Shared<'g, H>)
        requires
            is_load_ordering(ord),
    {
        Shared::from_usize(self.data.load(ord))
    }

    /// Loads the word with consume ordering.
    pub fn load_consume<'g>(&self, _guard: &'g Guard) -> (r: Shared<'g, H>) {
        Shared::from_usize(consume_load(&self.data))
    }

    /// Stores `new`; an owned pointer passes into the atomic.
    pub fn store<P: Pointer<H>>(&self, new: P, ord: Ordering)
        requires
            is_store_ordering(ord),
    {
        self.data.store(new.into_usize(), ord);
    }

    /// Stores `new` and returns the word it replaced.
    pub fn swap<'g, P: Pointer<H>>(&self, new: P, ord: Ordering, _guard: &'g Guard) -> (r: Shared<
        'g,
        H,
    >) {
        Shared::from_usize(self.data.swap(new.into_usize(), ord))
    }

    /// Stores `new` if the word is `current`.
    ///
    /// On success the stored word is returned; on failure the word found, and
    /// `new` handed back unchanged.
    pub fn compare_and_set<'g, O: CompareAndSetOrdering, P: Pointer<H>>(
        &self,
        current: Shared<H>,
        new: P,
        ord: O,
        _guard: &'g Guard,
    ) -> (r: Result<Shared<'g, H>, CompareAndSetError<'g, H, P>>)
        requires
            is_cas_pair(ord.spec_success(), ord.spec_failure()),
        ensures
            r is Ok ==> r->Ok_0.word() == new.tagged(),
            r is Err ==> r->Err_0.new.tagged() == new.tagged() && r->Err_0.current.word()
                != current.word(),
    {
        let new = new.into_usize();
        match compare_exchange_word(
            &self.data,
            current.into_usize(),
            new,
            ord.success(),
            ord.failure(),
        ) {
            Ok(_) => Ok(Shared::from_usize(new)),
            Err(found) => Err(
                CompareAndSetError { current: Shared::from_usize(found), new: P::from_usize(new) },
            ),
        }
    }

    /// As `compare_and_set`, but may fail even when the word is `current`.
    pub fn compare_and_set_weak<'g, O: CompareAndSetOrdering, P: Pointer<H>>(
        &self,
        current: Shared<H>,
        new: P,
        ord: O,
        _guard: &'g Guard,
    ) -> (r: Result<Shared<'g, H>, CompareAndSetError<'g, H, P>>)
        requires
            is_cas_pair(ord.spec_success(), ord.spec_failure()),
        ensures
            r is Ok ==> r->Ok_0.word() == new.tagged(),
            r is Err ==> r->Err_0.new.tagged() == new.tagged(),
    {
        let new = new.into_usize();
        match self.data.compare_exchange_weak(
            current.into_usize(),
            new,
            ord.success(),
            ord.failure(),
        ) {
            Ok(_) => Ok(Shared::from_usize(new)),
            Err(found) => Err(
                CompareAndSetError { current: Shared::from_usize(found), new: P::from_usize(new) },
            ),
        }
    }

    /// ANDs `val` into the tag bits and returns the previous word.
    pub fn fetch_and<'g>(&self, val: usize, ord: Ordering, _guard: &'g Guard) -> (r: Shared<'g, H>) {
        Shared::from_usize(self.data.fetch_and(and_mask::<H>(val), ord))
    }

    /// ORs `val` into the tag bits and returns the previous word.
    pub fn fetch_or<'g>(&self, val: usize, ord: Ordering, _guard: &'g Guard) -> (r: Shared<'g, H>) {
        Shared::from_usize(self.data.fetch_or(tag_mask::<H>(val), ord))
    }

    /// XORs `val` into the tag bits and returns the previous word.
    pub fn fetch_xor<'g>(&self, val: usize, ord: Ordering, _guard: &'g Guard) -> (r: Shared<'g, H>) {
        Shared::from_usize(self.data.fetch_xor(tag_mask::<H>(val), ord))
    }

    /// Takes the object out of the atomic, or `None` where it holds a null address.
    pub fn into_owned(self) -> (r: Option<Owned<H>>)
        ensures
            r is Some ==> raw_part(r->Some_0.word(), H::spec_align()) != 0,
    {
        owned_from_word::<H>(self.data.load(Ordering::Relaxed))
    }
}

/// An atomic holding the word of `ptr`.
impl<'g, H: Handle> From<Shared<'g, H>> for Atomic<H> {
    fn from(ptr: Shared<'g, H>) -> (r: Self) {
        Atomic::from_usize(ptr.data)
    }
}

/// The word that an atomic holds is not visible to contracts.
impl<'g, H: Handle> vstd::std_specs::convert::FromSpecImpl<Shared<'g, H>> for Atomic<H> {
    open spec fn obeys_from_spec() -> bool {
        false
    }

    open spec fn from_spec(v: Shared<'g, H>) -> Self {
        vstd::pervasive::arbitrary()
    }
}

/// An atomic that takes ownership of `owned`.
impl<H: Handle> From<Owned<H>> for Atomic<H> {
    fn from(owned: Owned<H>) -> (r: Self) {
        Atomic::from_usize(owned.into_usize())
    }
}

/// The word that an atomic holds is not visible to contracts.
impl<H: Handle> vstd::std_specs::convert::FromSpecImpl<Owned<H>> for Atomic<H> {
    open spec fn obeys_from_spec() -> bool {
        false
    }

    open spec fn from_spec(v: Owned<H>) -> Self {
        vstd::pervasive::arbitrary()
    }
}

} // verus!
