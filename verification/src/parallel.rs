use vstd::prelude::*;
use crate::runtime::{get_num, join};

verus! {

/// Item types that a split sum adds up: machine integers, read as
/// mathematical integers, with the range that their sums must stay in.
pub trait Summable: Sized + Copy {
    /// The item as a mathematical integer.
    spec fn value(self) -> int;

    /// The least value the type holds.
    spec fn lowest() -> int;

    /// The greatest value the type holds.
    spec fn highest() -> int;

    /// Every item is within the type's range.
    proof fn lemma_in_range(x: Self)
        ensures
            Self::lowest() <= x.value() <= Self::highest(),
    ;

    /// The neutral element of addition.
    fn zero() -> (z: Self)
        ensures
            z.value() == 0,
    ;

    /// The sum of two items whose sum is within range.
    fn plus(a: Self, b: Self) -> (r: Self)
        requires
            Self::lowest() <= a.value() + b.value() <= Self::highest(),
        ensures
            r.value() == a.value() + b.value(),
    ;
}

impl Summable for usize {
    open spec fn value(self) -> int {
        self as int
    }

    open spec fn lowest() -> int {
        0
    }

    open spec fn highest() -> int {
        usize::MAX as int
    }

    proof fn lemma_in_range(x: usize) {
    }

    fn zero() -> (z: usize) {
        0
    }

    fn plus(a: usize, b: usize) -> (r: usize) {
        a + b
    }
}

impl Summable for i32 {
    open spec fn value(self) -> int {
        self as int
    }

    open spec fn lowest() -> int {
        i32::MIN as int
    }

    open spec fn highest() -> int {
        i32::MAX as int
    }

    proof fn lemma_in_range(x: i32) {
    }

    fn zero() -> (z: i32) {
        0
    }

    fn plus(a: i32, b: i32) -> (r: i32) {
        a + b
    }
}

impl Summable for u8 {
    open spec fn value(self) -> int {
        self as int
    }

    open spec fn lowest() -> int {
        0
    }

    open spec fn highest() -> int {
        u8::MAX as int
    }

    proof fn lemma_in_range(x: u8) {
    }

    fn zero() -> (z: u8) {
        0
    }

    fn plus(a: u8, b: u8) -> (r: u8) {
        a + b
    }
}

impl Summable for u16 {
    open spec fn value(self) -> int {
        self as int
    }

    open spec fn lowest() -> int {
        0
    }

    open spec fn highest() -> int {
        u16::MAX as int
    }

    proof fn lemma_in_range(x: u16) {
    }

    fn zero() -> (z: u16) {
        0
    }

    fn plus(a: u16, b: u16) -> (r: u16) {
        a + b
    }
}

impl Summable for u32 {
    open spec fn value(self) -> int {
        self as int
    }

    open spec fn lowest() -> int {
        0
    }

    open spec fn highest() -> int {
        u32::MAX as int
    }

    proof fn lemma_in_range(x: u32) {
    }

    fn zero() -> (z: u32) {
        0
    }

    fn plus(a: u32, b: u32) -> (r: u32) {
        a + b
    }
}

impl Summable for u64 {
    open spec fn value(self) -> int {
        self as int
    }

    open spec fn lowest() -> int {
        0
    }

    open spec fn highest() -> int {
        u64::MAX as int
    }

    proof fn lemma_in_range(x: u64) {
    }

    fn zero() -> (z: u64) {
        0
    }

    fn plus(a: u64, b: u64) -> (r: u64) {
        a + b
    }
}

impl Summable for u128 {
    open spec fn value(self) -> int {
        self as int
    }

    open spec fn lowest() -> int {
        0
    }

    open spec fn highest() -> int {
        u128::MAX as int
    }

    proof fn lemma_in_range(x: u128) {
    }

    fn zero() -> (z: u128) {
        0
    }

    fn plus(a: u128, b: u128) -> (r: u128) {
        a + b
    }
}

impl Summable for i8 {
    open spec fn value(self) -> int {
        self as int
    }

    open spec fn lowest() -> int {
        i8::MIN as int
    }

    open spec fn highest() -> int {
        i8::MAX as int
    }

    proof fn lemma_in_range(x: i8) {
    }

    fn zero() -> (z: i8) {
        0
    }

    fn plus(a: i8, b: i8) -> (r: i8) {
        a + b
    }
}

impl Summable for i16 {
    open spec fn value(self) -> int {
        self as int
    }

    open spec fn lowest() -> int {
        i16::MIN as int
    }

    open spec fn highest() -> int {
        i16::MAX as int
    }

    proof fn lemma_in_range(x: i16) {
    }

    fn zero() -> (z: i16) {
        0
    }

    fn plus(a: i16, b: i16) -> (r: i16) {
        a + b
    }
}

impl Summable for i64 {
    open spec fn value(self) -> int {
        self as int
    }

    open spec fn lowest() -> int {
        i64::MIN as int
    }

    open spec fn highest() -> int {
        i64::MAX as int
    }

    proof fn lemma_in_range(x: i64) {
    }

    fn zero() -> (z: i64) {
        0
    }

    fn plus(a: i64, b: i64) -> (r: i64) {
        a + b
    }
}

impl Summable for i128 {
    open spec fn value(self) -> int {
        self as int
    }

    open spec fn lowest() -> int {
        i128::MIN as int
    }

    open spec fn highest() -> int {
        i128::MAX as int
    }

    proof fn lemma_in_range(x: i128) {
    }

    fn zero() -> (z: i128) {
        0
    }

    fn plus(a: i128, b: i128) -> (r: i128) {
        a + b
    }
}

impl Summable for isize {
    open spec fn value(self) -> int {
        self as int
    }

    open spec fn lowest() -> int {
        isize::MIN as int
    }

    open spec fn highest() -> int {
        isize::MAX as int
    }

    proof fn lemma_in_range(x: isize) {
    }

    fn zero() -> (z: isize) {
        0
    }

    fn plus(a: isize, b: isize) -> (r: isize) {
        a + b
    }
}

/// The sum of a sequence of items, as a mathematical integer.
pub open spec fn seq_sum<S: Summable>(s: Seq<S>) -> int
    decreases s.len(),
{
    if s.len() == 0 {
        0
    } else {
        seq_sum(s.drop_last()) + s.last().value()
    }
}

/// Every running total of `s`, from the left, is a value of the item type:
/// folding the items one after the other never leaves the type's range.
pub open spec fn prefixes_fit<S: Summable>(s: Seq<S>) -> bool {
    forall|j: int| 0 <= j <= s.len() ==> S::lowest() <= #[trigger] seq_sum(s.take(j)) <= S::highest()
}

/// Every sum that a split of `s` under the budget `cost` computes is a value
/// of the item type: the total of each piece that is split in two, and the
/// running totals within each piece that is folded.
pub open spec fn split_fits<S: Summable>(s: Seq<S>, cost: int) -> bool
    decreases s.len(),
{
    if cost > 1 && s.len() > 1 {
        let mid = s.len() / 2;
        &&& S::lowest() <= seq_sum(s) <= S::highest()
        &&& split_fits(s.take(mid as int), cost / 2)
        &&& split_fits(s.skip(mid as int), cost / 2)
    } else {
        prefixes_fit(s)
    }
}

/// No split of `s`, whatever the budget, computes a sum out of range: the
/// items can be summed however many workers there are.
pub open spec fn sums_fit<S: Summable>(s: Seq<S>) -> bool {
    forall|cost: int| cost >= 0 ==> #[trigger] split_fits(s, cost)
}

/// Summing two parts and adding the results gives the sum of the whole:
/// the reduction that joins two halves of a split loses nothing.
pub proof fn lemma_sum_concat<S: Summable>(a: Seq<S>, b: Seq<S>)
    ensures
        seq_sum(a + b) == seq_sum(a) + seq_sum(b),
    decreases b.len(),
{
    if b.len() == 0 {
        assert(a + b =~= a);
    } else {
        lemma_sum_concat(a, b.drop_last());
        assert((a + b).drop_last() =~= a + b.drop_last());
    }
}

/// A sum of unsigned machine words is never negative.
pub proof fn lemma_sum_nonneg(s: Seq<usize>)
    ensures
        seq_sum(s) >= 0,
    decreases s.len(),
{
    if s.len() > 0 {
        lemma_sum_nonneg(s.drop_last());
    }
}

/// Splitting a sequence at any point and summing both sides gives its sum.
pub proof fn lemma_sum_split<S: Summable>(s: Seq<S>, mid: int)
    requires
        0 <= mid <= s.len(),
    ensures
        seq_sum(s) == seq_sum(s.take(mid)) + seq_sum(s.skip(mid)),
{
    assert(s =~= s.take(mid) + s.skip(mid));
    lemma_sum_concat(s.take(mid), s.skip(mid));
}

/// A run of unsigned words sums to no more than any run around it.
proof fn lemma_unsigned_part_le(s: Seq<usize>, mid: int)
    requires
        0 <= mid <= s.len(),
    ensures
        0 <= seq_sum(s.take(mid)) <= seq_sum(s),
        0 <= seq_sum(s.skip(mid)) <= seq_sum(s),
{
    lemma_sum_split(s, mid);
    lemma_sum_nonneg(s.take(mid));
    lemma_sum_nonneg(s.skip(mid));
}

/// A sequence of unsigned words whose total fits splits within range under
/// every budget.
proof fn lemma_unsigned_split_fits(s: Seq<usize>, cost: int)
    requires
        seq_sum(s) <= usize::MAX,
    ensures
        split_fits(s, cost),
    decreases s.len(),
{
    lemma_sum_nonneg(s);
    if cost > 1 && s.len() > 1 {
        let mid = s.len() / 2;
        lemma_unsigned_part_le(s, mid as int);
        lemma_unsigned_split_fits(s.take(mid as int), cost / 2);
        lemma_unsigned_split_fits(s.skip(mid as int), cost / 2);
    } else {
        assert forall|j: int| 0 <= j <= s.len() implies 0 <= #[trigger] seq_sum(s.take(j)) <= usize::MAX by {
            lemma_unsigned_part_le(s, j);
        }
    }
}

/// For unsigned words the sums of every split stay in range exactly when
/// the whole sum does.
pub proof fn lemma_unsigned_sums_fit(s: Seq<usize>)
    ensures
        sums_fit(s) <==> seq_sum(s) <= usize::MAX,
{
    if seq_sum(s) <= usize::MAX {
        assert forall|cost: int| cost >= 0 implies #[trigger] split_fits(s, cost) by {
            lemma_unsigned_split_fits(s, cost);
        }
    } else {
        assert(s.take(s.len() as int) =~= s);
        if sums_fit(s) {
            assert(split_fits(s, 0));
            assert(seq_sum(s.take(s.len() as int)) <= usize::MAX);
        }
    }
}

/// A parallel iterator whose items are mapped through `f`.
pub struct MapIter<I, F> {
    pub(crate) iter: I,
    f: F,
}

impl<I, F> MapIter<I, F> {
    /// The iterator whose items are mapped.
    pub closed spec fn base(&self) -> I {
        self.iter
    }

    /// The function that each item is mapped through.
    pub closed spec fn func(&self) -> F {
        self.f
    }
}

/// Types that can be turned into a parallel iterator over their items.
pub trait IntoParallelIterator: Sized {
    type Iter;

    fn into_aer_iter(&self) -> Self::Iter;
}

/// A value with a neutral element for addition.
pub trait Zero: Sized {
    fn zero() -> Self;
}

/// An iterator whose work can be split and spread over workers.
pub trait ParallelIterator: Sized {
    type It;

    /// An iterator over the items of `self`, each to be mapped through `f`.
    fn map<F>(self, f: F) -> (m: MapIter<Self, F>)
        ensures
            m.base() == self,
            m.func() == f,
    {
        MapIter { iter: self, f: f }
    }
}

/// Adds two partial sums.
fn add<S: Summable>(left: S, right: S) -> (r: S)
    requires
        S::lowest() <= left.value() + right.value() <= S::highest(),
    ensures
        r.value() == left.value() + right.value(),
{
    S::plus(left, right)
}

/// Combines the results of two halves of a split.
struct SumReducer<S>(std::marker::PhantomData<S>);

impl<S: Summable> SumReducer<S> {
    fn new() -> (r: SumReducer<S>) {
        SumReducer(std::marker::PhantomData)
    }

    fn reduce(&self, left: S, right: S) -> (r: S)
        requires
            S::lowest() <= left.value() + right.value() <= S::highest(),
        ensures
            r.value() == left.value() + right.value(),
    {
        self::add(left, right)
    }
}

/// Accumulates the items of one piece of work, left to right.
struct SumFolder<S> {
    reducer: SumReducer<S>,
    s: S,
}

impl<S: Summable> SumFolder<S> {
    fn consume(self, item: &S) -> (f: SumFolder<S>)
        requires
            S::lowest() <= self.s.value() + item.value() <= S::highest(),
        ensures
            f.s.value() == self.s.value() + item.value(),
    {
        let s = self.reducer.reduce(self.s, *item);
        SumFolder { reducer: self.reducer, s }
    }

    fn result(self) -> (r: S)
        ensures
            r == self.s,
    {
        self.s
    }
}

/// Hands out the folders and reducers that a sum of items of type `S` needs.
pub struct SumConsumer<S>(std::marker::PhantomData<S>);

impl<S: Summable> SumConsumer<S> {
    pub fn new() -> (c: SumConsumer<S>) {
        SumConsumer(std::marker::PhantomData)
    }

    fn folder(&self) -> (f: SumFolder<S>)
        ensures
            f.s.value() == 0,
    {
        SumFolder { reducer: self.to_reducer(), s: S::zero() }
    }

    fn reducer(&self) -> (r: SumReducer<S>) {
        SumReducer::new()
    }

    fn to_reducer(&self) -> (r: SumReducer<S>) {
        self.reducer()
    }
}

/// A parallel iterator over the items of a slice.
pub struct SliceIter<'a, T> {
    slice: &'a [T],
}

impl<'a, T> SliceIter<'a, T> {
    /// The items that the iterator still covers, in order.
    pub closed spec fn items(&self) -> Seq<T> {
        self.slice@
    }

    /// The number of items covered.
    pub fn len(&self) -> (n: usize)
        ensures
            n == self.items().len(),
    {
        self.slice.len()
    }

    /// Splits the work in two: the first `mid` items and the rest.
    pub fn split_at(&self, mid: usize) -> (parts: (SliceIter<'a, T>, SliceIter<'a, T>))
        requires
            mid <= self.items().len(),
        ensures
            parts.0.items() == self.items().take(mid as int),
            parts.1.items() == self.items().skip(mid as int),
            self.items() == parts.0.items() + parts.1.items(),
    {
        let (left, right) = self.slice.split_at(mid);
        proof {
            assert(left@ =~= self.slice@.take(mid as int));
            assert(right@ =~= self.slice@.skip(mid as int));
            assert(self.slice@ =~= left@ + right@);
        }
        (SliceIter { slice: left }, SliceIter { slice: right })
    }
}

impl<'a, T> IntoIterator for SliceIter<'a, T> {
    type Item = &'a T;
    type IntoIter = std::slice::Iter<'a, T>;

    /// The items, front to back, one at a time on the calling thread.
    fn into_iter(self) -> (it: std::slice::Iter<'a, T>)
        ensures
            vstd::std_specs::slice::into_iter_elts(it) == self.items(),
    {
        self.slice.iter()
    }
}

impl<'a, T> ParallelIterator for SliceIter<'a, T> {
    type It = &'a T;
}

impl<'a, S: Summable> SliceIter<'a, S> {
    /// Sums the items one after the other on the calling thread.
    pub fn produce(self, c: &SumConsumer<S>) -> (r: S)
        requires
            prefixes_fit(self.items()),
        ensures
            r.value() == seq_sum(self.items()),
    {
        let mut folder = c.folder();
        let ghost items = self.slice@;
        let mut i: usize = 0;
        proof {
            assert(items.take(0) =~= Seq::<S>::empty());
        }
        while i < self.slice.len()
            invariant
                items == self.slice@,
                0 <= i <= items.len(),
                folder.s.value() == seq_sum(items.take(i as int)),
                prefixes_fit(items),
            decreases items.len() - i,
        {
            proof {
                assert(items.take(i as int + 1).drop_last() =~= items.take(i as int));
                assert(S::lowest() <= seq_sum(items.take(i as int + 1)) <= S::highest());
            }
            folder = folder.consume(&self.slice[i]);
            i = i + 1;
        }
        proof {
            assert(items.take(i as int) =~= items);
        }
        folder.result()
    }

    /// Sums all items: the work is split in halves, as many times as there
    /// are workers allows, and the halves are summed through `join`, which in
    /// this library runs both on the calling thread. The result is the sum of
    /// the items, whatever the number of workers; the items are left out
    /// where some split computes a sum out of range, as that sum overflows.
    pub fn sum(self) -> (r: S)
        requires
            sums_fit(self.items()),
        ensures
            r.value() == seq_sum(self.items()),
    {
        let len = self.len();
        let cost = get_num();
        assert(split_fits(self.items(), cost as int));
        divide(len, cost, self, SumConsumer::new())
    }
}

/// Sums `p`, split into halves while `cost` allows: the result is the sum of
/// the items for every `cost`, as if they were added one after the other.
pub fn divide<'a, S: Summable>(len: usize, cost: usize, p: SliceIter<'a, S>, c: SumConsumer<S>) -> (r: S)
    requires
        len == p.items().len(),
        split_fits(p.items(), cost as int),
    ensures
        r.value() == seq_sum(p.items()),
{
    divide_job(len, cost, p, &c)
}

/// Sums `p` by halving it, and the budget `cost`, until either is used up;
/// the two halves go to `join` and their sums are reduced into one.
/// The result is the sum of `p` for every `cost`.
fn divide_job<'a, S: Summable>(len: usize, cost: usize, p: SliceIter<'a, S>, c: &SumConsumer<S>) -> (r: S)
    requires
        len == p.items().len(),
        split_fits(p.items(), cost as int),
    ensures
        r.value() == seq_sum(p.items()),
    decreases len,
{
    if cost > 1 && len > 1 {
        let mid = len / 2;
        let (left_producer, right_producer) = p.split_at(mid);
        proof {
            lemma_sum_split(p.items(), mid as int);
        }
        let half = cost / 2;
        let rest = len - mid;
        let left_job = || -> (x: S)
            requires
                mid == left_producer.items().len(),
                split_fits(left_producer.items(), half as int),
            ensures
                x.value() == seq_sum(left_producer.items()),
        {
            divide_job(mid, half, left_producer, c)
        };
        let right_job = || -> (x: S)
            requires
                rest == right_producer.items().len(),
                split_fits(right_producer.items(), half as int),
            ensures
                x.value() == seq_sum(right_producer.items()),
        {
            divide_job(rest, half, right_producer, c)
        };
        let (left_result, right_result) = join(left_job, right_job);
        let reducer = c.reducer();
        reducer.reduce(left_result, right_result)
    } else {
        p.produce(c)
    }
}

impl<'a, T> IntoParallelIterator for &'a [T] {
    type Iter = SliceIter<'a, T>;

    fn into_aer_iter(&self) -> (it: SliceIter<'a, T>)
        ensures
            it.items() == (**self)@,
    {
        SliceIter { slice: *self }
    }
}

impl<'a, T> IntoParallelIterator for &'a Vec<T> {
    type Iter = SliceIter<'a, T>;

    fn into_aer_iter(&self) -> (it: SliceIter<'a, T>)
        ensures
            it.items() == (**self)@,
    {
        SliceIter { slice: self.as_slice() }
    }
}

} // verus!
