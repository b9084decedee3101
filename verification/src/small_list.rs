//! Lists that are mostly short, which keep their first items in place.

use vstd::prelude::*;

use crate::store_path;
use crate::store_path::StoreBasename;

verus! {

/// A list of this many items does not outgrow the address space.
pub const MAX_LIST_LEN: usize = usize::MAX / 128;

/// A list of texts.
#[verifier::external_body]
pub struct TextList {
    inner: smallvec::SmallVec<[String; 2]>,
}

/// The texts that a [`TextList`] holds, in order.
pub uninterp spec fn text_seq(list: TextList) -> Seq<String>;

/// `smallvec::SmallVec::new` makes an empty vector.
#[verifier::external_body]
fn texts_new() -> (list: TextList)
    ensures
        text_seq(list) == Seq::<String>::empty(),
{
    TextList { inner: smallvec::SmallVec::new() }
}

/// `smallvec::SmallVec::push` appends an item. It panics where the vector
/// outgrows the address space.
#[verifier::external_body]
fn texts_push(list: &mut TextList, text: String)
    requires
        text_seq(*old(list)).len() < MAX_LIST_LEN,
    ensures
        text_seq(*final(list)) == text_seq(*old(list)).push(text),
{
    list.inner.push(text);
}

/// `smallvec::SmallVec::as_slice` gives access to all items.
#[verifier::external_body]
fn texts_as_slice(list: &TextList) -> (slice: &[String])
    ensures
        slice@ == text_seq(*list),
{
    list.inner.as_slice()
}

impl View for TextList {
    type V = Seq<Seq<char>>;

    open spec fn view(&self) -> Seq<Seq<char>> {
        store_path::text_views(text_seq(*self))
    }
}

impl TextList {
    /// The list without texts.
    pub fn new() -> (list: Self)
        ensures
            list@ == Seq::<Seq<char>>::empty(),
    {
        let list = texts_new();
        assert(list@ =~= Seq::<Seq<char>>::empty());
        list
    }

    /// Appends a text.
    pub fn push(&mut self, text: String)
        requires
            old(self)@.len() < MAX_LIST_LEN,
        ensures
            final(self)@ == old(self)@.push(text@),
    {
        let ghost before = self@;
        texts_push(self, text);
        assert(self@ =~= before.push(text@));
    }

    /// Returns the texts.
    pub fn as_slice(&self) -> (texts: &[String])
        ensures
            store_path::text_views(texts@) == self@,
    {
        texts_as_slice(self)
    }

    /// Returns copies of the texts.
    pub fn to_vec(&self) -> (texts: Vec<String>)
        ensures
            store_path::text_views(texts@) == self@,
    {
        let all: &[String] = self.as_slice();
        let mut texts: Vec<String> = Vec::new();
        for i in 0..all.len()
            invariant
                store_path::text_views(all@) == self@,
                store_path::text_views(texts@) == self@.take(i as int),
        {
            let ghost before = texts@;
            texts.push(all[i].clone());
            assert(store_path::text_views(texts@) =~= store_path::text_views(before).push(
                all@[i as int]@,
            ));
            assert(self@[i as int] == all@[i as int]@);
            assert(self@.take(i + 1) =~= self@.take(i as int).push(all@[i as int]@));
        }
        assert(self@.take(all@.len() as int) =~= self@);
        texts
    }
}

/// A list of basenames of store paths.
#[verifier::external_body]
pub struct BasenameList {
    inner: smallvec::SmallVec<[StoreBasename; 2]>,
}

/// The basenames that a [`BasenameList`] holds, in order.
pub uninterp spec fn basename_seq(list: BasenameList) -> Seq<StoreBasename>;

/// `smallvec::SmallVec::new` makes an empty vector.
#[verifier::external_body]
fn basenames_new() -> (list: BasenameList)
    ensures
        basename_seq(list) == Seq::<StoreBasename>::empty(),
{
    BasenameList { inner: smallvec::SmallVec::new() }
}

/// `smallvec::SmallVec::push` appends an item. It panics where the vector
/// outgrows the address space.
#[verifier::external_body]
fn basenames_push(list: &mut BasenameList, name: StoreBasename)
    requires
        basename_seq(*old(list)).len() < MAX_LIST_LEN,
    ensures
        basename_seq(*final(list)) == basename_seq(*old(list)).push(name),
{
    list.inner.push(name);
}

/// `smallvec::SmallVec::into_vec` hands all items over.
#[verifier::external_body]
fn basenames_into_vec(list: BasenameList) -> (names: Vec<StoreBasename>)
    ensures
        names@ == basename_seq(list),
{
    list.inner.into_vec()
}

impl View for BasenameList {
    type V = Seq<StoreBasename>;

    open spec fn view(&self) -> Seq<StoreBasename> {
        basename_seq(*self)
    }
}

impl BasenameList {
    /// The list without basenames.
    pub fn new() -> (list: Self)
        ensures
            list@ == Seq::<StoreBasename>::empty(),
    {
        basenames_new()
    }

    /// Appends a basename.
    pub fn push(&mut self, name: StoreBasename)
        requires
            old(self)@.len() < MAX_LIST_LEN,
        ensures
            final(self)@ == old(self)@.push(name),
    {
        basenames_push(self, name);
    }

    /// Returns the basenames.
    pub fn into_vec(self) -> (names: Vec<StoreBasename>)
        ensures
            names@ == self@,
    {
        basenames_into_vec(self)
    }
}

/// A list of numbers of parts.
#[verifier::external_body]
pub struct PartNumbers {
    inner: smallvec::SmallVec<[u16; 8]>,
}

/// The part numbers that a [`PartNumbers`] holds, in order.
pub uninterp spec fn part_number_seq(numbers: PartNumbers) -> Seq<u16>;

/// `smallvec::SmallVec::new` makes an empty vector.
#[verifier::external_body]
fn part_numbers_new() -> (numbers: PartNumbers)
    ensures
        part_number_seq(numbers) == Seq::<u16>::empty(),
{
    PartNumbers { inner: smallvec::SmallVec::new() }
}

/// `smallvec::SmallVec::push` appends an item. It panics where the vector
/// outgrows the address space.
#[verifier::external_body]
fn part_numbers_push(numbers: &mut PartNumbers, number: u16)
    requires
        part_number_seq(*old(numbers)).len() < MAX_LIST_LEN,
    ensures
        part_number_seq(*final(numbers)) == part_number_seq(*old(numbers)).push(number),
{
    numbers.inner.push(number);
}

/// `smallvec::SmallVec::into_vec` hands all items over.
#[verifier::external_body]
fn part_numbers_into_vec(numbers: PartNumbers) -> (all: Vec<u16>)
    ensures
        all@ == part_number_seq(numbers),
{
    numbers.inner.into_vec()
}

impl View for PartNumbers {
    type V = Seq<u16>;

    open spec fn view(&self) -> Seq<u16> {
        part_number_seq(*self)
    }
}

impl PartNumbers {
    /// The list without part numbers.
    pub fn new() -> (numbers: Self)
        ensures
            numbers@ == Seq::<u16>::empty(),
    {
        part_numbers_new()
    }

    /// Appends a part number.
    pub fn push(&mut self, number: u16)
        requires
            old(self)@.len() < MAX_LIST_LEN,
        ensures
            final(self)@ == old(self)@.push(number),
    {
        part_numbers_push(self, number);
    }

    /// Returns the part numbers.
    pub fn into_vec(self) -> (all: Vec<u16>)
        ensures
            all@ == self@,
    {
        part_numbers_into_vec(self)
    }
}

} // verus!
