//! Uploading a NAR in parts.
//!
//! A NAR, in the form in which it is streamed to the cache, is cut into parts of
//! a size that the cache asks for, the last of which may be shorter. Each part is
//! put to a URL of its own, which the cache gives out for some time, and is
//! answered with an ETag. The ETags complete the upload.

use std::collections::VecDeque;

use vstd::prelude::*;

use crate::small_list::{PartNumbers, TextList};
use crate::store_path;
use crate::store_path::{StoreBasename, StoreBasenameView, StorePath};
use crate::sub60_cache::CacheRequestError;

verus! {

/// How long before they expire the URLs of parts are given up, to account for
/// clock skew and network delay, in nanoseconds.
pub const EXPIRATION_MARGIN: u128 = 10_000_000_000;

/// The number of parts whose URLs are asked for at a time.
pub const NUM_REQUESTED_PARTS: u16 = 4;

/// The numbers of the parts whose URLs are asked for when `first` is the next
/// part to upload: the next four, as far as there are such part numbers.
pub open spec fn requested_parts(first: u16) -> Seq<u16> {
    let num_left = u16::MAX - first + 1;
    let num_parts = if num_left < NUM_REQUESTED_PARTS {
        num_left
    } else {
        NUM_REQUESTED_PARTS as int
    };
    Seq::new(num_parts as nat, |i: int| (first + i) as u16)
}

/// Returns the numbers of the parts whose URLs to ask for when `first` is the
/// next part to upload.
fn new_part_numbers(first: u16) -> (numbers: PartNumbers)
    ensures
        numbers@ == requested_parts(first),
{
    let mut numbers: PartNumbers = PartNumbers::new();
    let mut count: u16 = 0;
    let ghost all = requested_parts(first);
    assert(all.take(0) =~= Seq::<u16>::empty());
    while count < NUM_REQUESTED_PARTS && count <= u16::MAX - first
        invariant
            all == requested_parts(first),
            count <= all.len(),
            numbers@ == all.take(count as int),
        decreases NUM_REQUESTED_PARTS - count,
    {
        numbers.push(first + count);
        count = count + 1;
        assert(all.take(count as int) =~= all.take(count - 1).push(all[count - 1]));
    }
    assert(all.take(count as int) =~= all);
    numbers
}

/// What the cache says about an upload, and what is left of it.
pub struct NarUploadState {
    /// The number of bytes of each part but the last.
    pub part_size: u32,
    /// The URLs of the next parts.
    pub part_urls: VecDeque<String>,
    pub store_basename: StoreBasename,
    pub upload_id: String,
    /// When the URLs expire, in nanoseconds since the Unix epoch.
    pub urls_expiration_ts: u128,
}

/// The contents of a [`NarUploadState`].
#[verifier::ext_equal]
pub struct NarUploadStateView {
    pub part_size: u32,
    pub part_urls: Seq<Seq<char>>,
    pub store_basename: StoreBasenameView,
    pub upload_id: Seq<char>,
    pub urls_expiration_ts: u128,
}

impl View for NarUploadState {
    type V = NarUploadStateView;

    open spec fn view(&self) -> NarUploadStateView {
        NarUploadStateView {
            part_size: self.part_size,
            part_urls: store_path::text_views(self.part_urls@),
            store_basename: self.store_basename@,
            upload_id: self.upload_id@,
            urls_expiration_ts: self.urls_expiration_ts,
        }
    }
}

impl NarUploadState {
    /// The state of an upload that the cache has agreed to.
    pub fn new(
        store_path: &StorePath,
        part_size: u32,
        part_urls: Vec<String>,
        upload_id: String,
        urls_expiration_ts: u128,
    ) -> (state: Self)
        ensures
            state@ == (NarUploadStateView {
                part_size,
                part_urls: store_path::text_views(part_urls@),
                store_basename: store_path@.basename,
                upload_id: upload_id@,
                urls_expiration_ts,
            }),
    {
        let mut urls: VecDeque<String> = VecDeque::new();
        extend(&mut urls, part_urls);
        let state = NarUploadState {
            part_size,
            part_urls: urls,
            store_basename: store_path.basename.clone(),
            upload_id,
            urls_expiration_ts,
        };
        assert(store_path::text_views(urls@) =~= store_path::text_views(part_urls@));
        state
    }
}

impl NarUploadState {
    /// Takes the URLs that were asked for, and when they expire.
    pub fn on_part_urls(&mut self, urls: Vec<String>, expiration_ts: u128)
        ensures
            final(self)@ == (NarUploadStateView {
                part_urls: old(self)@.part_urls + store_path::text_views(urls@),
                urls_expiration_ts: expiration_ts,
                ..old(self)@
            }),
    {
        let ghost queue = self.part_urls@;
        extend(&mut self.part_urls, urls);
        self.urls_expiration_ts = expiration_ts;
        assert(store_path::text_views(queue + urls@) =~= store_path::text_views(queue)
            + store_path::text_views(urls@));
    }
}

/// Appends texts to a queue.
fn extend(queue: &mut VecDeque<String>, texts: Vec<String>)
    ensures
        final(queue)@ == old(queue)@ + texts@,
{
    let ghost before = queue@;
    assert(before + texts@.take(0) =~= before);
    for text in iter: texts
        invariant
            iter.seq() == texts@,
            queue@ == before + texts@.take(iter.index() as int),
    {
        let ghost n = iter.index() as int;
        queue.push_back(text);
        assert(before + texts@.take(n + 1) =~= (before + texts@.take(n)).push(texts@[n]));
    }
    assert(texts@.take(texts@.len() as int) =~= texts@);
}

/// How far the upload of a NAR has come. What the cache says about the upload
/// stays with the caller, who needs it again once the NAR is uploaded.
pub struct NarUpload {
    /// The number of the next part.
    part_number: u16,
    etags: TextList,
}

/// The contents of a [`NarUpload`], with the state that it is used with.
#[verifier::ext_equal]
pub struct NarUploadView {
    pub state: NarUploadStateView,
    /// The number of the next part.
    pub part_number: u16,
    /// The ETags of the parts that were uploaded.
    pub etags: Seq<Seq<char>>,
}

/// What an upload needs next.
pub enum UploadStep {
    /// Ask the cache for the URLs of these parts, and hand them to
    /// [`NarUploadState::on_part_urls`].
    RequestPartUrls(PartNumbers),
    /// Read as many bytes of the NAR as a part has, and put them, if there are
    /// any, to this URL.
    ReadPart { url: String },
}

/// What to do with the bytes that were read for a part.
#[derive(Clone, Copy, Debug, PartialEq, Eq, Structural)]
pub enum PartRead {
    /// There are none: complete the upload.
    Complete,
    /// Upload them.
    Upload,
}

/// What to do once a part was uploaded.
#[derive(Clone, Copy, Debug, PartialEq, Eq, Structural)]
pub enum PartUploaded {
    /// It was the last: complete the upload.
    Complete,
    /// Go on with the next part.
    Continue,
}

impl NarUploadView {
    /// Every part before the next has its ETag.
    pub open spec fn wf(self) -> bool {
        &&& self.state.part_size > 0
        &&& self.etags.len() + 1 == self.part_number
    }

    /// The URLs that are still of use at the given time.
    pub open spec fn usable_urls(self, now: u128) -> Seq<Seq<char>> {
        if now + EXPIRATION_MARGIN >= self.state.urls_expiration_ts {
            seq![]
        } else {
            self.state.part_urls
        }
    }

    /// The upload once the next part was uploaded, with the given ETag.
    pub open spec fn with_etag(self, etag: Seq<char>, outcome: Option<PartUploaded>) -> Self {
        NarUploadView {
            part_number: if outcome == Some(PartUploaded::Continue) {
                (self.part_number + 1) as u16
            } else {
                self.part_number
            },
            etags: self.etags.push(etag),
            ..self
        }
    }

    /// Whether the URLs that are left are those of the next parts.
    pub open spec fn aligned(self, url_of: spec_fn(int) -> Seq<char>) -> bool {
        forall|i: int|
            0 <= i < self.state.part_urls.len() ==> #[trigger] self.state.part_urls[i] == url_of(
                self.part_number + i,
            )
    }

    /// The upload with the given URLs left.
    pub open spec fn with_urls(self, part_urls: Seq<Seq<char>>) -> Self {
        NarUploadView { state: NarUploadStateView { part_urls, ..self.state }, ..self }
    }
}

/// What to do with the given number of bytes that were read for a part.
pub open spec fn part_read(num_read: nat) -> PartRead {
    if num_read == 0 {
        PartRead::Complete
    } else {
        PartRead::Upload
    }
}

/// What to do once a part with the given number of bytes was uploaded, as the
/// part with the given number, or `None` if there can be no further part.
pub open spec fn part_uploaded(num_read: nat, part_size: nat, part_number: nat) -> Option<
    PartUploaded,
> {
    if num_read < part_size {
        Some(PartUploaded::Complete)
    } else if part_number < u16::MAX {
        Some(PartUploaded::Continue)
    } else {
        None
    }
}

impl NarUpload {
    /// The number of the next part.
    pub closed spec fn part_number(self) -> u16 {
        self.part_number
    }

    /// The ETags of the parts that were uploaded.
    pub closed spec fn etags(self) -> Seq<Seq<char>> {
        self.etags@
    }

    /// The contents, with the state that it is used with.
    pub open spec fn at(self, state: NarUploadState) -> NarUploadView {
        NarUploadView { state: state@, part_number: self.part_number(), etags: self.etags() }
    }

    /// Starts an upload that the cache has agreed to.
    pub fn new() -> (upload: Self)
        ensures
            upload.part_number() == 1,
            upload.etags() == Seq::<Seq<char>>::empty(),
    {
        NarUpload { part_number: 1, etags: TextList::new() }
    }

    /// Decides what the upload needs next, at the given time, in nanoseconds
    /// since the Unix epoch. URLs that are about to expire are given up.
    pub fn next(&self, state: &mut NarUploadState, now: u128) -> (step: UploadStep)
        requires
            self.at(*old(state)).wf(),
            now + EXPIRATION_MARGIN <= u128::MAX,
        ensures
            self.at(*final(state)).wf(),
            final(state).part_size == old(state).part_size,
            final(state).store_basename@ == old(state).store_basename@,
            final(state).upload_id@ == old(state).upload_id@,
            final(state).urls_expiration_ts == old(state).urls_expiration_ts,
            ({
                let before = self.at(*old(state));
                let urls = before.usable_urls(now);
                match step {
                    UploadStep::RequestPartUrls(numbers) => {
                        &&& urls.len() == 0
                        &&& numbers@ == requested_parts(self.part_number())
                        &&& final(state)@ == before.with_urls(seq![]).state
                        &&& final(state)@.part_urls.len() == 0
                    },
                    UploadStep::ReadPart { url } => {
                        &&& urls.len() > 0
                        &&& url@ == urls[0]
                        &&& final(state)@ == before.with_urls(urls.drop_first()).state
                        &&& final(state)@.part_urls == urls.drop_first()
                    },
                }
            }),
    {
        let ghost before = self.at(*state);
        if now + EXPIRATION_MARGIN >= state.urls_expiration_ts {
            state.part_urls.clear();
        }
        let ghost urls = state.part_urls@;
        assert(store_path::text_views(urls) =~= before.usable_urls(now));
        match state.part_urls.pop_front() {
            None => {
                assert(state@ =~= before.with_urls(seq![]).state);
                UploadStep::RequestPartUrls(new_part_numbers(self.part_number))
            },
            Some(url) => {
                assert(store_path::text_views(urls)[0] == url@);
                assert(state@ =~= before.with_urls(before.usable_urls(now).drop_first()).state);
                UploadStep::ReadPart { url }
            },
        }
    }

    /// Decides what to do with the given number of bytes that were read for a
    /// part, or takes why they could not be read.
    pub fn on_read(&self, num_read: Result<usize, String>) -> (read: Result<
        PartRead,
        CacheRequestError,
    >)
        ensures
            match num_read {
                Ok(num_read) => read == Ok::<PartRead, CacheRequestError>(
                    part_read(num_read as nat),
                ),
                Err(error) => read == Err::<PartRead, CacheRequestError>(
                    CacheRequestError::ReadNar(error),
                ),
            },
    {
        match num_read {
            Ok(0) => Ok(PartRead::Complete),
            Ok(_) => Ok(PartRead::Upload),
            Err(error) => Err(CacheRequestError::ReadNar(error)),
        }
    }

    /// Takes the ETag of the next part, of which the given number of bytes were
    /// uploaded. A part with fewer bytes than the others is the last.
    pub fn on_uploaded(&mut self, state: &NarUploadState, num_read: usize, etag: String) -> (uploaded:
        Result<PartUploaded, CacheRequestError>)
        requires
            old(self).at(*state).wf(),
            0 < num_read <= state.part_size,
        ensures
            ({
                let before = old(self).at(*state);
                let outcome = part_uploaded(
                    num_read as nat,
                    state.part_size as nat,
                    before.part_number as nat,
                );
                &&& uploaded == match outcome {
                    Some(outcome) => Ok::<PartUploaded, CacheRequestError>(outcome),
                    None => Err::<PartUploaded, CacheRequestError>(
                        CacheRequestError::TooManyNarParts,
                    ),
                }
                &&& final(self).etags() == old(self).etags().push(etag@)
                &&& final(self).part_number() == old(self).part_number() + if uploaded == Ok::<
                    PartUploaded,
                    CacheRequestError,
                >(PartUploaded::Continue) {
                    1int
                } else {
                    0
                }
                &&& final(self).at(*state) == before.with_etag(etag@, outcome)
                &&& outcome == Some(PartUploaded::Continue) ==> final(self).at(*state).wf()
            }),
    {
        self.etags.push(etag);
        if num_read < state.part_size as usize {
            Ok(PartUploaded::Complete)
        } else if self.part_number < u16::MAX {
            self.part_number = self.part_number + 1;
            Ok(PartUploaded::Continue)
        } else {
            Err(CacheRequestError::TooManyNarParts)
        }
    }

    /// Returns the ETags that complete the upload.
    pub fn finish(self) -> (etags: TextList)
        ensures
            etags@ == self.etags(),
    {
        self.etags
    }
}

/// The parts that are uploaded of a NAR, from the part with the given number
/// on, or `None` if there are too many of them.
pub open spec fn uploaded_parts(nar: Seq<u8>, part_size: nat, part_number: nat) -> Option<
    Seq<Seq<u8>>,
>
    decreases nar.len(),
{
    let num_read = if nar.len() < part_size {
        nar.len()
    } else {
        part_size
    };
    let part = nar.take(num_read as int);
    if part_read(num_read) == PartRead::Complete {
        Some(seq![])
    } else {
        match part_uploaded(num_read, part_size, part_number) {
            None => None,
            Some(PartUploaded::Complete) => Some(seq![part]),
            Some(PartUploaded::Continue) => match uploaded_parts(
                nar.skip(num_read as int),
                part_size,
                part_number + 1,
            ) {
                None => None,
                Some(rest) => Some(seq![part] + rest),
            },
        }
    }
}

proof fn lemma_uploaded_parts(nar: Seq<u8>, part_size: nat, part_number: nat)
    requires
        part_size > 0,
        1 <= part_number <= u16::MAX,
    ensures
        uploaded_parts(nar, part_size, part_number) is Some <==> nar.len() < (u16::MAX + 1
            - part_number) * part_size,
        uploaded_parts(nar, part_size, part_number) matches Some(parts) ==> {
            &&& parts.flatten() == nar
            &&& forall|i: int| 0 <= i < parts.len() ==> 0 < (#[trigger] parts[i]).len() <= part_size
            &&& forall|i: int| 0 <= i < parts.len() - 1 ==> (#[trigger] parts[i]).len() == part_size
            &&& parts.len() + part_number <= u16::MAX + 1
        },
    decreases nar.len(),
{
    let left = u16::MAX + 1 - part_number;
    assert(left * part_size >= part_size) by (nonlinear_arith)
        requires
            left >= 1,
            part_size > 0,
    ;
    if nar.len() == 0 {
        assert(Seq::<Seq<u8>>::empty().flatten() =~= Seq::<u8>::empty());
    } else if nar.len() < part_size {
        let part = nar.take(nar.len() as int);
        assert(part =~= nar);
        seq![part].lemma_flatten_one_element();
    } else if part_number < u16::MAX {
        let part = nar.take(part_size as int);
        let rest = nar.skip(part_size as int);
        lemma_uploaded_parts(rest, part_size, part_number + 1);
        assert(left * part_size == (left - 1) * part_size + part_size) by (nonlinear_arith);
        if let Some(parts) = uploaded_parts(rest, part_size, part_number + 1) {
            let all = seq![part] + parts;
            assert(all.drop_first() =~= parts);
            assert(all.flatten() == part + parts.flatten());
            assert(part + rest =~= nar);
            if parts.len() > 0 {
                assert forall|i: int| 0 <= i < all.len() - 1 implies (#[trigger] all[i]).len()
                    == part_size by {
                    if i > 0 {
                        assert(all[i] == parts[i - 1]);
                    }
                }
            }
            assert forall|i: int| 0 <= i < all.len() implies 0 < (#[trigger] all[i]).len()
                <= part_size by {
                if i > 0 {
                    assert(all[i] == parts[i - 1]);
                }
            }
        }
    } else {
        assert(left * part_size == part_size) by (nonlinear_arith)
            requires
                left == 1,
        ;
    }
}

/// The parts that are uploaded, put together, are the NAR. All of them but the
/// last are full, none is empty, and a NAR can be uploaded exactly if it holds
/// fewer bytes than 65535 full parts.
pub proof fn law_parts_make_up_the_nar(nar: Seq<u8>, part_size: nat)
    requires
        part_size > 0,
    ensures
        uploaded_parts(nar, part_size, 1) is Some <==> nar.len() < 65535 * part_size,
        uploaded_parts(nar, part_size, 1) matches Some(parts) ==> {
            &&& parts.flatten() == nar
            &&& forall|i: int| 0 <= i < parts.len() ==> 0 < (#[trigger] parts[i]).len() <= part_size
            &&& forall|i: int| 0 <= i < parts.len() - 1 ==> (#[trigger] parts[i]).len() == part_size
            &&& parts.len() <= u16::MAX
        },
{
    lemma_uploaded_parts(nar, part_size, 1);
}

/// Where the cache answers with a URL for each part number that it is asked
/// for, in order, each part is put to the URL of its own number.
pub proof fn law_each_part_has_its_url(
    upload: NarUploadView,
    url_of: spec_fn(int) -> Seq<char>,
    now: u128,
    etag: Seq<char>,
)
    requires
        upload.aligned(url_of),
    ensures
        upload.usable_urls(now).len() > 0 ==> upload.usable_urls(now)[0] == url_of(
            upload.part_number as int,
        ),
        upload.usable_urls(now).len() > 0 && upload.part_number < u16::MAX ==> upload.with_urls(
            upload.usable_urls(now).drop_first(),
        ).with_etag(etag, Some(PartUploaded::Continue)).aligned(url_of),
        forall|new_url_of: spec_fn(int) -> Seq<char>, urls: Seq<Seq<char>>|
            urls == requested_parts(upload.part_number).map_values(
                |number: u16| new_url_of(number as int),
            ) ==> #[trigger] upload.with_urls(urls).aligned(new_url_of),
{
    let urls = upload.usable_urls(now);
    if urls.len() > 0 {
        let rest = urls.drop_first();
        assert(urls == upload.state.part_urls);
        assert forall|i: int| 0 <= i < rest.len() implies #[trigger] rest[i] == url_of(
            upload.part_number + 1 + i,
        ) by {
            assert(rest[i] == urls[i + 1]);
        }
    }
}

/// The ETags that complete an upload are those that the cache answered with, one
/// for each part that was uploaded, in the order of the parts; and while it goes
/// on, the next part has the number after the parts that were uploaded.
///
/// The upload is given as it was before the first part, and after each part, and
/// the ETags as they were handed to it and as it hands them back in the end.
pub proof fn law_etags_complete_the_upload(
    uploads: Seq<NarUpload>,
    states: Seq<NarUploadState>,
    answered: Seq<Seq<char>>,
    outcomes: Seq<Option<PartUploaded>>,
    completing: Seq<Seq<char>>,
)
    requires
        uploads.len() == answered.len() + 1,
        states.len() == answered.len(),
        outcomes.len() == answered.len(),
        uploads[0].part_number() == 1,
        uploads[0].etags() == Seq::<Seq<char>>::empty(),
        forall|k: int|
            #![trigger answered[k]]
            0 <= k < answered.len() ==> uploads[k + 1].at(states[k]) == uploads[k].at(
                states[k],
            ).with_etag(answered[k], outcomes[k]),
        forall|k: int|
            0 <= k < outcomes.len() - 1 ==> #[trigger] outcomes[k] == Some(PartUploaded::Continue),
        completing == uploads.last().etags(),
    ensures
        completing.len() == answered.len(),
        forall|k: int| 0 <= k < answered.len() ==> #[trigger] completing[k] == answered[k],
        answered.len() < u16::MAX && (answered.len() == 0 || outcomes.last() == Some(
            PartUploaded::Continue,
        )) ==> uploads.last().part_number() == answered.len() + 1,
    decreases answered.len(),
{
    if answered.len() > 0 {
        let n = answered.len() - 1;
        let front = uploads.drop_last();
        assert forall|k: int|
            #![trigger answered.drop_last()[k]]
            0 <= k < n implies front[k + 1].at(states.drop_last()[k]) == front[k].at(
            states.drop_last()[k],
        ).with_etag(answered.drop_last()[k], outcomes.drop_last()[k]) by {
            assert(answered[k] == answered.drop_last()[k]);
        }
        law_etags_complete_the_upload(
            front,
            states.drop_last(),
            answered.drop_last(),
            outcomes.drop_last(),
            front.last().etags(),
        );
        assert(uploads[n + 1].at(states[n]) == uploads[n].at(states[n]).with_etag(
            answered[n],
            outcomes[n],
        ));
        assert(front.last() == uploads[n]);
        if n > 0 {
            assert(outcomes[n - 1] == Some(PartUploaded::Continue));
            assert(outcomes.drop_last().last() == outcomes[n - 1]);
        }
        assert forall|k: int| 0 <= k < answered.len() implies #[trigger] completing[k]
            == answered[k] by {
            if k < n {
                assert(front.last().etags()[k] == answered.drop_last()[k]);
            }
        }
    }
}

/// The URLs that are asked for are those of the next part and of the parts that
/// follow it, four of them, or all that are left if these are fewer: the last
/// part has the number 65535.
pub proof fn law_next_parts_are_requested(first: u16)
    ensures
        requested_parts(first).len() <= 4,
        requested_parts(first).len() < 4 ==> first + requested_parts(first).len() == 65536,
        forall|i: int|
            0 <= i < requested_parts(first).len() ==> #[trigger] requested_parts(first)[i] == first
                + i,
        requested_parts(first).len() > 0,
{
}

/// A URL is put to use only if it lasts for more than ten seconds, and as long
/// as it does none is given up.
pub proof fn law_used_urls_do_not_expire(upload: NarUploadView, now: u128)
    ensures
        upload.usable_urls(now).len() > 0 ==> upload.state.urls_expiration_ts - now
            > 10_000_000_000,
        upload.state.urls_expiration_ts - now > 10_000_000_000 ==> upload.usable_urls(now)
            == upload.state.part_urls,
{
}

/// What is known of the state of an upload is what it holds.
pub proof fn law_upload_state_is_what_it_holds(state: NarUploadState)
    ensures
        state@.part_size == state.part_size,
        state@.part_urls.len() == state.part_urls@.len(),
        forall|i: int|
            0 <= i < state.part_urls@.len() ==> #[trigger] state@.part_urls[i]
                == state.part_urls@[i]@,
        state@.store_basename.hash == state.store_basename.hash@,
        state@.store_basename.name == state.store_basename.name@,
        state@.upload_id == state.upload_id@,
        state@.urls_expiration_ts == state.urls_expiration_ts,
{
}

} // verus!
