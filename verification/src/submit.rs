//! Submissions: a link or a stored file gets a fresh short code, and an
//! entry under it.

use vstd::prelude::*;
use crate::entry::{Entry, EntryKind, EntryView};
use crate::fault::Fault;
use crate::ids::{generate_code, is_code};
use crate::links::{is_http, is_http_url};
use crate::store::{has_code, with_entry, MappingStore};
use crate::upload::StoredFile;

verus! {

/// How many codes a submission draws before it gives up.
pub const MAX_CODE_ATTEMPTS: usize = 5;

/// Why a submission was refused.
#[derive(Clone, Copy, Debug, PartialEq, Eq, Structural)]
pub enum SubmitError {
    /// The submission holds neither a link nor a file.
    NoInput,
    /// The link begins with neither `http://` nor `https://`.
    InvalidUrl,
    /// Every code that was drawn is taken: a fault of the server.
    CodesExhausted,
}

impl SubmitError {
    /// A missing or malformed address is the client's fault; that the codes
    /// ran out is the server's.
    pub open spec fn fault_of(&self) -> Fault {
        match self {
            SubmitError::NoInput => Fault::Client,
            SubmitError::InvalidUrl => Fault::Client,
            SubmitError::CodesExhausted => Fault::Server,
        }
    }

    /// Whose fault the refusal is.
    pub fn fault(&self) -> (f: Fault)
        ensures
            f == self.fault_of(),
    {
        match self {
            SubmitError::NoInput => Fault::Client,
            SubmitError::InvalidUrl => Fault::Client,
            SubmitError::CodesExhausted => Fault::Server,
        }
    }
}

/// The texts of `strings`, in order.
pub open spec fn texts(strings: Seq<String>) -> Seq<Seq<char>> {
    Seq::new(strings.len(), |i: int| strings[i]@)
}

/// The first of `candidates` that is no code of `items`.
pub open spec fn first_free(items: Seq<EntryView>, candidates: Seq<Seq<char>>) -> Option<
    Seq<char>,
>
    decreases candidates.len(),
{
    if candidates.len() == 0 {
        None
    } else if !has_code(items, candidates[0]) {
        Some(candidates[0])
    } else {
        first_free(items, candidates.drop_first())
    }
}

/// The entry that a submission makes.
pub open spec fn new_entry(code: Seq<char>, kind: EntryKind, value: Seq<char>, now: int)
    -> EntryView {
    EntryView { code, kind, value, created_at: now }
}

/// What a registration does to the entries, for each way it can end: under
/// a code that was free it puts in the new entry, and where it gives up it
/// changes nothing.
pub open spec fn registered(
    before: Seq<EntryView>,
    after: Seq<EntryView>,
    outcome: Result<Seq<char>, SubmitError>,
    kind: EntryKind,
    value: Seq<char>,
    now: int,
) -> bool {
    match outcome {
        Ok(code) => !has_code(before, code) && after == with_entry(
            before,
            new_entry(code, kind, value, now),
        ),
        Err(e) => e == SubmitError::CodesExhausted && after == before,
    }
}

/// How a registration ends that draws the codes `drawn`, in this order: with
/// the first of them that is free, or with none where each is taken.
pub open spec fn outcome_of_draws(items: Seq<EntryView>, drawn: Seq<Seq<char>>) -> Result<
    Seq<char>,
    SubmitError,
> {
    match first_free(items, drawn) {
        Some(code) => Ok(code),
        None => Err(SubmitError::CodesExhausted),
    }
}

/// `codes` are `MAX_CODE_ATTEMPTS` texts of the shape of a short code.
pub open spec fn is_draw(codes: Seq<Seq<char>>) -> bool {
    codes.len() == MAX_CODE_ATTEMPTS && forall|i: int|
        0 <= i < codes.len() ==> is_code(#[trigger] codes[i])
}

/// `outcome` is how a registration on `items` ends for some draw of
/// `MAX_CODE_ATTEMPTS` codes: the retry policy, whatever the codes were.
pub open spec fn follows_policy(items: Seq<EntryView>, outcome: Result<Seq<char>, SubmitError>)
    -> bool {
    exists|drawn: Seq<Seq<char>>|
        #![trigger first_free(items, drawn)]
        is_draw(drawn) && outcome == outcome_of_draws(items, drawn)
}

/// The first free candidate is free, and every candidate before it is
/// taken: a taken code is followed by the next. Where none is free, every
/// candidate is taken.
pub proof fn lemma_first_free(items: Seq<EntryView>, candidates: Seq<Seq<char>>)
    ensures
        match first_free(items, candidates) {
            Some(code) => !has_code(items, code) && exists|i: int|
                0 <= i < candidates.len() && #[trigger] candidates[i] == code && forall|j: int|
                    0 <= j < i ==> has_code(items, #[trigger] candidates[j]),
            None => forall|i: int|
                0 <= i < candidates.len() ==> has_code(items, #[trigger] candidates[i]),
        },
    decreases candidates.len(),
{
    if candidates.len() > 0 && has_code(items, candidates[0]) {
        let rest = candidates.drop_first();
        lemma_first_free(items, rest);
        match first_free(items, rest) {
            Some(code) => {
                let k = choose|i: int|
                    0 <= i < rest.len() && #[trigger] rest[i] == code && forall|j: int|
                        0 <= j < i ==> has_code(items, #[trigger] rest[j]);
                assert(candidates[k + 1] == code);
                assert forall|j: int| 0 <= j < k + 1 implies has_code(
                    items,
                    #[trigger] candidates[j],
                ) by {
                    if j > 0 {
                        assert(rest[j - 1] == candidates[j]);
                    }
                }
            },
            None => {
                assert forall|i: int| 0 <= i < candidates.len() implies has_code(
                    items,
                    #[trigger] candidates[i],
                ) by {
                    if i > 0 {
                        assert(rest[i - 1] == candidates[i]);
                    }
                }
            },
        }
    } else if candidates.len() > 0 {
        assert(candidates[0] == candidates[0]);
    }
}

/// A registration gives up only where each of the `MAX_CODE_ATTEMPTS`
/// codes that it drew is taken; a code that it hands out was drawn, has the
/// shape of a short code, and was free.
pub proof fn lemma_policy(items: Seq<EntryView>, outcome: Result<Seq<char>, SubmitError>)
    requires
        follows_policy(items, outcome),
    ensures
        match outcome {
            Ok(code) => is_code(code) && !has_code(items, code),
            Err(e) => e == SubmitError::CodesExhausted && exists|drawn: Seq<Seq<char>>|
                #![trigger is_draw(drawn)]
                is_draw(drawn) && forall|i: int|
                    0 <= i < drawn.len() ==> has_code(items, #[trigger] drawn[i]),
        },
{
    let drawn = choose|drawn: Seq<Seq<char>>|
        #![trigger first_free(items, drawn)]
        is_draw(drawn) && outcome == outcome_of_draws(items, drawn);
    lemma_first_free(items, drawn);
    assert(is_draw(drawn));
}

/// On a store without entries a registration never gives up.
pub proof fn lemma_empty_store_registers(outcome: Result<Seq<char>, SubmitError>)
    requires
        follows_policy(Seq::<EntryView>::empty(), outcome),
    ensures
        outcome is Ok,
{
    lemma_policy(Seq::<EntryView>::empty(), outcome);
    if outcome is Err {
        let drawn = choose|drawn: Seq<Seq<char>>|
            #![trigger is_draw(drawn)]
            is_draw(drawn) && forall|i: int|
                0 <= i < drawn.len() ==> has_code(
                    Seq::<EntryView>::empty(),
                    #[trigger] drawn[i],
                );
        assert(has_code(Seq::<EntryView>::empty(), drawn[0]));
    }
}

/// What is wrong with a submitted link, if anything.
pub open spec fn link_problem(link: Seq<char>) -> Option<SubmitError> {
    if link.len() == 0 {
        Some(SubmitError::NoInput)
    } else if !is_http_url(link) {
        Some(SubmitError::InvalidUrl)
    } else {
        None
    }
}

/// The text of `r`, where it is one.
pub open spec fn outcome_view(r: Result<String, SubmitError>) -> Result<Seq<char>, SubmitError> {
    match r {
        Ok(code) => Ok(code@),
        Err(e) => Err(e),
    }
}

/// Checks a submitted link: it is there, and it names `http` or `https`.
pub fn check_link(link: &str) -> (r: Result<(), SubmitError>)
    ensures
        match r {
            Ok(()) => link_problem(link@) is None,
            Err(e) => link_problem(link@) == Some(e),
        },
{
    if link.is_empty() {
        Err(SubmitError::NoInput)
    } else if !is_http(link) {
        Err(SubmitError::InvalidUrl)
    } else {
        Ok(())
    }
}

/// Draws `count` fresh random codes.
pub fn draw_codes(count: usize) -> (codes: Vec<String>)
    ensures
        codes.len() == count,
        forall|i: int| 0 <= i < count ==> is_code(#[trigger] texts(codes@)[i]),
{
    let mut codes: Vec<String> = Vec::new();
    while codes.len() < count
        invariant
            codes.len() <= count,
            forall|i: int| 0 <= i < codes.len() ==> is_code(#[trigger] texts(codes@)[i]),
        decreases count - codes.len(),
    {
        let ghost before = codes@;
        codes.push(generate_code());
        proof {
            assert forall|i: int| 0 <= i < codes.len() implies is_code(
                #[trigger] texts(codes@)[i],
            ) by {
                if i < before.len() {
                    assert(texts(codes@)[i] == texts(before)[i]);
                }
            }
        }
    }
    codes
}

impl MappingStore {
    /// Puts in an entry under the first of `candidates` that is free, and
    /// hands that code back. Where none is free, nothing changes.
    pub fn register_with(
        &mut self,
        candidates: &Vec<String>,
        kind: EntryKind,
        value: &str,
        now: i64,
    ) -> (r: Result<String, SubmitError>)
        requires
            old(self).wf(),
        ensures
            final(self).wf(),
            outcome_view(r) == outcome_of_draws(old(self).items(), texts(candidates@)),
            registered(old(self).items(), final(self).items(), outcome_view(r), kind, value@, now as int),
    {
        let mut i: usize = 0;
        proof {
            assert(texts(candidates@).skip(0) =~= texts(candidates@));
        }
        while i < candidates.len()
            invariant
                i <= candidates.len(),
                self.wf(),
                self.items() == old(self).items(),
                first_free(old(self).items(), texts(candidates@)) == first_free(
                    old(self).items(),
                    texts(candidates@).skip(i as int),
                ),
            decreases candidates.len() - i,
        {
            let ghost rest = texts(candidates@).skip(i as int);
            proof {
                assert(rest[0] == candidates@[i as int]@);
                assert(rest.drop_first() =~= texts(candidates@).skip(i + 1));
            }
            if !self.contains(candidates[i].as_str()) {
                let code = candidates[i].clone();
                let entry = Entry { code: code.clone(), kind, value: String::from_str(value), created_at: now };
                let inserted = self.insert(entry);
                assert(inserted is Ok);
                return Ok(code);
            }
            i = i + 1;
        }
        Err(SubmitError::CodesExhausted)
    }

    /// Puts in an entry under a fresh random code, and hands the code back.
    /// It draws `MAX_CODE_ATTEMPTS` codes and registers under the first of
    /// them that is free. Where each of them is taken it gives up, and
    /// nothing has changed.
    pub fn register(&mut self, kind: EntryKind, value: &str, now: i64) -> (r: Result<
        String,
        SubmitError,
    >)
        requires
            old(self).wf(),
        ensures
            final(self).wf(),
            r matches Ok(code) ==> is_code(code@),
            registered(old(self).items(), final(self).items(), outcome_view(r), kind, value@, now as int),
            follows_policy(old(self).items(), outcome_view(r)),
    {
        let candidates = draw_codes(MAX_CODE_ATTEMPTS);
        let r = self.register_with(&candidates, kind, value, now);
        proof {
            let drawn = texts(candidates@);
            assert(is_draw(drawn));
            assert(outcome_view(r) == outcome_of_draws(old(self).items(), drawn));
            lemma_policy(old(self).items(), outcome_view(r));
        }
        r
    }

    /// Registers the address `link`, if it passes `check_link`.
    pub fn submit_link(&mut self, link: &str, now: i64) -> (r: Result<String, SubmitError>)
        requires
            old(self).wf(),
        ensures
            final(self).wf(),
            r matches Ok(code) ==> is_code(code@),
            match link_problem(link@) {
                Some(e) => r == Err::<String, SubmitError>(e) && final(self).items() == old(self).items(),
                None => registered(
                    old(self).items(),
                    final(self).items(),
                    outcome_view(r),
                    EntryKind::Url,
                    link@,
                    now as int,
                ) && follows_policy(old(self).items(), outcome_view(r)),
            },
    {
        match check_link(link) {
            Err(e) => Err(e),
            Ok(()) => self.register(EntryKind::Url, link, now),
        }
    }

    /// Registers a file that the upload pipeline has stored.
    pub fn submit_file(&mut self, file: &StoredFile, now: i64) -> (r: Result<
        String,
        SubmitError,
    >)
        requires
            old(self).wf(),
        ensures
            final(self).wf(),
            r matches Ok(code) ==> is_code(code@),
            registered(
                old(self).items(),
                final(self).items(),
                outcome_view(r),
                EntryKind::File,
                file.generated_name@,
                now as int,
            ),
            follows_policy(old(self).items(), outcome_view(r)),
    {
        self.register(EntryKind::File, file.generated_name.as_str(), now)
    }
}

} // verus!
