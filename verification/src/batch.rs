//! The files of a run: which candidate to try next, and what becomes of each file.
use std::collections::HashMap;
use vstd::prelude::*;

use crate::attempt::DecryptResult;
use crate::plugin::{Candidate, IdentityError, IdentityPlugin};
use crate::stanza::{FileKey, Stanza};

verus! {

broadcast use vstd::std_specs::hash::group_hash_axioms;

/// What age is told of the files: the file key, or the reasons why there is none.
pub type FileKeyMap = HashMap<usize, Result<FileKey, Vec<IdentityError>>>;

/// The candidates of each file, and what came of those tried so far, both in order.
pub struct BatchView {
    pub candidates: Seq<Seq<crate::plugin::CandidateView>>,
    pub outcomes: Seq<Seq<crate::attempt::DecryptView>>,
}

/// What a file ends as: its key, the reasons why there is none, or nothing to say.
pub type EntryView = Option<Result<Seq<u8>, Seq<crate::plugin::IdentityErrorView>>>;

/// Whether some outcomes end with the file key.
pub open spec fn is_opened(outcomes: Seq<crate::attempt::DecryptView>) -> bool {
    outcomes.len() > 0 && outcomes.last() is Decrypted
}

/// The errors among the outcomes for a file, in order. A candidate for another YubiKey leaves
/// none.
pub open spec fn errors_of(
    file: usize,
    candidates: Seq<crate::plugin::CandidateView>,
    outcomes: Seq<crate::attempt::DecryptView>,
) -> Seq<crate::plugin::IdentityErrorView>
    decreases outcomes.len(),
{
    if outcomes.len() == 0 {
        seq![]
    } else {
        let before = errors_of(file, candidates, outcomes.drop_last());
        match outcomes.last() {
            crate::attempt::DecryptView::AeadFailed => before.push(
                crate::plugin::IdentityErrorView::Stanza {
                    file_index: file,
                    stanza_index: candidates[outcomes.len() - 1].stanza_index,
                    message: "AEAD decryption failed"@,
                },
            ),
            crate::attempt::DecryptView::Failed(e) => before.push(e),
            _ => before,
        }
    }
}

/// What a file ends as.
pub open spec fn entry_of(
    file: usize,
    candidates: Seq<crate::plugin::CandidateView>,
    outcomes: Seq<crate::attempt::DecryptView>,
) -> EntryView {
    if is_opened(outcomes) {
        Some(Ok(outcomes.last()->Decrypted_0))
    } else if errors_of(file, candidates, outcomes).len() > 0 {
        Some(Err(errors_of(file, candidates, outcomes)))
    } else {
        None
    }
}

impl BatchView {
    /// Whether nothing is left to try for a file: it was opened, or every candidate was tried.
    pub open spec fn is_over(self, file: int) -> bool {
        is_opened(self.outcomes[file]) || self.outcomes[file].len() >= self.candidates[file].len()
    }

    /// The first file from `file` on that is not over.
    pub open spec fn next_from(self, file: nat) -> nat
        decreases self.candidates.len() - file,
    {
        if file < self.candidates.len() && self.is_over(file as int) {
            self.next_from(file + 1)
        } else {
            file
        }
    }

    /// The first file that is not over; the number of files if there is none.
    pub open spec fn next_file(self) -> nat {
        self.next_from(0)
    }

    /// Whether every file is over.
    pub open spec fn is_done(self) -> bool {
        self.next_file() >= self.candidates.len()
    }

    /// The candidate to try next.
    pub open spec fn next_candidate(self) -> crate::plugin::CandidateView {
        let file = self.next_file() as int;
        self.candidates[file][self.outcomes[file].len() as int]
    }

    /// The batch after the next candidate was tried.
    pub open spec fn recorded(self, outcome: crate::attempt::DecryptView) -> BatchView {
        let file = self.next_file() as int;
        BatchView {
            candidates: self.candidates,
            outcomes: self.outcomes.update(file, self.outcomes[file].push(outcome)),
        }
    }

    /// How many candidates may still be tried for the files from `file` on.
    pub open spec fn left_from(self, file: nat) -> nat
        decreases self.candidates.len() - file,
    {
        if file >= self.candidates.len() {
            0
        } else if self.is_over(file as int) {
            self.left_from(file + 1)
        } else {
            (self.candidates[file as int].len() - self.outcomes[file as int].len()) as nat
                + self.left_from(file + 1)
        }
    }

    /// What a file ends as.
    pub open spec fn entry(self, file: usize) -> EntryView {
        entry_of(file, self.candidates[file as int], self.outcomes[file as int])
    }
}

/// Errors as sequences of characters.
pub open spec fn errors_view(errors: Seq<IdentityError>) -> Seq<crate::plugin::IdentityErrorView> {
    errors.map_values(|e: IdentityError| e@)
}

/// An entry of the map as plain sequences.
pub open spec fn entry_view(entry: Result<FileKey, Vec<IdentityError>>) -> Result<
    Seq<u8>,
    Seq<crate::plugin::IdentityErrorView>,
> {
    match entry {
        Ok(key) => Ok(key@),
        Err(errors) => Err(errors_view(errors@)),
    }
}

/// Whether a map holds the entries of the files before `end`, and nothing else.
pub open spec fn holds_entries(
    map: Map<usize, Result<FileKey, Vec<IdentityError>>>,
    batch: BatchView,
    end: nat,
) -> bool {
    forall|file: usize|
        #![trigger map.dom().contains(file)]
        #![trigger batch.entry(file)]
        match batch.entry(file) {
            Some(entry) if file < end => map.dom().contains(file) && entry_view(map[file]) == entry,
            _ => !map.dom().contains(file),
        }
}

/// An entry with its file key overwritten.
pub open spec fn wiped(entry: Result<Seq<u8>, Seq<crate::plugin::IdentityErrorView>>) -> Result<
    Seq<u8>,
    Seq<crate::plugin::IdentityErrorView>,
> {
    match entry {
        Ok(_) => Ok(crate::stanza::wiped_key()),
        Err(errors) => Err(errors),
    }
}

/// Whether a map holds the entries of the files before `end` with every file key overwritten, and
/// nothing else.
pub open spec fn holds_wiped(
    map: Map<usize, Result<FileKey, Vec<IdentityError>>>,
    batch: BatchView,
    end: nat,
) -> bool {
    forall|file: usize|
        #![trigger map.dom().contains(file)]
        #![trigger batch.entry(file)]
        match batch.entry(file) {
            Some(entry) if file < end => map.dom().contains(file) && entry_view(map[file])
                == wiped(entry),
            _ => !map.dom().contains(file),
        }
}

/// The candidates of each file as sequences.
pub open spec fn files_view(files: Seq<Vec<Candidate>>) -> Seq<Seq<crate::plugin::CandidateView>> {
    files.map_values(|f: Vec<Candidate>| crate::plugin::candidates_view(f@))
}

/// The files of a run that is under way.
pub struct Batch {
    files: Vec<Vec<Candidate>>,
    file: usize,
    next: usize,
    errors: Vec<IdentityError>,
    file_keys: FileKeyMap,
    outcomes: Ghost<Seq<Seq<crate::attempt::DecryptView>>>,
}

impl View for Batch {
    type V = BatchView;

    closed spec fn view(&self) -> BatchView {
        BatchView { candidates: files_view(self.files@), outcomes: self.outcomes@ }
    }
}

proof fn lemma_next_from(b: BatchView, from: nat, to: nat)
    requires
        from <= to <= b.candidates.len(),
        forall|f: int| from <= f < to ==> b.is_over(f),
        to < b.candidates.len() ==> !b.is_over(to as int),
    ensures
        b.next_from(from) == to,
    decreases to - from,
{
    if from < to {
        assert(b.is_over(from as int));
        lemma_next_from(b, from + 1, to);
    }
}

impl Batch {
    #[verifier::type_invariant]
    spec fn well_formed(self) -> bool {
        let b = self@;
        &&& b.outcomes.len() == b.candidates.len()
        &&& self.file <= self.files@.len()
        &&& forall|f: int| 0 <= f < self.file ==> #[trigger] b.is_over(f)
        &&& forall|f: int| self.file < f < b.outcomes.len() ==> (#[trigger] b.outcomes[f]).len() == 0
        &&& self.file < self.files@.len() ==> {
            &&& !b.is_over(self.file as int)
            &&& b.outcomes[self.file as int].len() == self.next
            &&& errors_view(self.errors@) == errors_of(
                self.file,
                b.candidates[self.file as int],
                b.outcomes[self.file as int],
            )
        }
        &&& holds_entries(self.file_keys@, b, self.file as nat)
    }

    /// A batch that has come to `file`: the next file with something to try follows.
    fn from_file(
        files: Vec<Vec<Candidate>>,
        first: usize,
        file_keys: FileKeyMap,
        outcomes: Ghost<Seq<Seq<crate::attempt::DecryptView>>>,
    ) -> (r: Batch)
        requires
            first <= files@.len() == outcomes@.len(),
            ({
                let b = BatchView { candidates: files_view(files@), outcomes: outcomes@ };
                &&& forall|f: int| 0 <= f < first ==> #[trigger] b.is_over(f)
                &&& forall|f: int|
                    first <= f < outcomes@.len() ==> (#[trigger] outcomes@[f]).len() == 0
                &&& holds_entries(file_keys@, b, first as nat)
            }),
        ensures
            r@ == (BatchView { candidates: files_view(files@), outcomes: outcomes@ }),
    {
        let ghost b = BatchView { candidates: files_view(files@), outcomes: outcomes@ };
        let mut file: usize = first;
        while file < files.len() && files[file].len() == 0
            invariant
                file <= files@.len() == outcomes@.len(),
                b == (BatchView { candidates: files_view(files@), outcomes: outcomes@ }),
                forall|f: int| 0 <= f < file ==> #[trigger] b.is_over(f),
                forall|f: int| file <= f < outcomes@.len() ==> (#[trigger] outcomes@[f]).len() == 0,
                holds_entries(file_keys@, b, file as nat),
            decreases files@.len() - file,
        {
            assert(b.outcomes[file as int].len() == 0);
            assert(b.is_over(file as int));
            assert(b.entry(file) is None);
            file += 1;
        }
        let errors: Vec<IdentityError> = Vec::new();
        proof {
            if file < files@.len() {
                assert(b.outcomes[file as int].len() == 0);
                assert(b.candidates[file as int].len() == files@[file as int]@.len());
                assert(errors_view(errors@) =~= errors_of(
                    file,
                    b.candidates[file as int],
                    b.outcomes[file as int],
                ));
            }
        }
        Batch { files, file, next: 0, errors, file_keys, outcomes }
    }

    /// The candidate to try next, if any is left.
    pub fn candidate(&self) -> (r: Option<&Candidate>)
        ensures
            match r {
                Some(c) => !self@.is_done() && c@ == self@.next_candidate(),
                None => self@.is_done(),
            },
    {
        proof {
            use_type_invariant(self);
            lemma_next_from(self@, 0, self.file as nat);
        }
        if self.file < self.files.len() {
            Some(&self.files[self.file][self.next])
        } else {
            None
        }
    }

    /// Takes down what came of the next candidate. A file that was opened needs no other
    /// candidate.
    pub fn record(self, outcome: DecryptResult) -> (r: Batch)
        requires
            !self@.is_done(),
        ensures
            r@ == self@.recorded(outcome@),
    {
        proof {
            use_type_invariant(&self);
            lemma_next_from(self@, 0, self.file as nat);
        }
        let ghost b = self@;
        let Batch { files, file, next, errors, file_keys, outcomes } = self;
        let mut errors = errors;
        let mut file_keys = file_keys;
        let file_count: usize = files.len();
        let candidate_count: usize = files[file].len();
        assert(file < file_count && next < candidate_count);
        let ghost c = b.recorded(outcome@);
        let ghost f0 = file as int;
        assert(c.outcomes[f0].drop_last() =~= b.outcomes[f0]);
        assert forall|f: int| 0 <= f < file implies #[trigger] c.is_over(f) by {
            assert(b.is_over(f));
        }
        assert(b.candidates[f0].len() == files@[f0]@.len());
        assert forall|f: usize| f != file && f < c.candidates.len() implies #[trigger] c.entry(f)
            == b.entry(f) by {}
        let recorded = Ghost(c.outcomes);
        match outcome {
            DecryptResult::Decrypted(key) => {
                file_keys.insert(file, Ok(key));
                assert(c.is_over(f0));
                return Batch::from_file(files, file + 1, file_keys, recorded);
            },
            DecryptResult::AeadFailed => {
                let stanza_index = files[file][next].stanza_index;
                errors.push(
                    IdentityError::Stanza {
                        file_index: file,
                        stanza_index,
                        message: String::from_str("AEAD decryption failed"),
                    },
                );
            },
            DecryptResult::SerialMismatch => {},
            DecryptResult::Failed(e) => {
                errors.push(e);
            },
        }
        assert(errors_view(errors@) =~= errors_of(file, c.candidates[f0], c.outcomes[f0]));
        if next + 1 < candidate_count {
            return Batch { files, file, next: next + 1, errors, file_keys, outcomes: recorded };
        }
        assert(c.is_over(f0));
        if errors.len() > 0 {
            file_keys.insert(file, Err(errors));
        }
        Batch::from_file(files, file + 1, file_keys, recorded)
    }

    /// What age is told once every file is over.
    pub fn finish(self) -> (r: FileKeyMap)
        requires
            self@.is_done(),
        ensures
            holds_entries(r@, self@, self@.candidates.len()),
    {
        proof {
            use_type_invariant(&self);
            lemma_next_from(self@, 0, self.file as nat);
        }
        self.file_keys
    }

    /// Gives a run up: overwrites the file keys unwrapped so far. What is left of the entries
    /// tells which files had come to an end.
    pub fn abandon(self) -> (r: FileKeyMap)
        ensures
            holds_wiped(r@, self@, self@.next_file()),
    {
        proof {
            use_type_invariant(&self);
            lemma_next_from(self@, 0, self.file as nat);
        }
        let ghost b = self@;
        let file: usize = self.file;
        let mut file_keys = self.file_keys;
        let ghost before = file_keys@;
        let mut i: usize = 0;
        while i < file
            invariant
                i <= file,
                holds_entries(before, b, file as nat),
                forall|f: usize|
                    #![trigger file_keys@.dom().contains(f)]
                    file_keys@.dom().contains(f) == before.dom().contains(f),
                forall|f: usize|
                    f >= i && before.dom().contains(f) ==> #[trigger] file_keys@[f] == before[f],
                forall|f: usize|
                    f < i && before.dom().contains(f) ==> entry_view(#[trigger] file_keys@[f])
                        == wiped(entry_view(before[f])),
            decreases file - i,
        {
            match file_keys.remove(&i) {
                Some(Ok(mut key)) => {
                    key.wipe();
                    file_keys.insert(i, Ok(key));
                },
                Some(Err(errors)) => {
                    file_keys.insert(i, Err(errors));
                },
                None => {},
            }
            i += 1;
        }
        assert(holds_wiped(file_keys@, b, file as nat)) by {
            assert forall|f: usize| before.dom().contains(f) implies f < file by {
                assert(before.dom().contains(f));
            }
        }
        file_keys
    }
}

/// What unwrapping the keys of some files begins with.
pub enum Unwrapping {
    /// The daemon cannot be reached: an error for age, and no entry for any file.
    Unreachable(IdentityError),
    Started(Batch),
}

/// Whether a batch is the start of a run: every file has its candidates, and none was tried.
pub open spec fn is_start_of(
    identities: Seq<crate::plugin::PluginIdentity>,
    files: Seq<Vec<Stanza>>,
    batch: BatchView,
) -> bool {
    &&& batch.candidates.len() == files.len()
    &&& batch.outcomes.len() == files.len()
    &&& forall|f: int|
        0 <= f < files.len() ==> #[trigger] batch.candidates[f] == crate::plugin::candidates(
            identities,
            files[f]@,
        )
    &&& forall|f: int| 0 <= f < files.len() ==> (#[trigger] batch.outcomes[f]).len() == 0
}

impl IdentityPlugin {
    /// Begins to unwrap file keys by proxying ECDH to the daemon, given whether it could be
    /// reached.
    pub fn unwrap_file_keys(&self, files: &Vec<Vec<Stanza>>, connected: bool) -> (r: Unwrapping)
        ensures
            match r {
                Unwrapping::Unreachable(e) => !connected && e@
                    == (crate::plugin::IdentityErrorView::Internal {
                    message: "age-plugin-yubikey-daemon is not running."@,
                }),
                Unwrapping::Started(batch) => connected && is_start_of(self@, files@, batch@),
            },
    {
        if !connected {
            return Unwrapping::Unreachable(
                IdentityError::Internal {
                    message: String::from_str("age-plugin-yubikey-daemon is not running."),
                },
            );
        }
        let mut matched: Vec<Vec<Candidate>> = Vec::new();
        let mut i: usize = 0;
        while i < files.len()
            invariant
                i <= files@.len(),
                matched@.len() == i,
                forall|f: int|
                    0 <= f < i ==> crate::plugin::candidates_view((#[trigger] matched@[f])@)
                        == crate::plugin::candidates(self@, files@[f]@),
            decreases files@.len() - i,
        {
            matched.push(self.match_stanzas(files[i].as_slice()));
            i += 1;
        }
        let ghost none = Seq::new(
            files@.len(),
            |f: int| Seq::<crate::attempt::DecryptView>::empty(),
        );
        let outcomes = Ghost(none);
        let file_keys: FileKeyMap = HashMap::with_capacity(files.len());
        Unwrapping::Started(Batch::from_file(matched, 0, file_keys, outcomes))
    }
}

/// Whether an outcome is an error that age is told of.
pub open spec fn is_failure(outcome: crate::attempt::DecryptView) -> bool {
    outcome is AeadFailed || outcome is Failed
}

/// A file has an error to report exactly if some outcome is a failure; a pure serial mismatch
/// is not an error.
pub proof fn law_errors_are_failures(
    file: usize,
    candidates: Seq<crate::plugin::CandidateView>,
    outcomes: Seq<crate::attempt::DecryptView>,
)
    ensures
        errors_of(file, candidates, outcomes).len() > 0 <==> exists|i: int|
            0 <= i < outcomes.len() && is_failure(#[trigger] outcomes[i]),
        errors_of(file, candidates, outcomes).len() <= outcomes.len(),
    decreases outcomes.len(),
{
    if outcomes.len() > 0 {
        let before = outcomes.drop_last();
        law_errors_are_failures(file, candidates, before);
        let last = outcomes[outcomes.len() - 1];
        if exists|i: int| 0 <= i < before.len() && is_failure(#[trigger] before[i]) {
            let i = choose|i: int| 0 <= i < before.len() && is_failure(#[trigger] before[i]);
            assert(is_failure(outcomes[i]));
        }
        if exists|i: int| 0 <= i < outcomes.len() && is_failure(#[trigger] outcomes[i]) {
            let i = choose|i: int| 0 <= i < outcomes.len() && is_failure(#[trigger] outcomes[i]);
            if i < before.len() {
                assert(is_failure(before[i]));
            }
        }
    }
}

/// A file for which every candidate needs another YubiKey gets no entry.
pub proof fn law_serial_mismatch_is_a_skip(
    file: usize,
    candidates: Seq<crate::plugin::CandidateView>,
    outcomes: Seq<crate::attempt::DecryptView>,
)
    requires
        forall|i: int| 0 <= i < outcomes.len() ==> (#[trigger] outcomes[i]) is SerialMismatch,
    ensures
        entry_of(file, candidates, outcomes) is None,
{
    law_errors_are_failures(file, candidates, outcomes);
    if outcomes.len() > 0 {
        assert(outcomes[outcomes.len() - 1] is SerialMismatch);
    }
}

/// A file that was opened gets its key, whatever failed before, and no other candidate of it is
/// tried; the outcomes of the other files stay as they are, and the files are taken in order.
pub proof fn law_opened_file_is_over(
    b: BatchView,
    outcome: crate::attempt::DecryptView,
    key: Seq<u8>,
    file: usize,
)
    requires
        !b.is_done(),
        b.outcomes.len() == b.candidates.len(),
        file == b.next_file(),
    ensures
        outcome == crate::attempt::DecryptView::Decrypted(key) ==> {
            &&& b.recorded(outcome).is_over(file as int)
            &&& b.recorded(outcome).entry(file) == Some(
                Ok::<_, Seq<crate::plugin::IdentityErrorView>>(key),
            )
        },
        forall|f: int|
            0 <= f < b.outcomes.len() && f != file ==> b.recorded(outcome).outcomes[f]
                == b.outcomes[f],
        b.recorded(outcome).next_file() >= file,
{
    lemma_over_before_next(b, 0);
    let c = b.recorded(outcome);
    assert forall|f: int| 0 <= f < file implies c.is_over(f) by {
        assert(b.is_over(f));
    }
    lemma_next_not_before(c, 0, file as nat);
}

/// A run ends: each candidate tried leaves fewer to try, and none is left exactly when every file
/// is over.
pub proof fn law_batch_ends(b: BatchView, outcome: crate::attempt::DecryptView)
    requires
        b.outcomes.len() == b.candidates.len(),
    ensures
        !b.is_done() ==> b.recorded(outcome).left_from(0) < b.left_from(0),
        b.is_done() <==> b.left_from(0) == 0,
{
    lemma_left(b, 0);
    lemma_over_before_next(b, 0);
    if !b.is_done() {
        lemma_left_after(b, outcome, 0);
    }
}

proof fn lemma_left(b: BatchView, from: nat)
    requires
        b.outcomes.len() == b.candidates.len(),
    ensures
        b.left_from(from) == 0 <==> b.next_from(from) >= b.candidates.len(),
    decreases b.candidates.len() - from,
{
    if from < b.candidates.len() {
        lemma_left(b, from + 1);
    }
}

proof fn lemma_left_after(b: BatchView, outcome: crate::attempt::DecryptView, from: nat)
    requires
        b.outcomes.len() == b.candidates.len(),
        !b.is_done(),
    ensures
        from <= b.next_file() ==> b.recorded(outcome).left_from(from) < b.left_from(from),
        from > b.next_file() ==> b.recorded(outcome).left_from(from) == b.left_from(from),
    decreases b.candidates.len() - from,
{
    let c = b.recorded(outcome);
    lemma_over_before_next(b, 0);
    lemma_next_is_not_over(b, 0);
    if from < b.candidates.len() {
        lemma_left_after(b, outcome, from + 1);
        if from != b.next_file() {
            assert(c.outcomes[from as int] == b.outcomes[from as int]);
            assert(c.is_over(from as int) == b.is_over(from as int));
        }
    }
}

proof fn lemma_next_is_not_over(b: BatchView, from: nat)
    ensures
        b.next_from(from) < b.candidates.len() ==> !b.is_over(b.next_from(from) as int),
    decreases b.candidates.len() - from,
{
    if from < b.candidates.len() && b.is_over(from as int) {
        lemma_next_is_not_over(b, from + 1);
    }
}

proof fn lemma_over_before_next(b: BatchView, from: nat)
    ensures
        from <= b.next_from(from),
        from <= b.candidates.len() ==> b.next_from(from) <= b.candidates.len(),
        forall|f: int| from <= f < b.next_from(from) ==> #[trigger] b.is_over(f),
    decreases b.candidates.len() - from,
{
    if from < b.candidates.len() && b.is_over(from as int) {
        lemma_over_before_next(b, from + 1);
    }
}

proof fn lemma_next_not_before(b: BatchView, from: nat, to: nat)
    requires
        from <= to <= b.candidates.len(),
        forall|f: int| from <= f < to ==> b.is_over(f),
    ensures
        b.next_from(from) >= to,
    decreases to - from,
{
    if from < to {
        assert(b.is_over(from as int));
        lemma_next_not_before(b, from + 1, to);
    } else {
        lemma_over_before_next(b, from);
    }
}

/// Whether the last attempt for a file gave its key, or no candidate of it is untried.
pub open spec fn is_tried_out(
    candidates: Seq<crate::plugin::CandidateView>,
    outcomes: Seq<crate::attempt::DecryptView>,
) -> bool {
    ||| outcomes.len() > 0 && outcomes[outcomes.len() - 1] is Decrypted
    ||| outcomes.len() >= candidates.len()
}

/// A file is over exactly if it was opened or has no candidate untried.
pub proof fn law_file_with_an_untried_candidate_is_not_over(b: BatchView, file: int)
    ensures
        b.is_over(file) <==> is_tried_out(b.candidates[file], b.outcomes[file]),
        b.outcomes[file].len() < b.candidates[file].len() && (b.outcomes[file].len() == 0
            || b.outcomes[file][b.outcomes[file].len() - 1] !is Decrypted) ==> !b.is_over(file),
{
}

/// When a run is done, every file ended with its key or has one outcome for each of its
/// candidates; and a run of which this holds is done.
pub proof fn law_done_means_every_candidate_was_tried(b: BatchView)
    requires
        b.outcomes.len() == b.candidates.len(),
        forall|f: int|
            0 <= f < b.outcomes.len() ==> (#[trigger] b.outcomes[f]).len() <= b.candidates[f].len(),
    ensures
        b.is_done() <==> forall|f: int|
            0 <= f < b.outcomes.len() ==> {
                let tried = #[trigger] b.outcomes[f];
                tried.len() == b.candidates[f].len() || tried.len() > 0 && tried[tried.len()
                    - 1] is Decrypted
            },
{
    lemma_over_before_next(b, 0);
    lemma_next_is_not_over(b, 0);
    assert forall|f: int| 0 <= f < b.outcomes.len() implies (b.is_over(f) <==> ({
        let tried = #[trigger] b.outcomes[f];
        tried.len() == b.candidates[f].len() || tried.len() > 0 && tried[tried.len()
            - 1] is Decrypted
    })) by {}
    if b.is_done() {
        assert forall|f: int| 0 <= f < b.outcomes.len() implies ({
            let tried = #[trigger] b.outcomes[f];
            tried.len() == b.candidates[f].len() || tried.len() > 0 && tried[tried.len()
                - 1] is Decrypted
        }) by {
            assert(b.is_over(f));
        }
    } else {
        let f = b.next_file() as int;
        assert(!b.is_over(f));
        assert(b.outcomes[f].len() <= b.candidates[f].len());
    }
}

/// The candidate to try next is the first untried one of the first file that is not tried out,
/// whichever file that is and however many candidates were tried. Its outcome goes to the end of
/// that file's outcomes, and nothing else changes.
pub proof fn law_candidates_are_tried_in_order(
    b: BatchView,
    file: int,
    outcome: crate::attempt::DecryptView,
)
    requires
        b.outcomes.len() == b.candidates.len(),
        0 <= file < b.candidates.len(),
        !is_tried_out(b.candidates[file], b.outcomes[file]),
        forall|g: int|
            0 <= g < file ==> is_tried_out(#[trigger] b.candidates[g], b.outcomes[g]),
    ensures
        !b.is_done(),
        b.next_candidate() == b.candidates[file][b.outcomes[file].len() as int],
        b.recorded(outcome).candidates == b.candidates,
        b.recorded(outcome).outcomes.len() == b.outcomes.len(),
        b.recorded(outcome).outcomes[file] == b.outcomes[file].push(outcome),
        forall|g: int|
            0 <= g < b.outcomes.len() && g != file ==> #[trigger] b.recorded(outcome).outcomes[g]
                == b.outcomes[g],
{
    assert forall|g: int| 0 <= g < file implies b.is_over(g) by {
        assert(is_tried_out(b.candidates[g], b.outcomes[g]));
    }
    lemma_next_from(b, 0, file as nat);
}

/// No file ever has more outcomes than candidates, nor an outcome after the one that opened it.
pub proof fn law_no_more_outcomes_than_candidates(
    b: BatchView,
    outcome: crate::attempt::DecryptView,
    file: int,
)
    requires
        b.outcomes.len() == b.candidates.len(),
        !b.is_done(),
        0 <= file < b.outcomes.len(),
        b.outcomes[file].len() <= b.candidates[file].len(),
        forall|i: int|
            0 <= i < b.outcomes[file].len() - 1 ==> (#[trigger] b.outcomes[file][i]) !is Decrypted,
    ensures
        ({
            let after = b.recorded(outcome).outcomes[file];
            &&& after.len() <= b.candidates[file].len()
            &&& forall|i: int| 0 <= i < after.len() - 1 ==> (#[trigger] after[i]) !is Decrypted
        }),
{
    lemma_over_before_next(b, 0);
    lemma_next_is_not_over(b, 0);
    let before = b.outcomes[file];
    let after = b.recorded(outcome).outcomes[file];
    assert forall|i: int| 0 <= i < after.len() - 1 implies (#[trigger] after[i]) !is Decrypted by {
        assert(after[i] == before[i]);
    }
}

/// A failed attempt adds its error after those before it: its own, or that the AEAD failed, with
/// the file's place and that of the candidate's stanza. A key and a serial mismatch add none.
pub proof fn law_each_failure_adds_its_error(
    file: usize,
    candidates: Seq<crate::plugin::CandidateView>,
    outcomes: Seq<crate::attempt::DecryptView>,
    outcome: crate::attempt::DecryptView,
)
    ensures
        errors_of(file, candidates, Seq::empty()).len() == 0,
        outcome matches crate::attempt::DecryptView::Failed(e) ==> errors_of(
            file,
            candidates,
            outcomes.push(outcome),
        ) == errors_of(file, candidates, outcomes).push(e),
        outcome is AeadFailed ==> errors_of(file, candidates, outcomes.push(outcome)) == errors_of(
            file,
            candidates,
            outcomes,
        ).push(
            crate::plugin::IdentityErrorView::Stanza {
                file_index: file,
                stanza_index: candidates[outcomes.len() as int].stanza_index,
                message: "AEAD decryption failed"@,
            },
        ),
        outcome is Decrypted || outcome is SerialMismatch ==> errors_of(
            file,
            candidates,
            outcomes.push(outcome),
        ) == errors_of(file, candidates, outcomes),
{
    assert(outcomes.push(outcome).drop_last() =~= outcomes);
}

/// Whether an entry of the map is what the outcomes of its file come to: the key that the last
/// one gave; else the errors, if there are any.
pub open spec fn is_due(
    file: usize,
    candidates: Seq<crate::plugin::CandidateView>,
    outcomes: Seq<crate::attempt::DecryptView>,
    entry: Result<FileKey, Vec<IdentityError>>,
) -> bool {
    if outcomes.len() > 0 && outcomes[outcomes.len() - 1] is Decrypted {
        entry matches Ok(key) && key@ == outcomes[outcomes.len() - 1]->Decrypted_0
    } else {
        let errors = errors_of(file, candidates, outcomes);
        &&& errors.len() > 0
        &&& entry matches Err(reported)
        &&& reported@.len() == errors.len()
        &&& forall|i: int| 0 <= i < errors.len() ==> (#[trigger] reported@[i])@ == errors[i]
    }
}

/// The map that a run ends with has, for every file that was opened, its key; for every file that
/// was not and has errors, those errors in order; and for no other file anything.
pub proof fn law_map_holds_what_is_due(
    b: BatchView,
    map: Map<usize, Result<FileKey, Vec<IdentityError>>>,
    end: nat,
    file: usize,
)
    requires
        holds_entries(map, b, end),
    ensures
        map.dom().contains(file) <==> file < end && ({
            let outcomes = b.outcomes[file as int];
            ||| outcomes.len() > 0 && outcomes[outcomes.len() - 1] is Decrypted
            ||| errors_of(file, b.candidates[file as int], outcomes).len() > 0
        }),
        map.dom().contains(file) ==> is_due(
            file,
            b.candidates[file as int],
            b.outcomes[file as int],
            map[file],
        ),
{
    assert(b.entry(file) == b.entry(file));
    if map.dom().contains(file) {
        if let Err(reported) = map[file] {
            assert(errors_view(reported@).len() == reported@.len());
            assert forall|i: int| 0 <= i < reported@.len() implies (#[trigger] reported@[i])@
                == errors_view(reported@)[i] by {}
        }
    }
}

/// A map left by a run that was given up has an entry for the same files, the same errors, and
/// nothing but zeros in place of every key.
pub proof fn law_abandoned_map_holds_no_key(
    b: BatchView,
    map: Map<usize, Result<FileKey, Vec<IdentityError>>>,
    wiped_map: Map<usize, Result<FileKey, Vec<IdentityError>>>,
    end: nat,
    file: usize,
    i: int,
)
    requires
        holds_entries(map, b, end),
        holds_wiped(wiped_map, b, end),
    ensures
        wiped_map.dom().contains(file) <==> map.dom().contains(file),
        map.dom().contains(file) ==> (map[file] is Ok <==> wiped_map[file] is Ok),
        map.dom().contains(file) && map[file] is Err ==> is_due(
            file,
            b.candidates[file as int],
            b.outcomes[file as int],
            wiped_map[file],
        ),
        wiped_map.dom().contains(file) ==> (wiped_map[file] matches Ok(key) ==> key@.len() == 16
            && (0 <= i < 16 ==> key@[i] == 0)),
{
    assert(b.entry(file) == b.entry(file));
    if map.dom().contains(file) {
        if let Err(reported) = wiped_map[file] {
            assert forall|i: int| 0 <= i < reported@.len() implies (#[trigger] reported@[i])@
                == errors_view(reported@)[i] by {}
        }
    }
    crate::stanza::law_wiped_key_is_zeros(i);
}

/// A run starts with every file: with the candidates among its stanzas, all of them untried. So a
/// stanza of any file that is well formed and whose tag an identity has will be tried, unless
/// its file is opened before.
pub proof fn law_every_file_is_started(
    identities: Seq<crate::plugin::PluginIdentity>,
    files: Seq<Vec<Stanza>>,
    batch: BatchView,
    f: int,
    n: int,
    k: int,
)
    requires
        is_start_of(identities, files, batch),
        0 <= f < files.len(),
        files[f]@.len() <= usize::MAX,
        0 <= n < files[f]@.len(),
        0 <= k < identities.len(),
        crate::stanza::parsed_stanza(files[f]@[n]) matches Some(Ok(parsed))
            && identities[k].stub.tag@ == parsed.tag,
    ensures
        batch.candidates.len() == files.len() == batch.outcomes.len(),
        batch.candidates[f] == crate::plugin::candidates(identities, files[f]@),
        batch.outcomes[f].len() == 0,
        exists|i: int|
            0 <= i < batch.candidates[f].len() && (#[trigger] batch.candidates[f][i]).stanza_index
                == n,
{
    crate::plugin::law_every_match_is_a_candidate(identities, files[f]@, n, k);
}

} // verus!
