//! The file names of one take, and how a take claims names that nobody has.

use crate::text::{decimal, push_decimal};
use vstd::prelude::*;
use vstd::string::*;

verus! {

/// How many names are tried for one timestamp.
pub const MAX_ATTEMPTS: u32 = 100;

/// The error of a take for which every name is taken.
pub const OUT_OF_NAMES: &'static str = "too many recordings with the same timestamp";

/// The three names of a take.
#[verifier::ext_equal]
pub struct NamesView {
    pub part: Seq<char>,
    pub finished: Seq<char>,
    pub partial: Seq<char>,
}

/// The stem of the `attempt`th try: the stem as given, then with a number behind it.
pub open spec fn attempt_stem(stem: Seq<char>, attempt: nat) -> Seq<char> {
    if attempt == 1 {
        stem
    } else {
        stem + "-"@ + decimal(attempt)
    }
}

/// The three names for the `attempt`th try at `stem`.
pub open spec fn names_of(stem: Seq<char>, attempt: nat) -> NamesView {
    NamesView {
        part: attempt_stem(stem, attempt) + ".webm.part"@,
        finished: attempt_stem(stem, attempt) + ".webm"@,
        partial: attempt_stem(stem, attempt) + ".partial.webm"@,
    }
}

/// Law: the first try has the stem as it was asked for, any other the stem, a dash and the number
/// of the try; and the endings tell a running, a finished and an interrupted take apart.
pub proof fn law_names_carry_stem_and_number(stem: Seq<char>, attempt: nat)
    ensures
        ({
            let number = if attempt == 1 {
                Seq::<char>::empty()
            } else {
                seq!['-'] + decimal(attempt)
            };
            &&& names_of(stem, attempt).part == stem + number + ".webm.part"@
            &&& names_of(stem, attempt).finished == stem + number + ".webm"@
            &&& names_of(stem, attempt).partial == stem + number + ".partial.webm"@
        }),
{
    reveal_strlit("-");
    assert("-"@ =~= seq!['-']);
    assert(stem + Seq::<char>::empty() =~= stem);
    assert(stem + (seq!['-'] + decimal(attempt)) =~= stem + seq!['-'] + decimal(attempt));
}

/// The names that a take can end up under, in the folder of the recordings.
#[derive(Debug)]
pub struct TakeNames {
    /// The file while the take runs.
    pub part: String,
    /// The file of a finished recording.
    pub finished: String,
    /// The file of an interrupted recording.
    pub partial: String,
}

impl View for TakeNames {
    type V = NamesView;

    open spec fn view(&self) -> NamesView {
        NamesView { part: self.part@, finished: self.finished@, partial: self.partial@ }
    }
}

impl TakeNames {
    /// The three names for the `attempt`th try at `stem`.
    pub fn new(stem: &str, attempt: u32) -> (names: TakeNames)
        ensures
            names@ == names_of(stem@, attempt as nat),
            names.part@ == names_of(stem@, attempt as nat).part,
            names.finished@ == names_of(stem@, attempt as nat).finished,
            names.partial@ == names_of(stem@, attempt as nat).partial,
    {
        let mut base = stem.to_owned();
        if attempt != 1 {
            base.append("-");
            push_decimal(&mut base, attempt);
        }
        let part = base.clone().concat(".webm.part");
        let finished = base.clone().concat(".webm");
        let partial = base.concat(".partial.webm");
        TakeNames { part, finished, partial }
    }
}

/// What happened to a name that was tried.
#[derive(Clone, Copy, Debug, PartialEq, Eq, Structural)]
pub enum ClaimEvent {
    /// The finished or the partial name exists.
    Taken,
    /// Neither exists.
    Free,
    /// The part file was created, and was not there before.
    Created,
    /// The part file exists.
    Collided,
    /// The part file could not be created for another reason.
    OpenFailed,
}

/// What to do next to claim names.
#[derive(Clone, Copy, Debug, PartialEq, Eq, Structural)]
pub enum ClaimAction {
    /// See whether the finished or the partial name exists.
    Probe,
    /// Create the part file, but only where it does not exist.
    Open,
    /// The names belong to this take.
    Keep,
    /// Every name is taken.
    GiveUp,
    /// Pass the error on.
    Fail,
}

/// Where a claim is: the stem that was asked for and the try that is under way.
pub struct ClaimView {
    pub stem: Seq<char>,
    pub attempt: nat,
}

impl ClaimView {
    /// The state after `event`.
    pub open spec fn next(self, event: ClaimEvent) -> ClaimView {
        if (event == ClaimEvent::Taken || event == ClaimEvent::Collided) && self.attempt
            < MAX_ATTEMPTS {
            ClaimView { attempt: self.attempt + 1, ..self }
        } else {
            self
        }
    }

    /// What `event` asks for.
    pub open spec fn action(self, event: ClaimEvent) -> ClaimAction {
        match event {
            ClaimEvent::Taken | ClaimEvent::Collided => if self.attempt < MAX_ATTEMPTS {
                ClaimAction::Probe
            } else {
                ClaimAction::GiveUp
            },
            ClaimEvent::Free => ClaimAction::Open,
            ClaimEvent::Created => ClaimAction::Keep,
            ClaimEvent::OpenFailed => ClaimAction::Fail,
        }
    }
}

/// Law: names are kept exactly where the part file was created, and the part file is created only
/// where the other two names are free. A name that is taken leads on to the next number, and after
/// the hundredth to giving up. Any other failure is passed on at once, with the try as it is.
pub proof fn law_claim_tells_taken_from_failed(claim: ClaimView, event: ClaimEvent)
    requires
        1 <= claim.attempt <= 100,
    ensures
        claim.action(event) == ClaimAction::Keep <==> event == ClaimEvent::Created,
        claim.action(event) == ClaimAction::Open <==> event == ClaimEvent::Free,
        claim.action(event) == ClaimAction::Fail <==> event == ClaimEvent::OpenFailed,
        claim.action(event) == ClaimAction::Probe ==> claim.next(event).attempt == claim.attempt
            + 1,
        claim.action(event) != ClaimAction::Probe ==> claim.next(event) == claim,
        claim.action(event) == ClaimAction::GiveUp ==> claim.attempt == 100,
        claim.action(event) == ClaimAction::Probe ==> claim.attempt < 100,
        claim.next(event).stem == claim.stem,
{
}

/// A take that looks for names nobody has. All three names are claimed together, so that an
/// interrupted take never lands on the file of an earlier one with the same timestamp.
pub struct NameClaim {
    stem: String,
    attempt: u32,
    names: TakeNames,
}

impl View for NameClaim {
    type V = ClaimView;

    closed spec fn view(&self) -> ClaimView {
        ClaimView { stem: self.stem@, attempt: self.attempt as nat }
    }
}

impl NameClaim {
    /// The names are those of the try under way.
    pub closed spec fn wf(&self) -> bool {
        &&& 1 <= self.attempt <= MAX_ATTEMPTS
        &&& self.names@ == names_of(self.stem@, self.attempt as nat)
    }

    /// Starts with the first try. Its names are to be probed.
    pub fn new(stem: &str) -> (claim: NameClaim)
        ensures
            claim.wf(),
            claim@ == (ClaimView { stem: stem@, attempt: 1 }),
    {
        NameClaim { stem: stem.to_owned(), attempt: 1, names: TakeNames::new(stem, 1) }
    }

    /// The names of the try under way.
    pub fn names(&self) -> (names: &TakeNames)
        requires
            self.wf(),
        ensures
            names@ == names_of(self@.stem, self@.attempt),
    {
        &self.names
    }

    /// Takes in what happened and says what to do next.
    pub fn step(&mut self, event: ClaimEvent) -> (action: ClaimAction)
        requires
            old(self).wf(),
        ensures
            final(self).wf(),
            final(self)@ == old(self)@.next(event),
            action == old(self)@.action(event),
    {
        match event {
            ClaimEvent::Taken | ClaimEvent::Collided => {
                if self.attempt < MAX_ATTEMPTS {
                    self.attempt = self.attempt + 1;
                    self.names = TakeNames::new(self.stem.as_str(), self.attempt);
                    ClaimAction::Probe
                } else {
                    ClaimAction::GiveUp
                }
            },
            ClaimEvent::Free => ClaimAction::Open,
            ClaimEvent::Created => ClaimAction::Keep,
            ClaimEvent::OpenFailed => ClaimAction::Fail,
        }
    }

    /// Hands over the names.
    pub fn into_names(self) -> (names: TakeNames)
        requires
            self.wf(),
        ensures
            names@ == names_of(self@.stem, self@.attempt),
    {
        self.names
    }
}

} // verus!
