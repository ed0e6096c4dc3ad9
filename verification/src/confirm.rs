//! The identity-confirmation protocol: the one-shot submission cooldown,
//! the classification of server rejection alerts, and the confirm/re-solve
//! retry loop that follows the CAPTCHA solver.

use crate::text::str_eq;
use vstd::prelude::*;

verus! {

/// The closed set of rejection causes the confirmation step distinguishes.
/// The raw alert text becomes a variant at the page boundary, so the retry
/// logic switches on a variant, never on a string literal.
#[derive(Clone, Copy, Debug, PartialEq, Eq, Structural)]
pub enum RejectionReason {
    /// The server asks to try again later (rate limiting).
    TryAgainLater,
    /// The server says the typed text does not match the CAPTCHA image.
    CaptchaMismatch,
    /// Any other alert text: retried all the same, but worth logging.
    Unexpected,
}

/// The rejection cause that a given alert text names.
pub open spec fn spec_classify(t: Seq<char>) -> RejectionReason {
    if t == "請稍後再試!"@ {
        RejectionReason::TryAgainLater
    } else if t == "所填寫的驗證碼與所給的不符"@ {
        RejectionReason::CaptchaMismatch
    } else {
        RejectionReason::Unexpected
    }
}

/// Classifies the text of a confirmation alert.
pub fn classify_alert(t: &str) -> (r: RejectionReason)
    ensures
        r == spec_classify(t@),
{
    if str_eq(t, "請稍後再試!") {
        RejectionReason::TryAgainLater
    } else if str_eq(t, "所填寫的驗證碼與所給的不符") {
        RejectionReason::CaptchaMismatch
    } else {
        RejectionReason::Unexpected
    }
}

/// Whether an alert with this cause is dismissed explicitly before the next
/// round (the known server rejections are; an unexpected alert is left to
/// the following reload).
pub open spec fn spec_dismisses(r: RejectionReason) -> bool {
    r != RejectionReason::Unexpected
}

pub fn should_dismiss(r: RejectionReason) -> (b: bool)
    ensures
        b == spec_dismisses(r),
{
    match r {
        RejectionReason::Unexpected => false,
        _ => true,
    }
}

/// The one-shot cooldown shared by a session: a server-imposed minimum wait
/// before the identity form may be confirmed.  It is awaited at most once;
/// later retries within the same session no longer wait on it.
#[derive(Clone, Copy, Debug, PartialEq, Eq, Structural)]
pub enum Cooldown {
    /// Not yet awaited: confirmation must wait until `deadline`.
    Pending { deadline: u64 },
    /// Already awaited once, or never imposed: no further waiting.
    Consumed,
}

impl Cooldown {
    /// The extra wait still owed by a consumer awaiting at time `now`.
    pub open spec fn spec_wait(self, now: u64) -> u64 {
        match self {
            Cooldown::Pending { deadline } => if now >= deadline {
                0u64
            } else {
                (deadline - now) as u64
            },
            Cooldown::Consumed => 0u64,
        }
    }

    /// Whether the strict CAPTCHA acceptance policy is still warranted at
    /// time `now`: only while the cooldown is pending and its deadline has
    /// not passed does waiting for a cleaner reading buy anything.
    pub open spec fn spec_strict(self, now: u64) -> bool {
        match self {
            Cooldown::Pending { deadline } => now < deadline,
            Cooldown::Consumed => false,
        }
    }

    /// A pending cooldown ending at `deadline`.
    pub fn new(deadline: u64) -> (c: Self)
        ensures
            c == (Cooldown::Pending { deadline }),
    {
        Cooldown::Pending { deadline }
    }

    /// Consumes the cooldown: the first await returns the wait remaining at
    /// `now`, and every later await returns zero.
    pub fn take(&mut self, now: u64) -> (wait: u64)
        ensures
            *final(self) == Cooldown::Consumed,
            wait == old(self).spec_wait(now),
    {
        let wait = match *self {
            Cooldown::Pending { deadline } => if now >= deadline {
                0
            } else {
                deadline - now
            },
            Cooldown::Consumed => 0,
        };
        *self = Cooldown::Consumed;
        wait
    }

    /// The acceptance policy in force at time `now`.
    pub fn strict_policy(&self, now: u64) -> (r: bool)
        ensures
            r == self.spec_strict(now),
    {
        match self {
            Cooldown::Pending { deadline } => now < *deadline,
            Cooldown::Consumed => false,
        }
    }
}

/// The states of the confirmation protocol that follows the nine questions.
#[derive(Clone, Copy, Debug, PartialEq, Eq, Structural)]
pub enum ConfirmState {
    /// The CAPTCHA solver is running under the given acceptance policy.
    Solving { strict: bool },
    /// An answer is typed; the one-shot cooldown must be awaited next.
    AwaitingCooldown,
    /// Ready to click the confirmation control and observe the alert.
    Confirming,
    /// The server accepted the submission.
    Done,
}

/// The observations the protocol advances on.
pub enum ConfirmEvent {
    /// The solver typed an accepted CAPTCHA answer.
    Solved,
    /// The cooldown wait (possibly zero) elapsed.
    Waited,
    /// The confirmation control was clicked; the alert seen, if any.
    Alerted(Option<String>),
}

/// Which event each state awaits.
pub open spec fn confirm_compatible(s: ConfirmState, e: ConfirmEvent) -> bool {
    match (s, e) {
        (ConfirmState::Solving { .. }, ConfirmEvent::Solved) => true,
        (ConfirmState::AwaitingCooldown, ConfirmEvent::Waited) => true,
        (ConfirmState::Confirming, ConfirmEvent::Alerted(_)) => true,
        _ => false,
    }
}

/// The protocol's transition relation: solve, await the cooldown once,
/// confirm; no alert means done, any alert means another solve under the
/// relaxed policy.
pub open spec fn spec_confirm_next(s: ConfirmState, e: ConfirmEvent) -> ConfirmState {
    match (s, e) {
        (ConfirmState::Solving { .. }, ConfirmEvent::Solved) => ConfirmState::AwaitingCooldown,
        (ConfirmState::AwaitingCooldown, ConfirmEvent::Waited) => ConfirmState::Confirming,
        (ConfirmState::Confirming, ConfirmEvent::Alerted(alert)) => match alert {
            None => ConfirmState::Done,
            Some(_) => ConfirmState::Solving { strict: false },
        },
        (s0, _) => s0,
    }
}

/// The rejection cause an event carries, if any.
pub open spec fn spec_alert_reason(e: ConfirmEvent) -> Option<RejectionReason> {
    match e {
        ConfirmEvent::Alerted(Some(t)) => Some(spec_classify(t@)),
        _ => None,
    }
}

/// Advances the confirmation protocol by one observed event.  The second
/// component classifies the alert when the event carried one, for the
/// caller to dismiss and log.
pub fn confirm_step(s: ConfirmState, e: &ConfirmEvent) -> (r: (
    ConfirmState,
    Option<RejectionReason>,
))
    requires
        confirm_compatible(s, *e),
    ensures
        r.0 == spec_confirm_next(s, *e),
        r.1 == spec_alert_reason(*e),
{
    match (s, e) {
        (ConfirmState::Solving { .. }, ConfirmEvent::Solved) => (
            ConfirmState::AwaitingCooldown,
            None,
        ),
        (ConfirmState::AwaitingCooldown, ConfirmEvent::Waited) => (ConfirmState::Confirming, None),
        (ConfirmState::Confirming, ConfirmEvent::Alerted(alert)) => match alert {
            None => (ConfirmState::Done, None),
            Some(t) => (
                ConfirmState::Solving { strict: false },
                Some(classify_alert(t.as_str())),
            ),
        },
        _ => vstd::pervasive::unreached(),
    }
}

/// The first scripted confirmation round that sees no alert.
pub open spec fn first_none(alerts: Seq<Option<String>>) -> Option<int>
    decreases alerts.len(),
{
    if alerts.len() == 0 {
        None
    } else if alerts.first() is None {
        Some(0)
    } else {
        match first_none(alerts.drop_first()) {
            Some(k) => Some(k + 1),
            None => None,
        }
    }
}

/// What `first_none` returns: the first alert-free index, or nothing when
/// every round saw an alert.
pub proof fn lemma_first_none(alerts: Seq<Option<String>>)
    ensures
        match first_none(alerts) {
            Some(k) => {
                &&& 0 <= k < alerts.len()
                &&& alerts[k] is None
                &&& forall|j: int| 0 <= j < k ==> alerts[j] is Some
            },
            None => forall|j: int| 0 <= j < alerts.len() ==> alerts[j] is Some,
        },
    decreases alerts.len(),
{
    if alerts.len() > 0 && alerts.first() is Some {
        lemma_first_none(alerts.drop_first());
        assert(forall|j: int| 1 <= j < alerts.len() ==> alerts[j] == alerts.drop_first()[j - 1]);
    }
}

/// The confirm/re-solve loop of the identity protocol, run over a
/// deterministic script of alert outcomes: `alerts[k]` is the alert seen
/// after the `k`-th confirmation click, nothing meaning the server accepted.
/// Every rejected round costs one more CAPTCHA solve before the next click.
/// Returns the number of confirmation clicks made together with the
/// classified rejection of each failed round, or nothing when the script
/// runs out before a success.
pub fn run_confirm_loop(alerts: &Vec<Option<String>>) -> (r: Option<(usize, Vec<RejectionReason>)>)
    ensures
        match r {
            Some(res) => {
                &&& first_none(alerts@) == Some(res.0 - 1)
                &&& res.1@.len() == res.0 - 1
                &&& forall|j: int|
                    0 <= j < res.1@.len() ==> res.1@[j] == spec_classify(alerts@[j]->0@)
            },
            None => first_none(alerts@) is None,
        },
{
    let n = alerts.len();
    let mut reasons: Vec<RejectionReason> = Vec::new();
    let mut k: usize = 0;
    while k < n
        invariant
            n == alerts@.len(),
            k <= n,
            reasons@.len() == k,
            forall|j: int| 0 <= j < k ==> alerts@[j] is Some,
            forall|j: int| 0 <= j < k ==> reasons@[j] == spec_classify(alerts@[j]->0@),
        decreases n - k,
    {
        match &alerts[k] {
            None => {
                proof {
                    lemma_first_none(alerts@);
                }
                return Some((k + 1, reasons));
            },
            Some(t) => {
                reasons.push(classify_alert(t.as_str()));
            },
        }
        k += 1;
    }
    proof {
        lemma_first_none(alerts@);
    }
    None
}

} // verus!
