//! Stopping a run.
//!
//! A token is made for each run. Whoever stops the run first leaves the reason.
use vstd::prelude::*;

verus! {

/// Why a run was stopped.
#[derive(Debug, Clone, Copy, PartialEq, Eq, Structural)]
pub enum StopReason {
    /// The user pressed the right mouse button or the stop button.
    UserAbort,
    /// The game window disappeared.
    GameLost,
    /// An error that the run cannot recover from.
    Error,
}

impl StopReason {
    /// The code of a reason.
    pub open spec fn code(self) -> u8 {
        match self {
            StopReason::UserAbort => 1,
            StopReason::GameLost => 2,
            StopReason::Error => 3,
        }
    }

    /// The code of a reason.
    pub fn to_u8(self) -> (v: u8)
        ensures
            v == self.code(),
    {
        match self {
            StopReason::UserAbort => 1,
            StopReason::GameLost => 2,
            StopReason::Error => 3,
        }
    }

    /// The reason of a code.
    pub fn from_u8(v: u8) -> (reason: Option<StopReason>)
        ensures
            match reason {
                Some(r) => r.code() == v,
                None => v == 0 || v > 3,
            },
    {
        match v {
            1 => Some(StopReason::UserAbort),
            2 => Some(StopReason::GameLost),
            3 => Some(StopReason::Error),
            _ => None,
        }
    }

    /// The reason in words, in Chinese and English.
    pub open spec fn words(self) -> Seq<char> {
        match self {
            StopReason::UserAbort => "用户中断 / User aborted"@,
            StopReason::GameLost => "游戏窗口丢失 / Game window lost"@,
            StopReason::Error => "执行错误 / Execution error"@,
        }
    }

    /// The reason in words, in Chinese and English.
    pub fn message(self) -> (text: &'static str)
        ensures
            text@ == self.words(),
    {
        match self {
            StopReason::UserAbort => "用户中断 / User aborted",
            StopReason::GameLost => "游戏窗口丢失 / Game window lost",
            StopReason::Error => "执行错误 / Execution error",
        }
    }
}

/// Whether, and why, a run is to stop. All that take part in the run share one
/// token, which cannot be copied.
#[derive(Debug)]
pub struct CancelToken {
    /// The code of the reason, 0 while there is none.
    state: u8,
}

impl View for CancelToken {
    type V = Option<StopReason>;

    closed spec fn view(&self) -> Option<StopReason> {
        match self.state {
            1 => Some(StopReason::UserAbort),
            2 => Some(StopReason::GameLost),
            3 => Some(StopReason::Error),
            _ => None,
        }
    }
}

impl CancelToken {
    #[verifier::type_invariant]
    spec fn well_formed(self) -> bool {
        self.state <= 3
    }

    /// A token of a run that goes on.
    pub fn new() -> (token: Self)
        ensures
            token@ is None,
    {
        CancelToken { state: 0 }
    }

    /// Whether the run is to stop.
    pub fn is_cancelled(&self) -> (yes: bool)
        ensures
            yes == (self@ is Some),
    {
        proof {
            use_type_invariant(self);
        }
        self.state != 0
    }

    /// Why the run is to stop.
    pub fn reason(&self) -> (reason: Option<StopReason>)
        ensures
            reason == self@,
    {
        proof {
            use_type_invariant(self);
        }
        StopReason::from_u8(self.state)
    }

    /// Stops the run. The first reason stays.
    pub fn cancel(&mut self, reason: StopReason)
        ensures
            final(self)@ == after_reason(old(self)@, reason),
    {
        proof {
            use_type_invariant(&*self);
        }
        if self.state == 0 {
            self.state = reason.to_u8();
        }
    }

    /// Stops the run where the right mouse button was pressed. Tells whether
    /// the run is to stop.
    pub fn check_rmb(&mut self, pressed: bool) -> (stop: bool)
        ensures
            final(self)@ == after_button(old(self)@, pressed),
            stop == (final(self)@ is Some),
    {
        if self.is_cancelled() {
            return true;
        }
        if pressed {
            self.cancel(StopReason::UserAbort);
            true
        } else {
            false
        }
    }
}

impl Default for CancelToken {
    fn default() -> (token: Self)
        ensures
            token@ is None,
    {
        CancelToken::new()
    }
}

/// Every reason has a code of its own, and none is 0.
pub proof fn codes_tell_reasons_apart(a: StopReason, b: StopReason)
    ensures
        a.code() == b.code() <==> a == b,
        a.code() != 0,
{
}

/// Why a run stops after a look at the right mouse button.
pub open spec fn after_button(before: Option<StopReason>, pressed: bool) -> Option<StopReason> {
    match before {
        Some(first) => Some(first),
        None => if pressed {
            Some(StopReason::UserAbort)
        } else {
            None
        },
    }
}

/// Why a run stops after a reason was given.
pub open spec fn after_reason(
    before: Option<StopReason>,
    reason: StopReason,
) -> Option<StopReason> {
    match before {
        Some(first) => Some(first),
        None => Some(reason),
    }
}

/// The button stops a run for its user, and any reason stops it, but one that was
/// given before stays.
pub proof fn the_first_reason_stays(reason: StopReason, later: StopReason, pressed: bool)
    ensures
        after_reason(None, reason) == Some(reason),
        after_reason(after_reason(None, reason), later) == Some(reason),
        after_button(Some(reason), pressed) == Some(reason),
        after_button(None, true) == Some(StopReason::UserAbort),
        after_button(None, false) is None,
{
}

/// Each reason has words of its own.
pub proof fn reasons_have_their_words(a: StopReason, b: StopReason)
    ensures
        StopReason::UserAbort.words() == "用户中断 / User aborted"@,
        StopReason::GameLost.words() == "游戏窗口丢失 / Game window lost"@,
        StopReason::Error.words() == "执行错误 / Execution error"@,
        a.words() == b.words() ==> a == b,
{
    reveal_strlit("用户中断 / User aborted");
    reveal_strlit("游戏窗口丢失 / Game window lost");
    reveal_strlit("执行错误 / Execution error");
    assert(StopReason::UserAbort.words()[0] == '用');
    assert(StopReason::GameLost.words()[0] == '游');
    assert(StopReason::Error.words()[0] == '执');
}

} // verus!
