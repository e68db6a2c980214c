use vstd::prelude::*;

verus! {

/// Lua 5.1's pseudo-index of the globals table.
pub const GLOBALS_INDEX: i32 = -10002;

/// A field name that the session reads or writes.
#[derive(Clone, Copy, PartialEq, Eq, Structural, Debug)]
pub enum Field {
    /// `package`
    Package,
    /// `preload`
    Preload,
    /// The module name of the patch.
    Module,
}

/// One primitive of Lua's stack API that the host is asked to perform.
#[derive(Clone, Copy, PartialEq, Eq, Structural, Debug)]
pub enum LuaCall {
    /// `lua_gettop`; answered with `Reply::Top`.
    GetTop,
    /// `lua_getfield(index, field)`; answered with `Reply::Unit`.
    GetField { index: i32, field: Field },
    /// `luaL_loadbufferx` on the session's code and chunk name, with no mode;
    /// answered with `Reply::Status`.
    LoadBuffer,
    /// `lua_pcall(nargs, nresults, errfunc)`; answered with `Reply::Status`.
    PCall { nargs: i32, nresults: i32, errfunc: i32 },
    /// `lua_pushcclosure(identity_closure, upvalues)`; answered with `Reply::Unit`.
    PushIdentityClosure { upvalues: i32 },
    /// `lua_setfield(index, field)`; answered with `Reply::Unit`.
    SetField { index: i32, field: Field },
    /// `lua_settop(height)`; answered with `Reply::Unit`.
    SetTop { height: i32 },
}

/// What the host hands back after performing a call.
#[derive(Clone, Copy, PartialEq, Eq, Structural, Debug)]
pub enum Reply {
    /// The stack height that `lua_gettop` returned.
    Top(i32),
    /// The status code that a load or a protected call returned.
    Status(i32),
    /// The call returns nothing.
    Unit,
}

/// Why a patch that fired did not install its module.
#[derive(Clone, Copy, PartialEq, Eq, Structural, Debug)]
pub enum Failure {
    /// The code, the chunk name or the module name holds a NUL byte.
    Marshal,
    /// The code did not compile; the loader's status code.
    Compile(i32),
    /// Running the chunk raised an error; `lua_pcall`'s status code.
    Execute(i32),
}

/// How a session ended.
#[derive(Clone, Copy, PartialEq, Eq, Structural, Debug)]
pub enum Outcome {
    /// The file being loaded is not the patch's target: nothing was done.
    Skipped,
    /// `package.preload[name]` now returns the chunk's value.
    Installed,
    /// The patch fired and failed; the stack was left as it was found.
    Failed(Failure),
}

impl Outcome {
    /// Whether the module was installed.
    pub fn installed(&self) -> (r: bool)
        ensures
            r == (*self == Outcome::Installed),
    {
        match self {
            Outcome::Installed => true,
            _ => false,
        }
    }
}

/// What the session asks for next.
#[derive(Clone, Copy, PartialEq, Eq, Structural, Debug)]
pub enum Step {
    /// Perform this call and hand its reply to `resume`.
    Call(LuaCall),
    /// The session is over.
    Finish(Outcome),
}

/// The reply that a session waits for.
#[derive(Clone, Copy, PartialEq, Eq, Structural, Debug)]
pub enum Phase {
    /// The stack height before anything is pushed.
    Snapshot,
    /// `package` was pushed.
    Package,
    /// `package.preload` was pushed.
    Preload,
    /// The stack height, which is the index of `package.preload`.
    Locate,
    /// The loader's status.
    Compile,
    /// The protected call's status.
    Execute,
    /// The closure was pushed.
    Wrap,
    /// The closure was stored in `package.preload`.
    Install,
    /// The stack was cut back to its first height.
    Restore,
    /// Nothing more is asked.
    Done,
}

/// Where a session stands: the phase, the two heights it read, and how it will end.
#[derive(Clone, Copy, PartialEq, Eq, Structural, Debug)]
pub struct Progress {
    pub phase: Phase,
    /// The stack height found at the start.
    pub top: i32,
    /// The absolute index of `package.preload`.
    pub preload: i32,
    /// How the session ends, once that is known.
    pub outcome: Outcome,
}

impl Progress {
    /// Whether `reply` is of the kind that the pending call returns.
    pub open spec fn accepts(self, reply: Reply) -> bool {
        match self.phase {
            Phase::Snapshot | Phase::Locate => reply is Top,
            Phase::Compile | Phase::Execute => reply is Status,
            Phase::Done => true,
            _ => reply is Unit,
        }
    }

    /// The state and the step that follow `reply`.
    pub open spec fn advance(self, reply: Reply) -> (Progress, Step) {
        match self.phase {
            Phase::Snapshot => {
                let top = if let Reply::Top(h) = reply { h } else { 0 };
                (
                    Progress { phase: Phase::Package, top, ..self },
                    Step::Call(LuaCall::GetField { index: GLOBALS_INDEX, field: Field::Package }),
                )
            },
            Phase::Package => (
                Progress { phase: Phase::Preload, ..self },
                Step::Call(LuaCall::GetField { index: -1i32, field: Field::Preload }),
            ),
            Phase::Preload => (Progress { phase: Phase::Locate, ..self }, Step::Call(LuaCall::GetTop)),
            Phase::Locate => {
                let preload = if let Reply::Top(h) = reply { h } else { 0 };
                (Progress { phase: Phase::Compile, preload, ..self }, Step::Call(LuaCall::LoadBuffer))
            },
            Phase::Compile => {
                let code = if let Reply::Status(c) = reply { c } else { 0 };
                if code != 0 {
                    (
                        Progress {
                            phase: Phase::Restore,
                            outcome: Outcome::Failed(Failure::Compile(code)),
                            ..self
                        },
                        Step::Call(LuaCall::SetTop { height: self.top }),
                    )
                } else {
                    (
                        Progress { phase: Phase::Execute, ..self },
                        Step::Call(LuaCall::PCall { nargs: 0, nresults: 1, errfunc: 0 }),
                    )
                }
            },
            Phase::Execute => {
                let code = if let Reply::Status(c) = reply { c } else { 0 };
                if code != 0 {
                    (
                        Progress {
                            phase: Phase::Restore,
                            outcome: Outcome::Failed(Failure::Execute(code)),
                            ..self
                        },
                        Step::Call(LuaCall::SetTop { height: self.top }),
                    )
                } else {
                    (
                        Progress { phase: Phase::Wrap, ..self },
                        Step::Call(LuaCall::PushIdentityClosure { upvalues: 1 }),
                    )
                }
            },
            Phase::Wrap => (
                Progress { phase: Phase::Install, ..self },
                Step::Call(LuaCall::SetField { index: self.preload, field: Field::Module }),
            ),
            Phase::Install => (
                Progress { phase: Phase::Restore, outcome: Outcome::Installed, ..self },
                Step::Call(LuaCall::SetTop { height: self.top }),
            ),
            Phase::Restore | Phase::Done => (
                Progress { phase: Phase::Done, ..self },
                Step::Finish(self.outcome),
            ),
        }
    }

    /// Takes the reply to the pending call and returns the next step.
    pub fn resume(&mut self, reply: Reply) -> (r: Step)
        requires
            old(self).accepts(reply),
        ensures
            (*final(self), r) == old(self).advance(reply),
    {
        match self.phase {
            Phase::Snapshot => {
                if let Reply::Top(h) = reply {
                    self.top = h;
                }
                self.phase = Phase::Package;
                Step::Call(LuaCall::GetField { index: GLOBALS_INDEX, field: Field::Package })
            },
            Phase::Package => {
                self.phase = Phase::Preload;
                Step::Call(LuaCall::GetField { index: -1, field: Field::Preload })
            },
            Phase::Preload => {
                self.phase = Phase::Locate;
                Step::Call(LuaCall::GetTop)
            },
            Phase::Locate => {
                if let Reply::Top(h) = reply {
                    self.preload = h;
                }
                self.phase = Phase::Compile;
                Step::Call(LuaCall::LoadBuffer)
            },
            Phase::Compile => {
                let code = if let Reply::Status(c) = reply { c } else { 0 };
                if code != 0 {
                    self.phase = Phase::Restore;
                    self.outcome = Outcome::Failed(Failure::Compile(code));
                    Step::Call(LuaCall::SetTop { height: self.top })
                } else {
                    self.phase = Phase::Execute;
                    Step::Call(LuaCall::PCall { nargs: 0, nresults: 1, errfunc: 0 })
                }
            },
            Phase::Execute => {
                let code = if let Reply::Status(c) = reply { c } else { 0 };
                if code != 0 {
                    self.phase = Phase::Restore;
                    self.outcome = Outcome::Failed(Failure::Execute(code));
                    Step::Call(LuaCall::SetTop { height: self.top })
                } else {
                    self.phase = Phase::Wrap;
                    Step::Call(LuaCall::PushIdentityClosure { upvalues: 1 })
                }
            },
            Phase::Wrap => {
                self.phase = Phase::Install;
                Step::Call(LuaCall::SetField { index: self.preload, field: Field::Module })
            },
            Phase::Install => {
                self.phase = Phase::Restore;
                self.outcome = Outcome::Installed;
                Step::Call(LuaCall::SetTop { height: self.top })
            },
            Phase::Restore | Phase::Done => {
                self.phase = Phase::Done;
                Step::Finish(self.outcome)
            },
        }
    }
}

} // verus!
