use vstd::prelude::*;

use crate::patch::{ModPathApply, ModPathPatch, chunk_name};
use crate::session::{Field, LuaCall, Outcome, Progress, Reply, Step, GLOBALS_INDEX, Failure};

verus! {

/// A value on a modelled Lua stack or in `package.preload`.
pub enum LuaValue {
    Nil,
    /// The `package` table.
    Package,
    /// The `package.preload` table.
    Preload,
    /// The function that compiling some code gave.
    Chunk(Seq<u8>),
    /// The value that running some code returned.
    Evaluated(Seq<u8>),
    /// An identity closure whose upvalue is the value that running some code returned.
    Loader(Seq<u8>),
    /// An error object.
    Error,
    /// Any other value.
    Other,
}

/// A Lua 5.1 state, as far as a session touches it: the stack, the entries of
/// `package.preload`, and the status codes that the host's loader and
/// protected call return.
pub struct LuaModel {
    pub stack: Seq<LuaValue>,
    pub preload: Map<Seq<u8>, LuaValue>,
    pub load_status: i32,
    pub call_status: i32,
}

/// The value at a stack index: from the bottom when positive, from the top when negative.
pub open spec fn slot(m: LuaModel, index: int) -> LuaValue {
    if 1 <= index <= m.stack.len() {
        m.stack[index - 1]
    } else if GLOBALS_INDEX < index < 0 && -index <= m.stack.len() {
        m.stack[m.stack.len() + index]
    } else {
        LuaValue::Nil
    }
}

/// The value that calling a function returns.
pub open spec fn called(f: LuaValue) -> LuaValue {
    match f {
        LuaValue::Chunk(code) => LuaValue::Evaluated(code),
        _ => LuaValue::Other,
    }
}

/// The identity closure over an upvalue.
pub open spec fn closure_over(v: LuaValue) -> LuaValue {
    match v {
        LuaValue::Evaluated(code) => LuaValue::Loader(code),
        _ => LuaValue::Other,
    }
}

/// The stack cut back or padded with nil to `height`; a negative height counts from the top.
pub open spec fn set_top(stack: Seq<LuaValue>, height: int) -> Seq<LuaValue> {
    let h = if height >= 0 { height } else { stack.len() + height + 1 };
    if h <= stack.len() {
        stack.take(h)
    } else {
        stack + Seq::new((h - stack.len()) as nat, |i: int| LuaValue::Nil)
    }
}

/// The state after the host performs `call` for session `s`, and its reply.
pub open spec fn perform(m: LuaModel, call: LuaCall, s: ModPathApply) -> (LuaModel, Reply) {
    let len = m.stack.len() as int;
    match call {
        LuaCall::GetTop => (m, Reply::Top(len as i32)),
        LuaCall::GetField { index, field } => {
            let v = if index == GLOBALS_INDEX && field == Field::Package {
                LuaValue::Package
            } else if field == Field::Preload && slot(m, index as int) == LuaValue::Package {
                LuaValue::Preload
            } else {
                LuaValue::Nil
            };
            (LuaModel { stack: m.stack.push(v), ..m }, Reply::Unit)
        },
        LuaCall::LoadBuffer => {
            let v = if m.load_status == 0 { LuaValue::Chunk(s.code@) } else { LuaValue::Error };
            (LuaModel { stack: m.stack.push(v), ..m }, Reply::Status(m.load_status))
        },
        LuaCall::PCall { nargs, nresults, errfunc } => {
            let f = len - nargs - 1;
            let base = m.stack.take(f);
            let results = if m.call_status == 0 {
                Seq::new(
                    nresults as nat,
                    |i: int| if i == 0 { called(m.stack[f]) } else { LuaValue::Nil },
                )
            } else {
                seq![LuaValue::Error]
            };
            (LuaModel { stack: base + results, ..m }, Reply::Status(m.call_status))
        },
        LuaCall::PushIdentityClosure { upvalues } => {
            let first = len - upvalues;
            let v = closure_over(m.stack[first]);
            (LuaModel { stack: m.stack.take(first).push(v), ..m }, Reply::Unit)
        },
        LuaCall::SetField { index, field } => {
            let preload = if slot(m, index as int) == LuaValue::Preload && field == Field::Module {
                m.preload.insert(s.module@, m.stack.last())
            } else {
                m.preload
            };
            (LuaModel { stack: m.stack.drop_last(), preload, ..m }, Reply::Unit)
        },
        LuaCall::SetTop { height } => (
            LuaModel { stack: set_top(m.stack, height as int), ..m },
            Reply::Unit,
        ),
    }
}

/// Runs session `s`, whose state is `p` and whose pending step is `step`,
/// against `m` for at most `fuel` calls; the final state, and the outcome if
/// the session finished.
pub open spec fn run(p: Progress, step: Step, s: ModPathApply, m: LuaModel, fuel: nat) -> (
    LuaModel,
    Option<Outcome>,
)
    decreases fuel,
{
    match step {
        Step::Finish(o) => (m, Some(o)),
        Step::Call(call) => {
            if fuel == 0 {
                (m, None)
            } else {
                let (m2, reply) = perform(m, call, s);
                let (p2, next) = p.advance(reply);
                run(p2, next, s, m2, (fuel - 1) as nat)
            }
        },
    }
}

/// The state after a session runs against `m` for at most ten calls, and its
/// outcome if it finished.
pub open spec fn apply_on(s: ModPathApply, step: Step, m: LuaModel) -> (LuaModel, Option<Outcome>) {
    run(s.progress, step, s, m, 10)
}

/// A session started by `begin_with_template` finishes within ten calls on any
/// Lua state whose heights fit an `i32`. It leaves the stack exactly as it
/// found it, whatever the loader and the protected call return. When the file
/// is not the patch's target, and when a name or the code holds a NUL, it makes
/// no call at all. When it fires, it installs the closure over the rendered
/// code's value under the module name if both the load and the call succeed,
/// and otherwise reports which of them failed, with its status code, and leaves
/// `package.preload` as it was.
pub proof fn lemma_apply_outcome(
    patch: ModPathPatch,
    file_name: Seq<char>,
    template: Seq<u8>,
    s: ModPathApply,
    step: Step,
    m: LuaModel,
)
    requires
        patch.started(file_name, template, s, step),
        m.stack.len() + 2 <= i32::MAX,
    ensures
        ({
            let (m2, o) = apply_on(s, step, m);
            &&& o is Some
            &&& m2.stack == m.stack
            &&& m2.load_status == m.load_status
            &&& m2.call_status == m.call_status
            &&& (patch.before@ != file_name ==> m2 == m && o == Some(Outcome::Skipped))
            &&& (o == Some(Outcome::Skipped) ==> patch.before@ != file_name)
            &&& (o == Some(Outcome::Failed(Failure::Marshal)) ==> m2 == m)
            &&& (step == Step::Call(LuaCall::GetTop) ==> {
                if m.load_status != 0 {
                    &&& o == Some(Outcome::Failed(Failure::Compile(m.load_status)))
                    &&& m2.preload == m.preload
                } else if m.call_status != 0 {
                    &&& o == Some(Outcome::Failed(Failure::Execute(m.call_status)))
                    &&& m2.preload == m.preload
                } else {
                    &&& o == Some(Outcome::Installed)
                    &&& m2.preload == m.preload.insert(
                        patch.module_of(),
                        LuaValue::Loader(patch.code_of(template)),
                    )
                }
            })
        }),
{
    reveal_with_fuel(run, 11);
    let len = m.stack.len() as int;
    if step == Step::Call(LuaCall::GetTop) {
        let st = m.stack;
        assert(st.push(LuaValue::Package).push(LuaValue::Preload).take(len) =~= st);
        assert(st.push(LuaValue::Package).push(LuaValue::Preload).push(LuaValue::Error).take(len) =~= st);
        let base = st.push(LuaValue::Package).push(LuaValue::Preload);
        let chunk = LuaValue::Chunk(s.code@);
        assert((base.push(chunk).take(len + 2) + seq![LuaValue::Error]).take(len) =~= st);
        let ran = base.push(chunk).take(len + 2) + Seq::new(1, |i: int| if i == 0 { called(chunk) } else { LuaValue::Nil });
        assert(ran.take(len + 2).push(LuaValue::Loader(s.code@)).drop_last().take(len) =~= st);
    }
}

/// Applying a patch a second time, when both applications install the module,
/// leaves the Lua state exactly as the first application left it: the same
/// stack and the same closure under the module name.
pub proof fn lemma_reapply_idempotent(
    patch: ModPathPatch,
    file_name: Seq<char>,
    template: Seq<u8>,
    first: ModPathApply,
    first_step: Step,
    second: ModPathApply,
    second_step: Step,
    m: LuaModel,
)
    requires
        patch.started(file_name, template, first, first_step),
        patch.started(file_name, template, second, second_step),
        m.stack.len() + 2 <= i32::MAX,
        apply_on(first, first_step, m).1 == Some(Outcome::Installed),
        apply_on(second, second_step, apply_on(first, first_step, m).0).1 == Some(Outcome::Installed),
    ensures
        apply_on(second, second_step, apply_on(first, first_step, m).0).0 == apply_on(
            first,
            first_step,
            m,
        ).0,
        apply_on(first, first_step, m).0.preload[patch.module_of()] == LuaValue::Loader(
            patch.code_of(template),
        ),
{
    let m1 = apply_on(first, first_step, m).0;
    lemma_apply_outcome(patch, file_name, template, first, first_step, m);
    lemma_apply_outcome(patch, file_name, template, second, second_step, m1);
    let m2 = apply_on(second, second_step, m1).0;
    assert(m2.preload =~= m1.preload);
}

} // verus!
