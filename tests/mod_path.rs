use std::collections::HashMap;

use lovely_mod_path::patch::{
    append, build_chunk_name, holds_nul, slice_to_vec, ModPathApply, ModPathPatch,
    MOD_PATH_TEMPLATE,
};
use lovely_mod_path::session::{
    Failure, Field, LuaCall, Outcome, Phase, Progress, Reply, Step, GLOBALS_INDEX,
};
use lovely_mod_path::template::{matches_at, render_template, sentinel_bytes};

#[derive(Clone, Debug, PartialEq)]
enum Val {
    Nil,
    Package,
    Preload,
    Chunk(Vec<u8>),
    Evaluated(Vec<u8>),
    Loader(Vec<u8>),
    Error,
    Other,
}

/// A stand-in for a Lua state: a stack, `package.preload`, and the status
/// codes that the loader and the protected call return.
struct FakeLua {
    stack: Vec<Val>,
    preload: HashMap<Vec<u8>, Val>,
    load_status: i32,
    call_status: i32,
    calls: Vec<LuaCall>,
    chunk_names: Vec<Vec<u8>>,
}

impl FakeLua {
    fn new() -> FakeLua {
        FakeLua {
            stack: Vec::new(),
            preload: HashMap::new(),
            load_status: 0,
            call_status: 0,
            calls: Vec::new(),
            chunk_names: Vec::new(),
        }
    }

    fn slot(&self, index: i32) -> Val {
        let len = self.stack.len() as i32;
        if index >= 1 && index <= len {
            self.stack[(index - 1) as usize].clone()
        } else if index < 0 && index > GLOBALS_INDEX && -index <= len {
            self.stack[(len + index) as usize].clone()
        } else {
            Val::Nil
        }
    }

    fn perform(&mut self, call: LuaCall, s: &ModPathApply) -> Reply {
        self.calls.push(call);
        match call {
            LuaCall::GetTop => Reply::Top(self.stack.len() as i32),
            LuaCall::GetField { index, field } => {
                let v = if index == GLOBALS_INDEX && field == Field::Package {
                    Val::Package
                } else if field == Field::Preload && self.slot(index) == Val::Package {
                    Val::Preload
                } else {
                    Val::Nil
                };
                self.stack.push(v);
                Reply::Unit
            }
            LuaCall::LoadBuffer => {
                self.chunk_names.push(s.chunk_name.clone());
                if self.load_status == 0 {
                    self.stack.push(Val::Chunk(s.code.clone()));
                } else {
                    self.stack.push(Val::Error);
                }
                Reply::Status(self.load_status)
            }
            LuaCall::PCall { nargs, nresults, .. } => {
                let f = self.stack.len() - nargs as usize - 1;
                let func = self.stack[f].clone();
                self.stack.truncate(f);
                if self.call_status == 0 {
                    for i in 0..nresults {
                        self.stack.push(match (&func, i) {
                            (Val::Chunk(code), 0) => Val::Evaluated(code.clone()),
                            (_, 0) => Val::Other,
                            _ => Val::Nil,
                        });
                    }
                } else {
                    self.stack.push(Val::Error);
                }
                Reply::Status(self.call_status)
            }
            LuaCall::PushIdentityClosure { upvalues } => {
                let first = self.stack.len() - upvalues as usize;
                let v = match &self.stack[first] {
                    Val::Evaluated(code) => Val::Loader(code.clone()),
                    _ => Val::Other,
                };
                self.stack.truncate(first);
                self.stack.push(v);
                Reply::Unit
            }
            LuaCall::SetField { index, field } => {
                let top = self.stack.pop().unwrap();
                if self.slot(index) == Val::Preload && field == Field::Module {
                    self.preload.insert(s.module.clone(), top);
                }
                Reply::Unit
            }
            LuaCall::SetTop { height } => {
                let h = height as usize;
                self.stack.resize(h, Val::Nil);
                Reply::Unit
            }
        }
    }

    /// Runs a session to its end and returns its outcome.
    fn drive(&mut self, started: (ModPathApply, Step)) -> Outcome {
        let (mut s, mut step) = started;
        loop {
            match step {
                Step::Finish(o) => return o,
                Step::Call(call) => {
                    let reply = self.perform(call, &s);
                    step = s.resume(reply);
                }
            }
        }
    }
}

fn acme(path: &str) -> ModPathPatch {
    ModPathPatch {
        before: "main.lua".to_string(),
        name: "lovely.mod.acme".to_string(),
        path: path.to_string(),
    }
}

const TABLE_TEMPLATE: &str = "return { path = \"lovely_template:mod_path\" }";

#[test]
fn happy_path_installs_module() {
    let mut lua = FakeLua::new();
    let patch = acme("/mods/acme");
    let outcome = lua.drive(patch.begin_with_template("main.lua", TABLE_TEMPLATE));
    assert_eq!(outcome, Outcome::Installed);
    assert!(outcome.installed());
    assert!(lua.stack.is_empty());
    assert_eq!(
        lua.preload.get(b"lovely.mod.acme".as_slice()),
        Some(&Val::Loader(b"return { path = \"/mods/acme\" }".to_vec()))
    );
    assert_eq!(
        lua.calls,
        vec![
            LuaCall::GetTop,
            LuaCall::GetField { index: GLOBALS_INDEX, field: Field::Package },
            LuaCall::GetField { index: -1, field: Field::Preload },
            LuaCall::GetTop,
            LuaCall::LoadBuffer,
            LuaCall::PCall { nargs: 0, nresults: 1, errfunc: 0 },
            LuaCall::PushIdentityClosure { upvalues: 1 },
            LuaCall::SetField { index: 2, field: Field::Module },
            LuaCall::SetTop { height: 0 },
        ]
    );
}

#[test]
fn gate_miss_does_nothing() {
    let mut lua = FakeLua::new();
    let patch = acme("/mods/acme");
    let (s, step) = patch.begin_with_template("other.lua", TABLE_TEMPLATE);
    assert_eq!(step, Step::Finish(Outcome::Skipped));
    assert!(s.code.is_empty());
    let outcome = lua.drive((s, step));
    assert_eq!(outcome, Outcome::Skipped);
    assert!(!outcome.installed());
    assert!(lua.calls.is_empty());
    assert!(lua.preload.get(b"lovely.mod.acme".as_slice()).is_none());
}

#[test]
fn compile_failure_restores_stack() {
    let mut lua = FakeLua::new();
    lua.stack = vec![Val::Other, Val::Other, Val::Other];
    lua.load_status = 3;
    let patch = acme("/mods/acme");
    let outcome = lua.drive(patch.begin_with_template("main.lua", "return ("));
    assert_eq!(outcome, Outcome::Failed(Failure::Compile(3)));
    assert_eq!(lua.stack, vec![Val::Other, Val::Other, Val::Other]);
    assert!(lua.preload.is_empty());
    assert_eq!(lua.calls.last(), Some(&LuaCall::SetTop { height: 3 }));
}

#[test]
fn execution_failure_restores_stack() {
    let mut lua = FakeLua::new();
    lua.stack = vec![Val::Other];
    lua.call_status = 2;
    let patch = acme("/mods/acme");
    let outcome = lua.drive(patch.begin_with_template("main.lua", "error(\"boom\")"));
    assert_eq!(outcome, Outcome::Failed(Failure::Execute(2)));
    assert_eq!(lua.stack, vec![Val::Other]);
    assert!(lua.preload.is_empty());
}

#[test]
fn second_patch_overwrites_first() {
    let mut lua = FakeLua::new();
    let first = acme("/mods/first");
    let second = acme("/mods/second");
    assert_eq!(lua.drive(first.begin_with_template("main.lua", TABLE_TEMPLATE)), Outcome::Installed);
    assert_eq!(lua.drive(second.begin_with_template("main.lua", TABLE_TEMPLATE)), Outcome::Installed);
    assert_eq!(
        lua.preload.get(b"lovely.mod.acme".as_slice()),
        Some(&Val::Loader(b"return { path = \"/mods/second\" }".to_vec()))
    );
    assert_eq!(lua.preload.len(), 1);
}

#[test]
fn path_with_special_characters_is_kept() {
    let mut lua = FakeLua::new();
    let patch = acme("/mods/with space/quote\"here");
    let (s, step) = patch.begin_with_template("main.lua", "return \"lovely_template:mod_path\"");
    assert_eq!(s.code, b"return \"/mods/with space/quote\"here\"".to_vec());
    assert_eq!(lua.drive((s, step)), Outcome::Installed);
    let (s, _) = patch.begin("main.lua");
    assert_eq!(
        s.code,
        b"return { path = [==[/mods/with space/quote\"here]==] }\n".to_vec()
    );
}

#[test]
fn embedded_template_renders_path() {
    let patch = acme("/mods/acme");
    let (s, step) = patch.begin("main.lua");
    assert_eq!(step, Step::Call(LuaCall::GetTop));
    assert_eq!(s.code, b"return { path = [==[/mods/acme]==] }\n".to_vec());
    assert!(MOD_PATH_TEMPLATE.contains("lovely_template:mod_path"));
}

#[test]
fn stack_balance_at_every_outcome() {
    for (load, call) in [(0, 0), (1, 0), (0, 2), (4, 4)] {
        let mut lua = FakeLua::new();
        lua.stack = vec![Val::Other, Val::Nil, Val::Other, Val::Other, Val::Nil];
        lua.load_status = load;
        lua.call_status = call;
        let before = lua.stack.clone();
        lua.drive(acme("/mods/acme").begin("main.lua"));
        assert_eq!(lua.stack, before);
    }
}

#[test]
fn reapplying_is_idempotent() {
    let mut lua = FakeLua::new();
    lua.stack = vec![Val::Other];
    let patch = acme("/mods/acme");
    assert_eq!(lua.drive(patch.begin("main.lua")), Outcome::Installed);
    let once = (lua.stack.clone(), lua.preload.clone());
    assert_eq!(lua.drive(patch.begin("main.lua")), Outcome::Installed);
    assert_eq!((lua.stack.clone(), lua.preload.clone()), once);
}

#[test]
fn chunk_name_format() {
    let mut lua = FakeLua::new();
    let patch = acme("/mods/acme");
    lua.drive(patch.begin("main.lua"));
    assert_eq!(lua.chunk_names, vec![b"=[lovely lovely.mod.acme \"lovely.mod.acme\"]".to_vec()]);
    assert!(lua.chunk_names[0].starts_with(b"=[lovely "));
    assert_eq!(build_chunk_name(b""), b"=[lovely  \"\"]".to_vec());
}

#[test]
fn nul_in_name_is_a_marshal_failure() {
    let mut lua = FakeLua::new();
    let patch = ModPathPatch {
        before: "main.lua".to_string(),
        name: "bad\0name".to_string(),
        path: "/mods/acme".to_string(),
    };
    let started = patch.begin("main.lua");
    assert_eq!(started.1, Step::Finish(Outcome::Failed(Failure::Marshal)));
    assert_eq!(lua.drive(started), Outcome::Failed(Failure::Marshal));
    assert!(lua.calls.is_empty());
}

#[test]
fn nul_in_path_is_a_marshal_failure() {
    let patch = acme("/mods/\0acme");
    let (_, step) = patch.begin("main.lua");
    assert_eq!(step, Step::Finish(Outcome::Failed(Failure::Marshal)));
    let (_, step) = patch.begin("other.lua");
    assert_eq!(step, Step::Finish(Outcome::Skipped));
}

#[test]
fn finished_session_stays_finished() {
    let mut progress = Progress { phase: Phase::Restore, top: 0, preload: 0, outcome: Outcome::Installed };
    assert_eq!(progress.resume(Reply::Unit), Step::Finish(Outcome::Installed));
    assert_eq!(progress.phase, Phase::Done);
    assert_eq!(progress.resume(Reply::Top(7)), Step::Finish(Outcome::Installed));
}

#[test]
fn render_replaces_every_sentinel() {
    let t = b"a lovely_template:mod_path b lovely_template:mod_path";
    assert_eq!(render_template(t, b"/x"), b"a /x b /x".to_vec());
    assert_eq!(
        render_template(b"lovely_template:mod_pathlovely_template:mod_path", b"P"),
        b"PP".to_vec()
    );
}

#[test]
fn render_without_sentinel_is_unchanged() {
    assert_eq!(render_template(b"return 1", b"/x"), b"return 1".to_vec());
    assert_eq!(render_template(b"", b"/x"), Vec::<u8>::new());
    assert_eq!(
        render_template(b"lovely_template:mod_pat", b"/x"),
        b"lovely_template:mod_pat".to_vec()
    );
    assert_eq!(render_template(b"lovely_template:mod_path", b""), Vec::<u8>::new());
}

#[test]
fn render_after_partial_match() {
    assert_eq!(
        render_template(b"lovely_lovely_template:mod_path!", b"Q"),
        b"lovely_Q!".to_vec()
    );
}

#[test]
fn byte_helpers() {
    assert_eq!(sentinel_bytes(), b"lovely_template:mod_path".to_vec());
    assert!(matches_at(b"xxabc", 2, b"abc"));
    assert!(!matches_at(b"xxabc", 3, b"abc"));
    assert!(!matches_at(b"xx", 5, b""));
    assert!(holds_nul(b"a\0b"));
    assert!(!holds_nul(b"ab"));
    assert_eq!(slice_to_vec(b"abc"), b"abc".to_vec());
    let mut v = b"ab".to_vec();
    append(&mut v, b"cd");
    assert_eq!(v, b"abcd".to_vec());
}
