use vstd::prelude::*;
use vstd::utf8::{encode_utf8, is_ascii_chars, is_ascii_chars_encode_utf8};

use crate::session::{Failure, Outcome, Phase, Progress, Reply, Step, LuaCall};
use crate::template::{
    contains, lemma_render_leaves_no_sentinel, lemma_render_substitutes, lemma_split_plain_prefix,
    lemma_split_sentinel_first, join, render, render_template, sealed, sentinel, split,
};

verus! {

/// The Lua source installed for each mod, before the sentinel is replaced by
/// the mod's root directory. A level-2 long bracket holds the path, so quotes,
/// backslashes and spaces in it need no escaping.
pub const MOD_PATH_TEMPLATE: &'static str = "return { path = [==[lovely_template:mod_path]==] }\n";

/// The bytes of the embedded template before its sentinel: `return { path = [==[`.
pub open spec fn template_head() -> Seq<u8> {
    seq![114u8, 101, 116, 117, 114, 110, 32, 123, 32, 112, 97, 116, 104, 32, 61, 32, 91, 61, 61, 91]
}

/// The bytes of the embedded template after its sentinel: `]==] }` and a newline.
pub open spec fn template_tail() -> Seq<u8> {
    seq![93u8, 61, 61, 93, 32, 125, 10]
}

proof fn lemma_template_bytes()
    ensures
        encode_utf8(MOD_PATH_TEMPLATE@) == template_head() + sentinel() + template_tail(),
{
    reveal_strlit("return { path = [==[lovely_template:mod_path]==] }\n");
    let chars = MOD_PATH_TEMPLATE@;
    assert(chars.len() == 51);
    assert(is_ascii_chars(chars));
    is_ascii_chars_encode_utf8(chars);
    assert(encode_utf8(chars) =~= template_head() + sentinel() + template_tail());
}

/// The embedded template is its head and tail around one sentinel, and it is
/// sealed: `[` and `]` stand on either side of the sentinel.
pub proof fn lemma_embedded_template_sealed()
    ensures
        split(encode_utf8(MOD_PATH_TEMPLATE@)) == seq![template_head(), template_tail()],
        sealed(encode_utf8(MOD_PATH_TEMPLATE@)),
{
    lemma_template_bytes();
    let (h, s, t) = (template_head(), sentinel(), template_tail());
    lemma_split_plain_prefix(t, seq![]);
    assert(t + seq![] =~= t);
    assert(split(t) =~= seq![t]);
    lemma_split_sentinel_first(t);
    lemma_split_plain_prefix(h, s + t);
    assert(h + (s + t) =~= h + s + t);
    assert(split(h + s + t) =~= seq![h, t]);
    assert forall|k: int| 0 <= k < s.len() implies s[k] != 91u8 && s[k] != 93u8 by {}
}

/// The embedded template with `path` put in is `return { path = [==[`, the
/// path, and `]==] }`; when the path holds no sentinel, neither does the result.
pub proof fn lemma_embedded_render(path: Seq<u8>)
    requires
        !contains(path, sentinel()),
    ensures
        render(encode_utf8(MOD_PATH_TEMPLATE@), path) == template_head() + path + template_tail(),
        !contains(render(encode_utf8(MOD_PATH_TEMPLATE@), path), sentinel()),
{
    let t = encode_utf8(MOD_PATH_TEMPLATE@);
    lemma_embedded_template_sealed();
    lemma_render_substitutes(t, path);
    lemma_render_leaves_no_sentinel(t, path);
    let parts = split(t);
    assert(parts.skip(1) =~= seq![template_tail()]);
    assert(join(parts.skip(1), path) == template_tail());
    assert(join(parts, path) == template_head() + path + template_tail());
}

/// Whether a byte string holds a NUL byte.
pub open spec fn has_nul(s: Seq<u8>) -> bool {
    exists|i: int| 0 <= i < s.len() && s[i] == 0u8
}

/// The chunk name under which a module's code is loaded:
/// `=[lovely NAME "NAME"]`.
pub open spec fn chunk_name(name: Seq<u8>) -> Seq<u8> {
    seq![61u8, 91, 108, 111, 118, 101, 108, 121, 32] + name + seq![32u8, 34] + name + seq![
        34u8,
        93,
    ]
}

/// Every chunk name starts with `=`, which has Lua print it as it stands,
/// followed by `[lovely `.
pub proof fn lemma_chunk_name_prefix(name: Seq<u8>)
    ensures
        chunk_name(name)[0] == 61u8,
        chunk_name(name).take(9) == seq![61u8, 91, 108, 111, 118, 101, 108, 121, 32],
{
    assert(chunk_name(name).take(9) =~= seq![61u8, 91, 108, 111, 118, 101, 108, 121, 32]);
}

/// A mod-path patch: when the host is about to load `before`, a module named
/// `name` is installed in `package.preload`, whose value is the template's
/// chunk run with `path` put in place of the sentinel.
#[derive(Clone, Debug)]
pub struct ModPathPatch {
    pub before: String,
    pub name: String,
    /// The mod's root directory; set by the loader, not read from the patch file.
    pub path: String,
}

/// A session that installs one patch's module, one Lua call at a time.
#[derive(Clone, Debug)]
pub struct ModPathApply {
    /// The rendered Lua source.
    pub code: Vec<u8>,
    /// The chunk name handed to the loader.
    pub chunk_name: Vec<u8>,
    /// The module name, the key in `package.preload`.
    pub module: Vec<u8>,
    pub progress: Progress,
}

impl ModPathPatch {
    /// The code that a template renders to for this patch.
    pub open spec fn code_of(self, template: Seq<u8>) -> Seq<u8> {
        render(template, encode_utf8(self.path@))
    }

    /// The module name's bytes.
    pub open spec fn module_of(self) -> Seq<u8> {
        encode_utf8(self.name@)
    }

    /// What `begin_with_template` hands back, given the file being loaded and
    /// the template's bytes.
    pub open spec fn started(
        self,
        file_name: Seq<char>,
        template: Seq<u8>,
        s: ModPathApply,
        step: Step,
    ) -> bool {
        if self.before@ != file_name {
            &&& step == Step::Finish(Outcome::Skipped)
            &&& s.progress == Progress { phase: Phase::Done, top: 0, preload: 0, outcome: Outcome::Skipped }
        } else if has_nul(self.code_of(template)) || has_nul(self.module_of()) {
            &&& step == Step::Finish(Outcome::Failed(Failure::Marshal))
            &&& s.progress == Progress {
                phase: Phase::Done,
                top: 0,
                preload: 0,
                outcome: Outcome::Failed(Failure::Marshal),
            }
        } else {
            &&& step == Step::Call(LuaCall::GetTop)
            &&& s.progress == Progress { phase: Phase::Snapshot, top: 0, preload: 0, outcome: Outcome::Skipped }
            &&& s.code@ == self.code_of(template)
            &&& s.chunk_name@ == chunk_name(self.module_of())
            &&& s.module@ == self.module_of()
        }
    }

    /// Starts applying this patch to the load of `file_name`, with the
    /// embedded template.
    pub fn begin(&self, file_name: &str) -> (r: (ModPathApply, Step))
        ensures
            self.started(file_name@, encode_utf8(MOD_PATH_TEMPLATE@), r.0, r.1),
    {
        self.begin_with_template(file_name, MOD_PATH_TEMPLATE)
    }

    /// Starts applying this patch to the load of `file_name`, with `template`
    /// as the module's source.
    pub fn begin_with_template(&self, file_name: &str, template: &str) -> (r: (ModPathApply, Step))
        ensures
            self.started(file_name@, encode_utf8(template@), r.0, r.1),
    {
        let target = file_name.to_owned();
        if !self.before.eq(&target) {
            let progress = Progress { phase: Phase::Done, top: 0, preload: 0, outcome: Outcome::Skipped };
            let s = ModPathApply { code: Vec::new(), chunk_name: Vec::new(), module: Vec::new(), progress };
            return (s, Step::Finish(Outcome::Skipped));
        }
        let code = render_template(template.as_bytes(), self.path.as_str().as_bytes());
        let module = slice_to_vec(self.name.as_str().as_bytes());
        if holds_nul(code.as_slice()) || holds_nul(module.as_slice()) {
            let outcome = Outcome::Failed(Failure::Marshal);
            let progress = Progress { phase: Phase::Done, top: 0, preload: 0, outcome };
            let s = ModPathApply { code: Vec::new(), chunk_name: Vec::new(), module: Vec::new(), progress };
            return (s, Step::Finish(outcome));
        }
        let chunk_name = build_chunk_name(module.as_slice());
        let progress = Progress { phase: Phase::Snapshot, top: 0, preload: 0, outcome: Outcome::Skipped };
        (ModPathApply { code, chunk_name, module, progress }, Step::Call(LuaCall::GetTop))
    }
}

impl ModPathApply {
    /// Takes the reply to the pending call and returns the next step; the
    /// code, chunk name and module name stay as they are.
    pub fn resume(&mut self, reply: Reply) -> (r: Step)
        requires
            old(self).progress.accepts(reply),
        ensures
            (final(self).progress, r) == old(self).progress.advance(reply),
            final(self).code == old(self).code,
            final(self).chunk_name == old(self).chunk_name,
            final(self).module == old(self).module,
    {
        self.progress.resume(reply)
    }
}

/// A copy of a byte slice.
pub fn slice_to_vec(s: &[u8]) -> (r: Vec<u8>)
    ensures
        r@ == s@,
{
    let mut r: Vec<u8> = Vec::new();
    append(&mut r, s);
    r
}

/// Pushes the bytes of `s` onto `out`.
pub fn append(out: &mut Vec<u8>, s: &[u8])
    ensures
        final(out)@ == old(out)@ + s@,
{
    let mut i: usize = 0;
    while i < s.len()
        invariant
            i <= s@.len(),
            out@ == old(out)@ + s@.subrange(0, i as int),
        decreases s@.len() - i,
    {
        out.push(s[i]);
        assert(s@.subrange(0, i + 1) =~= s@.subrange(0, i as int).push(s@[i as int]));
        i += 1;
    }
    assert(s@.subrange(0, s@.len() as int) =~= s@);
}

/// Whether `s` holds a NUL byte.
pub fn holds_nul(s: &[u8]) -> (r: bool)
    ensures
        r == has_nul(s@),
{
    let mut i: usize = 0;
    while i < s.len()
        invariant
            i <= s@.len(),
            forall|k: int| 0 <= k < i ==> s@[k] != 0u8,
        decreases s@.len() - i,
    {
        if s[i] == 0u8 {
            return true;
        }
        i += 1;
    }
    false
}

/// The chunk name for the module `name`.
pub fn build_chunk_name(name: &[u8]) -> (r: Vec<u8>)
    ensures
        r@ == chunk_name(name@),
{
    let mut r: Vec<u8> = Vec::new();
    r.push(61u8);
    r.push(91u8);
    r.push(108u8);
    r.push(111u8);
    r.push(118u8);
    r.push(101u8);
    r.push(108u8);
    r.push(121u8);
    r.push(32u8);
    append(&mut r, name);
    r.push(32u8);
    r.push(34u8);
    append(&mut r, name);
    r.push(34u8);
    r.push(93u8);
    assert(r@ =~= chunk_name(name@));
    r
}

} // verus!
