use vstd::prelude::*;

verus! {

/// The marker in a template that stands for a mod's root directory: the ASCII
/// bytes of `lovely_template:mod_path`.
pub open spec fn sentinel() -> Seq<u8> {
    seq![
        108u8, 111, 118, 101, 108, 121, 95, 116, 101, 109, 112, 108,
        97, 116, 101, 58, 109, 111, 100, 95, 112, 97, 116, 104,
    ]
}

/// Whether `pat` occurs in `t` starting at `i`.
pub open spec fn occurs_at(t: Seq<u8>, i: int, pat: Seq<u8>) -> bool {
    0 <= i && i + pat.len() <= t.len() && t.subrange(i, i + pat.len()) == pat
}

/// Whether `pat` occurs anywhere in `t`.
pub open spec fn contains(t: Seq<u8>, pat: Seq<u8>) -> bool {
    exists|i: int| occurs_at(t, i, pat)
}

/// `t` with every occurrence of the sentinel, taken left to right without
/// overlap, replaced by `p`.
pub open spec fn render(t: Seq<u8>, p: Seq<u8>) -> Seq<u8>
    decreases t.len(),
{
    if t.len() == 0 {
        seq![]
    } else if occurs_at(t, 0, sentinel()) {
        p + render(t.skip(sentinel().len() as int), p)
    } else {
        seq![t[0]] + render(t.skip(1), p)
    }
}

/// The pieces of `t` between the occurrences of the sentinel that `render`
/// replaces; there is always one more piece than occurrences.
pub open spec fn split(t: Seq<u8>) -> Seq<Seq<u8>>
    decreases t.len(),
{
    if t.len() == 0 {
        seq![seq![]]
    } else if occurs_at(t, 0, sentinel()) {
        seq![seq![]] + split(t.skip(sentinel().len() as int))
    } else {
        let rest = split(t.skip(1));
        rest.update(0, seq![t[0]] + rest[0])
    }
}

/// The pieces of `parts` with `sep` between each two.
pub open spec fn join(parts: Seq<Seq<u8>>, sep: Seq<u8>) -> Seq<u8>
    decreases parts.len(),
{
    if parts.len() <= 1 {
        if parts.len() == 1 { parts[0] } else { seq![] }
    } else {
        parts[0] + sep + join(parts.skip(1), sep)
    }
}

proof fn lemma_join_first(parts: Seq<Seq<u8>>, sep: Seq<u8>, head: Seq<u8>)
    requires
        parts.len() >= 1,
    ensures
        join(parts.update(0, head + parts[0]), sep) == head + join(parts, sep),
{
    let q = parts.update(0, head + parts[0]);
    if parts.len() > 1 {
        assert(q.skip(1) =~= parts.skip(1));
        assert(join(q, sep) =~= head + join(parts, sep));
    }
}

/// Rendering replaces the sentinel and nothing else: `t` is its pieces joined
/// by the sentinel, the result is the same pieces joined by `p`, and no piece
/// holds the sentinel.
pub proof fn lemma_render_substitutes(t: Seq<u8>, p: Seq<u8>)
    ensures
        split(t).len() >= 1,
        join(split(t), sentinel()) == t,
        join(split(t), p) == render(t, p),
        forall|i: int| 0 <= i < split(t).len() ==> !contains(#[trigger] split(t)[i], sentinel()),
    decreases t.len(),
{
    let s = sentinel();
    if t.len() == 0 {
        assert forall|i: int| 0 <= i < split(t).len() implies !contains(#[trigger] split(t)[i], s) by {
            assert(split(t)[i].len() == 0);
        }
    } else if occurs_at(t, 0, s) {
        let rest = t.skip(s.len() as int);
        lemma_render_substitutes(rest, p);
        let parts = split(t);
        assert(parts.skip(1) =~= split(rest));
        assert(t =~= t.subrange(0, s.len() as int) + rest);
        assert(join(parts, s) =~= seq![] + s + join(split(rest), s));
        assert(join(parts, p) =~= seq![] + p + join(split(rest), p));
        assert forall|i: int| 0 <= i < parts.len() implies !contains(#[trigger] parts[i], s) by {
            if i == 0 {
                assert(parts[0].len() == 0);
            } else {
                assert(parts[i] == split(rest)[i - 1]);
            }
        }
    } else {
        let rest = t.skip(1);
        lemma_render_substitutes(rest, p);
        let r = split(rest);
        let head = seq![t[0]];
        lemma_join_first(r, s, head);
        lemma_join_first(r, p, head);
        assert(t =~= head + rest);
        let parts = split(t);
        assert forall|i: int| 0 <= i < parts.len() implies !contains(#[trigger] parts[i], s) by {
            if i == 0 {
                let piece = parts[0];
                assert(piece == head + r[0]);
                if contains(piece, s) {
                    let j = choose|j: int| occurs_at(piece, j, s);
                    if j == 0 {
                        // the piece is a prefix of t
                        assert(join(parts, s) == t);
                        lemma_join_prefix(parts, s);
                        assert(t.subrange(0, s.len() as int) =~= piece.subrange(0, s.len() as int));
                    } else {
                        assert(r[0].subrange(j - 1, j - 1 + s.len()) =~= piece.subrange(j, j + s.len()));
                        assert(occurs_at(r[0], j - 1, s));
                    }
                }
            } else {
                assert(parts[i] == r[i]);
            }
        }
    }
}

proof fn lemma_join_prefix(parts: Seq<Seq<u8>>, sep: Seq<u8>)
    requires
        parts.len() >= 1,
    ensures
        parts[0].len() <= join(parts, sep).len(),
        join(parts, sep).subrange(0, parts[0].len() as int) == parts[0],
{
    if parts.len() > 1 {
        assert(join(parts, sep).subrange(0, parts[0].len() as int) =~= parts[0]);
    }
}

/// Whether `b` is one of the sentinel's bytes.
pub open spec fn sentinel_byte(b: u8) -> bool {
    exists|k: int| 0 <= k < sentinel().len() && sentinel()[k] == b
}

/// Whether each sentinel in `t` stands between two bytes that are not the
/// sentinel's own, as when it is quoted.
pub open spec fn sealed(t: Seq<u8>) -> bool {
    let parts = split(t);
    forall|i: int|
        #![trigger parts[i]]
        0 <= i < parts.len() - 1 ==> {
            &&& parts[i].len() > 0
            &&& parts[i + 1].len() > 0
            &&& !sentinel_byte(parts[i].last())
            &&& !sentinel_byte(parts[i + 1][0])
        }
}

proof fn lemma_occurrence_in_piece(a: Seq<u8>, p: Seq<u8>, b: Seq<u8>)
    requires
        a.len() > 0,
        b.len() > 0,
        !sentinel_byte(a.last()),
        !sentinel_byte(b[0]),
        contains(a + p + b, sentinel()),
    ensures
        contains(a, sentinel()) || contains(p, sentinel()) || contains(b, sentinel()),
{
    let s = sentinel();
    let t = a + p + b;
    let i = choose|i: int| occurs_at(t, i, s);
    let w = t.subrange(i, i + s.len());
    assert forall|x: int| i <= x < i + s.len() implies sentinel_byte(t[x]) by {
        assert(w[x - i] == t[x]);
        assert(s[x - i] == t[x]);
    }
    let la = a.len() as int;
    let lp = p.len() as int;
    assert(t[la - 1] == a.last());
    assert(t[la + lp] == b[0]);
    if i + s.len() <= la - 1 {
        assert(a.subrange(i, i + s.len()) =~= w);
        assert(occurs_at(a, i, s));
    } else if i + s.len() <= la + lp {
        assert(p.subrange(i - la, i - la + s.len()) =~= w);
        assert(occurs_at(p, i - la, s));
    } else {
        assert(b.subrange(i - la - lp, i - la - lp + s.len()) =~= w);
        assert(occurs_at(b, i - la - lp, s));
    }
}

proof fn lemma_join_sealed(parts: Seq<Seq<u8>>, p: Seq<u8>)
    requires
        parts.len() >= 1,
        forall|i: int| 0 <= i < parts.len() ==> !contains(#[trigger] parts[i], sentinel()),
        forall|i: int|
            #![trigger parts[i]]
            0 <= i < parts.len() - 1 ==> {
                &&& parts[i].len() > 0
                &&& parts[i + 1].len() > 0
                &&& !sentinel_byte(parts[i].last())
                &&& !sentinel_byte(parts[i + 1][0])
            },
        !contains(p, sentinel()),
    ensures
        !contains(join(parts, p), sentinel()),
    decreases parts.len(),
{
    if parts.len() > 1 {
        let rest = parts.skip(1);
        assert forall|i: int| 0 <= i < rest.len() implies !contains(#[trigger] rest[i], sentinel()) by {
            assert(rest[i] == parts[i + 1]);
        }
        assert forall|i: int|
            #![trigger rest[i]]
            0 <= i < rest.len() - 1 implies {
                &&& rest[i].len() > 0
                &&& rest[i + 1].len() > 0
                &&& !sentinel_byte(rest[i].last())
                &&& !sentinel_byte(rest[i + 1][0])
            } by {
            assert(rest[i] == parts[i + 1]);
            assert(rest[i + 1] == parts[i + 2]);
            assert(parts[i + 1].len() > 0);
        }
        lemma_join_sealed(rest, p);
        lemma_join_prefix(rest, p);
        let tail = join(rest, p);
        assert(parts[0].len() > 0);
        assert(parts[1].len() > 0);
        assert(rest[0] == parts[1]);
        assert(tail[0] == tail.subrange(0, rest[0].len() as int)[0]);
        if contains(parts[0] + p + tail, sentinel()) {
            lemma_occurrence_in_piece(parts[0], p, tail);
        }
    }
}

/// When `t` is sealed and `p` holds no sentinel, rendering leaves no sentinel.
pub proof fn lemma_render_leaves_no_sentinel(t: Seq<u8>, p: Seq<u8>)
    requires
        sealed(t),
        !contains(p, sentinel()),
    ensures
        !contains(render(t, p), sentinel()),
{
    lemma_render_substitutes(t, p);
    lemma_join_sealed(split(t), p);
}

/// Splitting bytes that cannot start a sentinel, then `y`, puts those bytes
/// in front of the first piece of `y`.
pub proof fn lemma_split_plain_prefix(x: Seq<u8>, y: Seq<u8>)
    requires
        forall|k: int| 0 <= k < x.len() ==> x[k] != sentinel()[0],
    ensures
        split(y).len() >= 1,
        split(x + y) == split(y).update(0, x + split(y)[0]),
    decreases x.len(),
{
    lemma_render_substitutes(y, seq![]);
    if x.len() == 0 {
        assert(x + y =~= y);
        assert(split(y).update(0, x + split(y)[0]) =~= split(y));
    } else {
        let t = x + y;
        if t.len() >= sentinel().len() {
            assert(t.subrange(0, sentinel().len() as int)[0] == x[0]);
        }
        assert(!occurs_at(t, 0, sentinel()));
        lemma_split_plain_prefix(x.skip(1), y);
        assert(t.skip(1) =~= x.skip(1) + y);
        assert(seq![t[0]] + (x.skip(1) + split(y)[0]) =~= x + split(y)[0]);
        assert(split(t) =~= split(y).update(0, x + split(y)[0]));
    }
}

/// A sentinel at the front of `t` ends an empty first piece.
pub proof fn lemma_split_sentinel_first(y: Seq<u8>)
    ensures
        split(sentinel() + y) == seq![seq![]] + split(y),
{
    let t = sentinel() + y;
    assert(t.subrange(0, sentinel().len() as int) =~= sentinel());
    assert(t.skip(sentinel().len() as int) =~= y);
}

/// The sentinel's bytes.
pub fn sentinel_bytes() -> (r: Vec<u8>)
    ensures
        r@ == sentinel(),
{
    let r = vec![
        108u8, 111, 118, 101, 108, 121, 95, 116, 101, 109, 112, 108,
        97, 116, 101, 58, 109, 111, 100, 95, 112, 97, 116, 104,
    ];
    assert(r@ =~= sentinel());
    r
}

/// Whether `pat` occurs in `t` starting at `i`.
pub fn matches_at(t: &[u8], i: usize, pat: &[u8]) -> (r: bool)
    ensures
        r == occurs_at(t@, i as int, pat@),
{
    if i > t.len() || pat.len() > t.len() - i {
        return false;
    }
    let end = i + pat.len();
    let mut j: usize = 0;
    while j < pat.len()
        invariant
            end == i + pat@.len(),
            end <= t@.len(),
            j <= pat@.len(),
            forall|k: int| 0 <= k < j ==> t@[i + k] == pat@[k],
        decreases pat@.len() - j,
    {
        if t[i + j] != pat[j] {
            assert(t@.subrange(i as int, i + pat@.len())[j as int] != pat@[j as int]);
            return false;
        }
        j += 1;
    }
    assert(t@.subrange(i as int, i + pat@.len()) =~= pat@);
    true
}

/// Replaces every occurrence of the sentinel in `template` by `path`.
pub fn render_template(template: &[u8], path: &[u8]) -> (r: Vec<u8>)
    ensures
        r@ == render(template@, path@),
{
    let s = sentinel_bytes();
    let mut out: Vec<u8> = Vec::new();
    let mut i: usize = 0;
    assert(template@.skip(0) =~= template@);
    while i < template.len()
        invariant
            i <= template@.len(),
            s@ == sentinel(),
            render(template@, path@) == out@ + render(template@.skip(i as int), path@),
        decreases template@.len() - i,
    {
        let rest = Ghost(template@.skip(i as int));
        proof {
            if i + s@.len() <= template@.len() {
                assert(rest@.subrange(0, s@.len() as int) =~= template@.subrange(
                    i as int,
                    i + s@.len(),
                ));
            }
        }
        if matches_at(template, i, s.as_slice()) {
            assert(rest@.skip(s@.len() as int) =~= template@.skip(i + s@.len()));
            let mut k: usize = 0;
            let ghost before = out@;
            while k < path.len()
                invariant
                    k <= path@.len(),
                    out@ == before + path@.subrange(0, k as int),
                decreases path@.len() - k,
            {
                out.push(path[k]);
                assert(path@.subrange(0, k + 1) =~= path@.subrange(0, k as int).push(path@[k as int]));
                k += 1;
            }
            assert(path@.subrange(0, path@.len() as int) =~= path@);
            assert(out@ + render(template@.skip(i + s@.len()), path@) =~= before + (path@
                + render(template@.skip(i + s@.len()), path@)));
            i += s.len();
        } else {
            assert(!occurs_at(rest@, 0, sentinel()));
            assert(rest@.skip(1) =~= template@.skip(i + 1));
            let ghost before = out@;
            out.push(template[i]);
            assert(out@ + render(template@.skip(i + 1), path@) =~= before + (seq![template@[i as int]]
                + render(template@.skip(i + 1), path@)));
            i += 1;
        }
    }
    assert(out@ + render(template@.skip(i as int), path@) =~= out@);
    out
}

} // verus!
