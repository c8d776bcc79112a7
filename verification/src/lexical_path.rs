//! Lexical resolution of `.` and `..` in slash-separated paths, without
//! looking at the disk.
use vstd::prelude::*;
use crate::text::{chars_of, string_from_chars};

verus! {

/// The pieces of a path between its slashes, in order; a leading slash gives
/// an empty first piece, and a path without slashes is one piece.
pub open spec fn slash_pieces(s: Seq<char>) -> Seq<Seq<char>>
    decreases s.len(),
{
    if s.len() == 0 {
        seq![Seq::<char>::empty()]
    } else {
        let p = slash_pieces(s.drop_last());
        if s.last() == '/' {
            p.push(Seq::<char>::empty())
        } else {
            p.drop_last().push(p.last().push(s.last()))
        }
    }
}

/// The piece `.`.
pub open spec fn is_dot(p: Seq<char>) -> bool {
    p.len() == 1 && p[0] == '.'
}

/// The piece `..`.
pub open spec fn is_dot_dot(p: Seq<char>) -> bool {
    p.len() == 2 && p[0] == '.' && p[1] == '.'
}

/// A path starting at the root.
pub open spec fn is_absolute(s: Seq<char>) -> bool {
    s.len() > 0 && s[0] == '/'
}

/// One piece taken into the components resolved so far: an empty piece and
/// `.` are dropped; `..` takes back the last component, and where there is
/// none to take back it is dropped at the root of an absolute path and kept
/// in a relative one; any other piece is a component.
pub open spec fn take_piece(stack: Seq<Seq<char>>, piece: Seq<char>, absolute: bool) -> Seq<Seq<char>> {
    if piece.len() == 0 || is_dot(piece) {
        stack
    } else if is_dot_dot(piece) {
        if stack.len() > 0 && !is_dot_dot(stack.last()) {
            stack.drop_last()
        } else if absolute {
            stack
        } else {
            stack.push(piece)
        }
    } else {
        stack.push(piece)
    }
}

/// The components left once the pieces are taken in order.
pub open spec fn resolve_pieces(pieces: Seq<Seq<char>>, absolute: bool) -> Seq<Seq<char>>
    decreases pieces.len(),
{
    if pieces.len() == 0 {
        Seq::empty()
    } else {
        take_piece(resolve_pieces(pieces.drop_last(), absolute), pieces.last(), absolute)
    }
}

/// The components written with a slash between each two.
pub open spec fn join_with_slash(comps: Seq<Seq<char>>) -> Seq<char>
    decreases comps.len(),
{
    if comps.len() == 0 {
        Seq::empty()
    } else if comps.len() == 1 {
        comps[0]
    } else {
        join_with_slash(comps.drop_last()) + seq!['/'] + comps.last()
    }
}

/// The components of a path once `.` and `..` are resolved.
pub open spec fn normal_components(s: Seq<char>) -> Seq<Seq<char>> {
    resolve_pieces(slash_pieces(s), is_absolute(s))
}

/// The path with `.`, `..`, repeated and trailing slashes resolved: `/` and
/// the components for an absolute path, the components (or `.` when none is
/// left) for a relative one.
pub open spec fn lexical_normal(s: Seq<char>) -> Seq<char> {
    let comps = normal_components(s);
    if is_absolute(s) {
        seq!['/'] + join_with_slash(comps)
    } else if comps.len() == 0 {
        seq!['.']
    } else {
        join_with_slash(comps)
    }
}

/// A component that names an entry: not empty, not `.` or `..`, no slash.
pub open spec fn names_entry(p: Seq<char>) -> bool {
    p.len() > 0 && !is_dot(p) && !is_dot_dot(p) && !p.contains('/')
}

/// The texts of the components.
pub open spec fn texts(v: Seq<Vec<char>>) -> Seq<Seq<char>> {
    v.map_values(|p: Vec<char>| p@)
}

proof fn lemma_pieces_shape(s: Seq<char>)
    ensures
        slash_pieces(s).len() >= 1,
        forall|i: int| 0 <= i < slash_pieces(s).len() ==> !(#[trigger] slash_pieces(s)[i]).contains('/'),
    decreases s.len(),
{
    if s.len() > 0 {
        lemma_pieces_shape(s.drop_last());
        let p = slash_pieces(s.drop_last());
        if s.last() != '/' {
            let q = p.last().push(s.last());
            assert forall|i: int| 0 <= i < slash_pieces(s).len() implies !(
            #[trigger] slash_pieces(s)[i]).contains('/') by {
                if i == p.len() - 1 {
                    assert(slash_pieces(s)[i] == q);
                    if q.contains('/') {
                        let j = choose|j: int| 0 <= j < q.len() && q[j] == '/';
                        assert(p.last()[j] == '/');
                    }
                } else {
                    assert(slash_pieces(s)[i] == p[i]);
                }
            }
        } else {
            assert forall|i: int| 0 <= i < slash_pieces(s).len() implies !(
            #[trigger] slash_pieces(s)[i]).contains('/') by {
                if i < p.len() {
                    assert(slash_pieces(s)[i] == p[i]);
                } else {
                    assert(slash_pieces(s)[i] =~= Seq::<char>::empty());
                }
            }
        }
    }
}

proof fn lemma_resolve_absolute_clean(pieces: Seq<Seq<char>>)
    requires
        forall|i: int| 0 <= i < pieces.len() ==> !(#[trigger] pieces[i]).contains('/'),
    ensures
        forall|i: int|
            0 <= i < resolve_pieces(pieces, true).len() ==> names_entry(
                #[trigger] resolve_pieces(pieces, true)[i],
            ),
    decreases pieces.len(),
{
    if pieces.len() > 0 {
        let before = resolve_pieces(pieces.drop_last(), true);
        assert forall|i: int| 0 <= i < pieces.drop_last().len() implies !(
        #[trigger] pieces.drop_last()[i]).contains('/') by {
            assert(pieces.drop_last()[i] == pieces[i]);
        }
        lemma_resolve_absolute_clean(pieces.drop_last());
        assert(!pieces[pieces.len() - 1].contains('/'));
        let after = resolve_pieces(pieces, true);
        assert forall|i: int| 0 <= i < after.len() implies names_entry(#[trigger] after[i]) by {
            if i < before.len() {
                assert(names_entry(before[i]));
            }
        }
    }
}

/// Resolving `.` and `..` in an absolute path leaves only components that
/// name entries: none is empty, `.` or `..`, and none holds a slash. So the
/// resolved path can never climb above the directory it starts from.
pub proof fn lemma_absolute_normal_names_entries(s: Seq<char>)
    requires
        is_absolute(s),
    ensures
        forall|i: int|
            0 <= i < normal_components(s).len() ==> names_entry(#[trigger] normal_components(s)[i]),
{
    lemma_pieces_shape(s);
    lemma_resolve_absolute_clean(slash_pieces(s));
}

/// Pieces of a concatenation: the last piece of the first part runs on into
/// the first piece of the second.
proof fn lemma_pieces_concat(x: Seq<char>, y: Seq<char>)
    ensures
        slash_pieces(x + y) == slash_pieces(x).drop_last() + seq![
            slash_pieces(x).last() + slash_pieces(y)[0],
        ] + slash_pieces(y).drop_first(),
    decreases y.len(),
{
    lemma_pieces_shape(x);
    lemma_pieces_shape(y);
    if y.len() == 0 {
        assert(x + y =~= x);
        assert(slash_pieces(y) =~= seq![Seq::<char>::empty()]);
        assert(slash_pieces(x).last() + Seq::<char>::empty() =~= slash_pieces(x).last());
        assert(slash_pieces(x).drop_last() + seq![slash_pieces(x).last()] + Seq::<Seq<char>>::empty()
            =~= slash_pieces(x));
        assert(slash_pieces(y).drop_first() =~= Seq::<Seq<char>>::empty());
    } else {
        let y0 = y.drop_last();
        lemma_pieces_concat(x, y0);
        lemma_pieces_shape(y0);
        assert((x + y).drop_last() =~= x + y0);
        assert((x + y).last() == y.last());
        let px = slash_pieces(x);
        let py0 = slash_pieces(y0);
        let py = slash_pieces(y);
        if y.last() == '/' {
            assert(py == py0.push(Seq::<char>::empty()));
            if py0.len() == 1 {
                assert(py[0] == py0[0]);
            } else {
                assert(py[0] == py0[0]);
            }
            assert(py.drop_first() =~= py0.drop_first().push(Seq::<char>::empty()));
            assert(slash_pieces(x + y) =~= px.drop_last() + seq![px.last() + py[0]] + py.drop_first());
        } else {
            assert(py == py0.drop_last().push(py0.last().push(y.last())));
            if py0.len() == 1 {
                assert(py[0] == py0[0].push(y.last()));
                assert(py.drop_first() =~= Seq::<Seq<char>>::empty());
                assert(py0.drop_first() =~= Seq::<Seq<char>>::empty());
                assert(px.last() + py0[0].push(y.last()) =~= (px.last() + py0[0]).push(y.last()));
                assert(slash_pieces(x + y) =~= px.drop_last() + seq![px.last() + py[0]] + py.drop_first());
            } else {
                assert(py[0] == py0[0]);
                assert(py.drop_first() =~= py0.drop_first().drop_last().push(py0.last().push(y.last())));
                assert(slash_pieces(x + y) =~= px.drop_last() + seq![px.last() + py[0]] + py.drop_first());
            }
        }
    }
}

/// A text without slashes is one piece.
proof fn lemma_pieces_plain(c: Seq<char>)
    requires
        !c.contains('/'),
    ensures
        slash_pieces(c) == seq![c],
    decreases c.len(),
{
    if c.len() > 0 {
        assert(!c.drop_last().contains('/')) by {
            if c.drop_last().contains('/') {
                let j = choose|j: int| 0 <= j < c.drop_last().len() && c.drop_last()[j] == '/';
                assert(c[j] == '/');
            }
        }
        lemma_pieces_plain(c.drop_last());
        assert(c.last() != '/') by {
            assert(c[c.len() - 1] == c.last());
        }
        assert(c.drop_last().push(c.last()) =~= c);
    } else {
        assert(c =~= Seq::<char>::empty());
    }
}

/// Components written with slashes between them split back into themselves.
proof fn lemma_pieces_of_join(comps: Seq<Seq<char>>)
    requires
        comps.len() >= 1,
        forall|i: int| 0 <= i < comps.len() ==> !(#[trigger] comps[i]).contains('/'),
    ensures
        slash_pieces(join_with_slash(comps)) == comps,
    decreases comps.len(),
{
    if comps.len() == 1 {
        lemma_pieces_plain(comps[0]);
        assert(seq![comps[0]] =~= comps);
    } else {
        let front = comps.drop_last();
        assert forall|i: int| 0 <= i < front.len() implies !(#[trigger] front[i]).contains('/') by {
            assert(front[i] == comps[i]);
        }
        lemma_pieces_of_join(front);
        let j = join_with_slash(front);
        assert(!comps[comps.len() - 1].contains('/'));
        lemma_pieces_plain(comps.last());
        lemma_pieces_concat(j + seq!['/'], comps.last());
        assert((j + seq!['/']).drop_last() =~= j);
        assert((j + seq!['/']).last() == '/');
        assert(slash_pieces(j + seq!['/']) == front.push(Seq::<char>::empty()));
        assert(front.push(Seq::<char>::empty()).drop_last() =~= front);
        assert(Seq::<char>::empty() + comps.last() =~= comps.last());
        assert(seq![comps.last()].drop_first() =~= Seq::<Seq<char>>::empty());
        assert(front + seq![comps.last()] + Seq::<Seq<char>>::empty() =~= comps);
    }
}

/// The components left of a relative path: each `..` or an entry name, and
/// every `..` before every name.
pub open spec fn climbs_then_names(comps: Seq<Seq<char>>) -> bool {
    &&& forall|i: int| 0 <= i < comps.len() ==> is_dot_dot(#[trigger] comps[i]) || names_entry(comps[i])
    &&& forall|i: int, j: int| 0 <= i < j < comps.len() && is_dot_dot(#[trigger] comps[j]) ==> is_dot_dot(
        #[trigger] comps[i],
    )
}

proof fn lemma_resolve_relative_shape(pieces: Seq<Seq<char>>)
    requires
        forall|i: int| 0 <= i < pieces.len() ==> !(#[trigger] pieces[i]).contains('/'),
    ensures
        climbs_then_names(resolve_pieces(pieces, false)),
    decreases pieces.len(),
{
    if pieces.len() > 0 {
        let front = pieces.drop_last();
        assert forall|i: int| 0 <= i < front.len() implies !(#[trigger] front[i]).contains('/') by {
            assert(front[i] == pieces[i]);
        }
        lemma_resolve_relative_shape(front);
        let st = resolve_pieces(front, false);
        let piece = pieces.last();
        assert(!pieces[pieces.len() - 1].contains('/'));
        let after = resolve_pieces(pieces, false);
        if is_dot_dot(piece) && !(st.len() > 0 && !is_dot_dot(st.last())) {
            assert forall|i: int| 0 <= i < st.len() implies is_dot_dot(#[trigger] st[i]) by {
                assert(is_dot_dot(st[st.len() - 1]));
            }
            assert forall|i: int| 0 <= i < after.len() implies is_dot_dot(#[trigger] after[i]) by {
                if i < st.len() {
                    assert(after[i] == st[i]);
                }
            }
        } else if !(piece.len() == 0 || is_dot(piece)) && !is_dot_dot(piece) {
            assert(after == st.push(piece));
            assert forall|i: int, j: int| 0 <= i < j < after.len() && is_dot_dot(#[trigger] after[j]) implies is_dot_dot(
                #[trigger] after[i],
            ) by {
                assert(after[j] == st[j]);
                assert(after[i] == st[i]);
            }
            assert forall|i: int| 0 <= i < after.len() implies is_dot_dot(#[trigger] after[i]) || names_entry(
                after[i],
            ) by {
                if i < st.len() {
                    assert(after[i] == st[i]);
                }
            }
        } else if is_dot_dot(piece) {
            assert(after == st.drop_last());
            assert forall|i: int| 0 <= i < after.len() implies is_dot_dot(#[trigger] after[i]) || names_entry(
                after[i],
            ) by {
                assert(after[i] == st[i]);
            }
            assert forall|i: int, j: int| 0 <= i < j < after.len() && is_dot_dot(#[trigger] after[j]) implies is_dot_dot(
                #[trigger] after[i],
            ) by {
                assert(after[j] == st[j]);
                assert(after[i] == st[i]);
            }
        }
    }
}

/// Resolving components already in the relative normal shape gives them back.
proof fn lemma_resolve_relative_fixed(comps: Seq<Seq<char>>)
    requires
        climbs_then_names(comps),
    ensures
        resolve_pieces(comps, false) == comps,
    decreases comps.len(),
{
    if comps.len() > 0 {
        let front = comps.drop_last();
        assert forall|i: int| 0 <= i < front.len() implies is_dot_dot(#[trigger] front[i]) || names_entry(
            front[i],
        ) by {
            assert(front[i] == comps[i]);
        }
        assert forall|i: int, j: int| 0 <= i < j < front.len() && is_dot_dot(#[trigger] front[j]) implies is_dot_dot(
            #[trigger] front[i],
        ) by {
            assert(front[i] == comps[i]);
            assert(front[j] == comps[j]);
        }
        lemma_resolve_relative_fixed(front);
        let last = comps.last();
        assert(is_dot_dot(comps[comps.len() - 1]) || names_entry(comps[comps.len() - 1]));
        if is_dot_dot(last) && front.len() > 0 {
            assert(is_dot_dot(comps[front.len() - 1]));
            assert(front.last() == comps[front.len() - 1]);
        }
        assert(front.push(last) =~= comps);
    }
}

/// Resolving an absolute path's pieces, an empty first piece and then entry
/// names, gives the names back.
proof fn lemma_resolve_absolute_fixed(comps: Seq<Seq<char>>)
    requires
        forall|i: int| 0 <= i < comps.len() ==> names_entry(#[trigger] comps[i]),
    ensures
        resolve_pieces(seq![Seq::<char>::empty()] + comps, true) == comps,
    decreases comps.len(),
{
    let ps = seq![Seq::<char>::empty()] + comps;
    if comps.len() == 0 {
        assert(ps =~= seq![Seq::<char>::empty()]);
        assert(ps.drop_last() =~= Seq::<Seq<char>>::empty());
        assert(resolve_pieces(ps.drop_last(), true) =~= Seq::<Seq<char>>::empty());
        assert(ps.last().len() == 0);
        assert(resolve_pieces(ps, true) =~= Seq::<Seq<char>>::empty());
        assert(comps =~= Seq::<Seq<char>>::empty());
    } else {
        let front = comps.drop_last();
        assert forall|i: int| 0 <= i < front.len() implies names_entry(#[trigger] front[i]) by {
            assert(front[i] == comps[i]);
        }
        lemma_resolve_absolute_fixed(front);
        assert(ps.drop_last() =~= seq![Seq::<char>::empty()] + front);
        assert(ps.last() == comps.last());
        assert(names_entry(comps[comps.len() - 1]));
        assert(resolve_pieces(ps, true) == take_piece(resolve_pieces(ps.drop_last(), true), ps.last(), true));
        assert(take_piece(front, comps.last(), true) == front.push(comps.last()));
        assert(front.push(comps.last()) =~= comps);
    }
}

/// The lexical normal form is stable: resolving `.` and `..` in a path that
/// is already resolved changes nothing.
pub proof fn lemma_lexical_normal_is_stable(s: Seq<char>)
    ensures
        lexical_normal(lexical_normal(s)) == lexical_normal(s),
{
    let comps = normal_components(s);
    let n = lexical_normal(s);
    lemma_pieces_shape(s);
    if is_absolute(s) {
        lemma_resolve_absolute_clean(slash_pieces(s));
        assert(n == seq!['/'] + join_with_slash(comps));
        assert(is_absolute(n));
        lemma_pieces_concat(seq!['/'], join_with_slash(comps));
        let slash: Seq<char> = seq!['/'];
        assert(slash.drop_last() =~= Seq::<char>::empty());
        assert(slash_pieces(Seq::<char>::empty()) == seq![Seq::<char>::empty()]);
        assert(slash_pieces(slash) == seq![Seq::<char>::empty()].push(Seq::<char>::empty()));
        if comps.len() == 0 {
            assert(join_with_slash(comps) =~= Seq::<char>::empty());
            assert(n =~= slash);
            let two = slash_pieces(n);
            assert(two =~= seq![Seq::<char>::empty(), Seq::<char>::empty()]);
            assert(two.drop_last() =~= seq![Seq::<char>::empty()] + Seq::<Seq<char>>::empty());
            lemma_resolve_absolute_fixed(Seq::<Seq<char>>::empty());
            assert(resolve_pieces(two.drop_last(), true) =~= Seq::<Seq<char>>::empty());
            assert(two.last().len() == 0);
            assert(resolve_pieces(two, true) == take_piece(resolve_pieces(two.drop_last(), true), two.last(), true));
            assert(normal_components(n) =~= Seq::<Seq<char>>::empty());
        } else {
            assert forall|i: int| 0 <= i < comps.len() implies !(#[trigger] comps[i]).contains('/') by {
                assert(names_entry(comps[i]));
            }
            lemma_pieces_of_join(comps);
            let pj = slash_pieces(join_with_slash(comps));
            assert(slash_pieces(slash).drop_last() =~= seq![Seq::<char>::empty()]);
            assert(Seq::<char>::empty() + pj[0] =~= pj[0]);
            assert(slash_pieces(n) =~= seq![Seq::<char>::empty()] + comps);
            lemma_resolve_absolute_fixed(comps);
        }
    } else {
        lemma_resolve_relative_shape(slash_pieces(s));
        if comps.len() == 0 {
            assert(n == seq!['.']);
            let dot: Seq<char> = seq!['.'];
            assert(!dot.contains('/')) by {
                if dot.contains('/') {
                    let j = choose|j: int| 0 <= j < dot.len() && dot[j] == '/';
                    assert(dot[0] == '.');
                }
            }
            lemma_pieces_plain(dot);
            let one = slash_pieces(dot);
            assert(one.drop_last() =~= Seq::<Seq<char>>::empty());
            assert(resolve_pieces(one.drop_last(), false) =~= Seq::<Seq<char>>::empty());
            assert(is_dot(one.last()));
            assert(resolve_pieces(one, false) == take_piece(resolve_pieces(one.drop_last(), false), one.last(), false));
            assert(!is_absolute(n));
            assert(normal_components(n) =~= Seq::<Seq<char>>::empty());
        } else {
            assert forall|i: int| 0 <= i < comps.len() implies !(#[trigger] comps[i]).contains('/') by {
                assert(is_dot_dot(comps[i]) || names_entry(comps[i]));
                if is_dot_dot(comps[i]) && comps[i].contains('/') {
                    let j = choose|j: int| 0 <= j < comps[i].len() && comps[i][j] == '/';
                }
            }
            lemma_pieces_of_join(comps);
            assert(n == join_with_slash(comps));
            lemma_join_starts_with_first(comps);
            assert(!is_absolute(n)) by {
                assert(is_dot_dot(comps[0]) || names_entry(comps[0]));
                if is_absolute(n) {
                    assert(comps[0][0] == '/');
                    assert(comps[0].contains('/'));
                }
            }
            lemma_resolve_relative_fixed(comps);
        }
    }
}

/// A join of components starts with the first component.
proof fn lemma_join_starts_with_first(comps: Seq<Seq<char>>)
    requires
        comps.len() >= 1,
        comps[0].len() >= 1,
    ensures
        join_with_slash(comps).len() >= 1,
        join_with_slash(comps)[0] == comps[0][0],
    decreases comps.len(),
{
    if comps.len() > 1 {
        lemma_join_starts_with_first(comps.drop_last());
    }
}

/// Takes one piece into the components resolved so far.
fn take_piece_into(stack: &mut Vec<Vec<char>>, piece: Vec<char>, absolute: bool)
    ensures
        texts(final(stack)@) == take_piece(texts(old(stack)@), piece@, absolute),
{
    let n = piece.len();
    if n == 0 || (n == 1 && piece[0] == '.') {
        return ;
    }
    if n == 2 && piece[0] == '.' && piece[1] == '.' {
        let k = stack.len();
        let climbs = if k > 0 {
            let last = &stack[k - 1];
            !(last.len() == 2 && last[0] == '.' && last[1] == '.')
        } else {
            false
        };
        if climbs {
            stack.pop();
            assert(texts(stack@) =~= texts(old(stack)@).drop_last());
        } else if !absolute {
            stack.push(piece);
            assert(texts(stack@) =~= texts(old(stack)@).push(piece@));
        }
    } else {
        stack.push(piece);
        assert(texts(stack@) =~= texts(old(stack)@).push(piece@));
    }
}

/// Appends the characters of `s`.
fn append_chars(out: &mut Vec<char>, s: &Vec<char>)
    ensures
        final(out)@ == old(out)@ + s@,
{
    let mut i: usize = 0;
    while i < s.len()
        invariant
            i <= s@.len(),
            out@ == old(out)@ + s@.take(i as int),
        decreases s@.len() - i,
    {
        out.push(s[i]);
        assert(s@.take(i + 1) =~= s@.take(i as int).push(s@[i as int]));
        i = i + 1;
    }
    assert(s@.take(i as int) =~= s@);
}

/// The path with `.` and `..` resolved lexically (see `lexical_normal`).
pub fn lexically_normalize(path: &str) -> (r: String)
    ensures
        r@ == lexical_normal(path@),
{
    let cs = chars_of(path);
    let absolute = cs.len() > 0 && cs[0] == '/';
    let mut stack: Vec<Vec<char>> = Vec::new();
    let mut cur: Vec<char> = Vec::new();
    let mut i: usize = 0;
    assert(cs@.take(0) =~= Seq::<char>::empty());
    assert(texts(stack@) =~= Seq::<Seq<char>>::empty());
    while i < cs.len()
        invariant
            i <= cs@.len(),
            cs@ == path@,
            absolute == is_absolute(path@),
            slash_pieces(cs@.take(i as int)).len() >= 1,
            cur@ == slash_pieces(cs@.take(i as int)).last(),
            texts(stack@) == resolve_pieces(slash_pieces(cs@.take(i as int)).drop_last(), absolute),
        decreases cs@.len() - i,
    {
        let c = cs[i];
        let ghost before = slash_pieces(cs@.take(i as int));
        assert(cs@.take(i + 1).drop_last() =~= cs@.take(i as int));
        assert(cs@.take(i + 1).last() == c);
        if c == '/' {
            let piece = cur;
            cur = Vec::new();
            take_piece_into(&mut stack, piece, absolute);
            proof {
                let after = slash_pieces(cs@.take(i + 1));
                assert(after == before.push(Seq::<char>::empty()));
                assert(after.drop_last() =~= before);
                assert(before == before.drop_last().push(before.last()));
                assert(cur@ =~= after.last());
            }
        } else {
            cur.push(c);
            proof {
                let after = slash_pieces(cs@.take(i + 1));
                assert(after == before.drop_last().push(before.last().push(c)));
                assert(after.drop_last() =~= before.drop_last());
            }
        }
        i = i + 1;
    }
    assert(cs@.take(i as int) =~= path@);
    proof {
        let ps = slash_pieces(path@);
        assert(ps == ps.drop_last().push(ps.last()));
    }
    take_piece_into(&mut stack, cur, absolute);
    let ghost comps = texts(stack@);
    assert(comps == normal_components(path@));
    let mut out: Vec<char> = Vec::new();
    if absolute {
        out.push('/');
    }
    let ghost lead = out@;
    let mut j: usize = 0;
    assert(comps.take(0) =~= Seq::<Seq<char>>::empty());
    assert(out@ =~= lead + join_with_slash(comps.take(0)));
    while j < stack.len()
        invariant
            j <= stack@.len(),
            comps == texts(stack@),
            out@ == lead + join_with_slash(comps.take(j as int)),
        decreases stack@.len() - j,
    {
        assert(comps.take(j + 1).drop_last() =~= comps.take(j as int));
        assert(comps.take(j + 1).last() == stack@[j as int]@);
        if j > 0 {
            out.push('/');
        } else {
            assert(comps.take(j as int) =~= Seq::<Seq<char>>::empty());
            assert(comps.take(j + 1)[0] == stack@[0]@);
        }
        append_chars(&mut out, &stack[j]);
        assert(out@ =~= lead + join_with_slash(comps.take(j + 1)));
        j = j + 1;
    }
    assert(comps.take(j as int) =~= comps);
    if !absolute && stack.len() == 0 {
        out.push('.');
        assert(out@ =~= seq!['.']);
    }
    string_from_chars(out.as_slice())
}

} // verus!
