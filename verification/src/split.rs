//! Splitting text at separator characters (`str::split` with a character pattern),
//! and the fact that splitting undoes joining.
use vstd::prelude::*;
use crate::uri::join;

verus! {

/// `s.split(sep)`: the pieces of `s` between separator characters, in order. There is
/// always at least one piece; separators at the ends give empty pieces.
pub open spec fn split_by(s: Seq<char>, sep: spec_fn(char) -> bool) -> Seq<Seq<char>>
    decreases s.len(),
{
    if s.len() == 0 {
        seq![Seq::empty()]
    } else {
        let r = split_by(s.drop_last(), sep);
        if sep(s.last()) {
            r.push(Seq::empty())
        } else {
            r.update(r.len() - 1, r.last().push(s.last()))
        }
    }
}

/// The characters `,`, `;`, new line, carriage return, tab and space, which separate
/// items in lists typed by the user.
pub open spec fn is_list_separator(c: char) -> bool {
    c == ',' || c == ';' || c == '\n' || c == '\r' || c == '\t' || c == ' '
}

/// Where text is split: at list separators, or at one given character.
#[derive(Clone, Copy, Debug, PartialEq, Eq, Structural)]
pub enum Separator {
    List,
    Char(char),
}

/// The characters a separator splits at.
pub open spec fn separator(sep: Separator) -> spec_fn(char) -> bool {
    match sep {
        Separator::List => |c: char| is_list_separator(c),
        Separator::Char(x) => |c: char| c == x,
    }
}

/// The characters of each piece.
pub open spec fn piece_views(v: Seq<Vec<char>>) -> Seq<Seq<char>> {
    v.map_values(|p: Vec<char>| p@)
}

pub proof fn lemma_split_nonempty(s: Seq<char>, sep: spec_fn(char) -> bool)
    ensures
        split_by(s, sep).len() >= 1,
    decreases s.len(),
{
    if s.len() > 0 {
        lemma_split_nonempty(s.drop_last(), sep);
    }
}

fn is_separator(c: char, sep: Separator) -> (r: bool)
    ensures
        r == separator(sep)(c),
{
    match sep {
        Separator::List => c == ',' || c == ';' || c == '\n' || c == '\r' || c == '\t' || c == ' ',
        Separator::Char(x) => c == x,
    }
}

/// Splits `v` at the characters of `sep` (`str::split`).
pub fn split_chars(v: &Vec<char>, list: Separator) -> (r: Vec<Vec<char>>)
    ensures
        piece_views(r@) == split_by(v@, separator(list)),
{
    let mut parts: Vec<Vec<char>> = Vec::new();
    let mut cur: Vec<char> = Vec::new();
    let mut i: usize = 0;
    assert(v@.take(0) =~= Seq::<char>::empty());
    assert(piece_views(parts@).push(cur@) =~= seq![Seq::<char>::empty()]);
    while i < v.len()
        invariant
            i <= v.len(),
            piece_views(parts@).push(cur@) == split_by(v@.take(i as int), separator(list)),
        decreases v.len() - i,
    {
        let c = v[i];
        let ghost before = split_by(v@.take(i as int), separator(list));
        proof {
            assert(v@.take(i + 1).drop_last() =~= v@.take(i as int));
            assert(v@.take(i + 1).last() == c);
        }
        if is_separator(c, list) {
            parts.push(cur);
            cur = Vec::new();
            assert(piece_views(parts@).push(cur@) =~= before.push(Seq::empty()));
        } else {
            cur.push(c);
            assert(piece_views(parts@).push(cur@) =~= before.update(
                before.len() - 1,
                before.last().push(c),
            ));
        }
        i = i + 1;
    }
    parts.push(cur);
    assert(v@.take(v.len() as int) =~= v@);
    assert(piece_views(parts@) =~= split_by(v@, separator(list)));
    parts
}

/// Characters that are not separators extend the last piece.
proof fn lemma_split_extend(p: Seq<char>, b: Seq<char>, sep: spec_fn(char) -> bool)
    requires
        forall|i: int| 0 <= i < b.len() ==> !sep(#[trigger] b[i]),
    ensures
        split_by(p + b, sep) == split_by(p, sep).update(
            split_by(p, sep).len() - 1,
            split_by(p, sep).last() + b,
        ),
    decreases b.len(),
{
    lemma_split_nonempty(p, sep);
    let r = split_by(p, sep);
    if b.len() == 0 {
        assert(p + b =~= p);
        assert(r.last() + b =~= r.last());
        assert(r.update(r.len() - 1, r.last() + b) =~= r);
    } else {
        let b0 = b.drop_last();
        assert forall|i: int| 0 <= i < b0.len() implies !sep(#[trigger] b0[i]) by {
            assert(b0[i] == b[i]);
        }
        lemma_split_extend(p, b0, sep);
        assert((p + b).drop_last() =~= p + b0);
        assert((p + b).last() == b.last());
        assert(!sep(b[b.len() - 1]));
        let r0 = r.update(r.len() - 1, r.last() + b0);
        assert(r0.last() == r.last() + b0);
        assert(r0.last().push(b.last()) =~= r.last() + b);
        assert(r0.update(r0.len() - 1, r0.last().push(b.last())) =~= r.update(
            r.len() - 1,
            r.last() + b,
        ));
    }
}

/// Splitting at a separator undoes joining with it: when no piece holds a separator,
/// `join(parts, [c]).split(c)` gives `parts` back.
pub proof fn law_split_undoes_join(parts: Seq<Seq<char>>, c: char, sep: spec_fn(char) -> bool)
    requires
        parts.len() >= 1,
        sep(c),
        forall|k: int, i: int|
            0 <= k < parts.len() && 0 <= i < parts[k].len() ==> !sep(#[trigger] parts[k][i]),
    ensures
        split_by(join(parts, seq![c]), sep) == parts,
    decreases parts.len(),
{
    if parts.len() == 1 {
        let e = Seq::<char>::empty();
        assert forall|i: int| 0 <= i < parts[0].len() implies !sep(#[trigger] parts[0][i]) by {
            assert(!sep(parts[0][i]));
        }
        lemma_split_extend(e, parts[0], sep);
        assert(e + parts[0] =~= parts[0]);
        assert(split_by(e, sep) =~= seq![e]);
        assert(seq![e].update(0, e + parts[0]) =~= parts);
    } else {
        let front = parts.drop_last();
        assert forall|k: int, i: int|
            0 <= k < front.len() && 0 <= i < front[k].len() implies !sep(
            #[trigger] front[k][i],
        ) by {
            assert(front[k] == parts[k]);
        }
        law_split_undoes_join(front, c, sep);
        let j = join(front, seq![c]);
        let last = parts.last();
        assert forall|i: int| 0 <= i < last.len() implies !sep(#[trigger] last[i]) by {
            assert(last == parts[parts.len() - 1]);
        }
        lemma_split_extend(j + seq![c], last, sep);
        assert((j + seq![c]).drop_last() =~= j);
        assert((j + seq![c]).last() == c);
        let r = split_by(j + seq![c], sep);
        assert(r == front.push(Seq::empty()));
        assert(Seq::<char>::empty() + last =~= last);
        assert(r.update(r.len() - 1, r.last() + last) =~= parts);
    }
}

/// Splitting at a separator character splits the text on each side of it.
pub proof fn lemma_split_concat(a: Seq<char>, c: char, b: Seq<char>, sep: spec_fn(char) -> bool)
    requires
        sep(c),
    ensures
        split_by(a + seq![c] + b, sep) == split_by(a, sep) + split_by(b, sep),
    decreases b.len(),
{
    let s = a + seq![c] + b;
    if b.len() == 0 {
        assert(s.drop_last() =~= a);
        assert(split_by(b, sep) =~= seq![Seq::<char>::empty()]);
        assert(split_by(a, sep).push(Seq::empty()) =~= split_by(a, sep) + split_by(b, sep));
    } else {
        let bd = b.drop_last();
        lemma_split_concat(a, c, bd, sep);
        lemma_split_nonempty(bd, sep);
        assert(s.drop_last() =~= a + seq![c] + bd);
        assert(s.last() == b.last());
        let x = split_by(a, sep);
        let y = split_by(bd, sep);
        if sep(b.last()) {
            assert((x + y).push(Seq::empty()) =~= x + y.push(Seq::empty()));
        } else {
            assert((x + y).update((x + y).len() - 1, (x + y).last().push(b.last())) =~= x + y.update(
                y.len() - 1,
                y.last().push(b.last()),
            ));
        }
    }
}

/// Text without separator characters is one piece.
pub proof fn lemma_split_single(p: Seq<char>, sep: spec_fn(char) -> bool)
    requires
        forall|i: int| 0 <= i < p.len() ==> !sep(#[trigger] p[i]),
    ensures
        split_by(p, sep) == seq![p],
{
    let e = Seq::<char>::empty();
    lemma_split_extend(e, p, sep);
    assert(e + p =~= p);
    assert(split_by(e, sep) =~= seq![e]);
    assert(seq![e].update(0, e + p) =~= seq![p]);
}

} // verus!
