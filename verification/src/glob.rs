//! Shell globs with the meaning of Python's `fnmatch`: case sensitive, matched
//! against the whole name.
//!
//! `*` matches any run of characters (`/` included), `?` any single one, `[...]`
//! one character out of a class and `[!...]` one character outside it.

use crate::text::chars_of;
use vstd::prelude::*;

verus! {

/// One piece of a compiled glob.
pub enum Tok {
    /// Any run of characters, the empty one included.
    Star,
    /// Any single character.
    Any,
    /// This character.
    Lit(char),
    /// One character inside, or with `neg` outside, the given ranges.
    Class { neg: bool, ranges: Vec<(char, char)> },
}

/// What a piece of a glob means.
#[verifier::ext_equal]
pub enum Piece {
    /// Any run of characters, the empty one included.
    Star,
    /// Any single character.
    Any,
    /// This character.
    Lit(char),
    /// One character inside, or with `neg` outside, the given ranges.
    Class { neg: bool, ranges: Seq<(char, char)> },
}

impl View for Tok {
    type V = Piece;

    open spec fn view(&self) -> Piece {
        match *self {
            Tok::Star => Piece::Star,
            Tok::Any => Piece::Any,
            Tok::Lit(c) => Piece::Lit(c),
            Tok::Class { neg, ranges } => Piece::Class { neg, ranges: ranges@ },
        }
    }
}

/// The meaning of a list of pieces.
pub open spec fn pieces(toks: Seq<Tok>) -> Seq<Piece> {
    toks.map_values(|t: Tok| t@)
}

/// Whether one of the ranges holds `c`. A range that runs backwards is empty.
pub open spec fn in_ranges(ranges: Seq<(char, char)>, c: char) -> bool {
    exists|k: int| 0 <= k < ranges.len() && (#[trigger] ranges[k]).0 <= c <= ranges[k].1
}

/// Whether a piece that stands for one character stands for `c`.
pub open spec fn piece_accepts(p: Piece, c: char) -> bool {
    match p {
        Piece::Star => false,
        Piece::Any => true,
        Piece::Lit(l) => l == c,
        Piece::Class { neg, ranges } => in_ranges(ranges, c) != neg,
    }
}

/// Whether the pieces, in order, cover the whole of `name`.
pub open spec fn covers(ps: Seq<Piece>, name: Seq<char>) -> bool
    decreases ps.len(), name.len(),
{
    if ps.len() == 0 {
        name.len() == 0
    } else if ps[0] is Star {
        ||| covers(ps.skip(1), name)
        ||| name.len() > 0 && covers(ps, name.skip(1))
    } else {
        name.len() > 0 && piece_accepts(ps[0], name[0]) && covers(ps.skip(1), name.skip(1))
    }
}

/// Whether the pieces from `j` on cover the name from `i` on.
spec fn rest_covers(ps: Seq<Piece>, name: Seq<char>, i: int, j: int) -> bool {
    covers(ps.skip(j), name.skip(i))
}

/// How `rest_covers` goes one step on.
proof fn lemma_step(ps: Seq<Piece>, name: Seq<char>, i: int, j: int)
    requires
        0 <= i <= name.len(),
        0 <= j <= ps.len(),
    ensures
        j == ps.len() ==> (rest_covers(ps, name, i, j) <==> i == name.len()),
        j < ps.len() && ps[j] is Star ==> (rest_covers(ps, name, i, j) <==> rest_covers(
            ps,
            name,
            i,
            j + 1,
        ) || (i < name.len() && rest_covers(ps, name, i + 1, j))),
        j < ps.len() && !(ps[j] is Star) ==> (rest_covers(ps, name, i, j) <==> i < name.len()
            && piece_accepts(ps[j], name[i]) && rest_covers(ps, name, i + 1, j + 1)),
{
    if j < ps.len() {
        assert(ps.skip(j)[0] == ps[j]);
        assert(ps.skip(j).skip(1) =~= ps.skip(j + 1));
    }
    if i < name.len() {
        assert(name.skip(i)[0] == name[i]);
        assert(name.skip(i).skip(1) =~= name.skip(i + 1));
    }
}

/// A star also takes what stands before the place where it can start.
proof fn lemma_star_starts_earlier(ps: Seq<Piece>, name: Seq<char>, i: int, k: int, j: int)
    requires
        0 <= i <= k <= name.len(),
        0 <= j < ps.len(),
        ps[j] is Star,
        rest_covers(ps, name, k, j),
    ensures
        rest_covers(ps, name, i, j),
    decreases k - i,
{
    if i < k {
        lemma_star_starts_earlier(ps, name, i + 1, k, j);
        lemma_step(ps, name, i, j);
    }
}

/// A star that covers a rest ends somewhere in it.
proof fn lemma_star_ends(ps: Seq<Piece>, name: Seq<char>, i: int, j: int) -> (k: int)
    requires
        0 <= i <= name.len(),
        0 <= j < ps.len(),
        ps[j] is Star,
        rest_covers(ps, name, i, j),
    ensures
        i <= k <= name.len(),
        rest_covers(ps, name, k, j + 1),
    decreases name.len() - i,
{
    lemma_step(ps, name, i, j);
    if rest_covers(ps, name, i, j + 1) {
        i
    } else {
        lemma_star_ends(ps, name, i + 1, j)
    }
}

/// Pieces other than stars take one character each.
proof fn lemma_plain_run(ps: Seq<Piece>, name: Seq<char>, i: int, j: int, n: int)
    requires
        0 <= i <= name.len(),
        0 <= j <= j + n <= ps.len(),
        forall|m: int| j <= m < j + n ==> !(#[trigger] ps[m] is Star),
        rest_covers(ps, name, i, j),
    ensures
        i + n <= name.len(),
        rest_covers(ps, name, i + n, j + n),
    decreases n,
{
    if n > 0 {
        lemma_step(ps, name, i, j);
        lemma_plain_run(ps, name, i + 1, j + 1, n - 1);
    }
}

/// Whether a piece stands for `c`; a star stands for no single character.
pub fn tok_matches(tok: &Tok, c: char) -> (res: bool)
    ensures
        res == piece_accepts(tok@, c),
{
    match tok {
        Tok::Any => true,
        Tok::Lit(l) => *l == c,
        Tok::Class { neg, ranges } => {
            let mut inside = false;
            let mut k: usize = 0;
            while k < ranges.len() && !inside
                invariant
                    k <= ranges.len(),
                    !inside ==> forall|m: int|
                        0 <= m < k ==> !((#[trigger] ranges[m]).0 <= c <= ranges[m].1),
                    inside ==> in_ranges(ranges@, c),
                decreases ranges.len() - k,
            {
                if ranges[k].0 <= c && c <= ranges[k].1 {
                    inside = true;
                }
                k += 1;
            }
            inside != *neg
        },
        Tok::Star => false,
    }
}

/// Whether the compiled glob matches the whole of `name`.
///
/// Walks the name once, and on a mismatch goes back to the last star alone: what an
/// earlier star could take more, the last one can take as well.
pub fn match_toks(toks: &Vec<Tok>, name: &Vec<char>) -> (res: bool)
    ensures
        res == covers(pieces(toks@), name@),
{
    let ghost ps = pieces(toks@);
    let mut i: usize = 0;
    let mut j: usize = 0;
    let mut star: Option<usize> = None;
    let mut star_i: usize = 0;
    proof {
        assert(ps.skip(0) =~= ps);
        assert(name@.skip(0) =~= name@);
    }
    while i < name.len()
        invariant
            ps == pieces(toks@),
            i <= name.len(),
            j <= toks.len(),
            star is None ==> covers(ps, name@) == rest_covers(ps, name@, i as int, j as int),
            star matches Some(sj) ==> {
                &&& sj < j
                &&& star_i <= i
                &&& i - star_i == j - (sj + 1)
                &&& ps[sj as int] is Star
                &&& forall|m: int| sj < m < j ==> !(#[trigger] ps[m] is Star)
                &&& covers(ps, name@) == rest_covers(ps, name@, star_i as int, sj as int)
                &&& rest_covers(ps, name@, star_i as int, sj + 1) == rest_covers(
                    ps,
                    name@,
                    i as int,
                    j as int,
                )
            },
        decreases
                toks.len() - (match star {
                    Some(sj) => sj as int,
                    None => -1int,
                }),
                name.len() - star_i,
                name.len() - i,
    {
        proof {
            lemma_step(ps, name@, i as int, j as int);
        }
        let at_star = j < toks.len() && matches!(toks[j], Tok::Star);
        if j < toks.len() && !at_star && tok_matches(&toks[j], name[i]) {
            i += 1;
            j += 1;
        } else if at_star {
            proof {
                lemma_star_absorbs(ps, name@, i as int, j as int, star, star_i as int);
            }
            star = Some(j);
            star_i = i;
            j += 1;
        } else if let Some(sj) = star {
            proof {
                lemma_step(ps, name@, star_i as int, sj as int);
            }
            j = sj + 1;
            star_i += 1;
            i = star_i;
        } else {
            return false;
        }
    }
    proof {
        if let Some(sj) = star {
            if rest_covers(ps, name@, star_i as int, sj as int) {
                let k = lemma_star_ends(ps, name@, star_i as int, sj as int);
                lemma_plain_run(ps, name@, k, sj + 1, j - (sj + 1));
            }
            lemma_step(ps, name@, star_i as int, sj as int);
        }
    }
    while j < toks.len() && matches!(toks[j], Tok::Star)
        invariant
            ps == pieces(toks@),
            i == name.len(),
            j <= toks.len(),
            covers(ps, name@) == rest_covers(ps, name@, i as int, j as int),
        decreases toks.len() - j,
    {
        proof {
            lemma_step(ps, name@, i as int, j as int);
        }
        j += 1;
    }
    proof {
        lemma_step(ps, name@, i as int, j as int);
    }
    j == toks.len()
}

/// At a new star, the star before it needs no second try.
proof fn lemma_star_absorbs(
    ps: Seq<Piece>,
    name: Seq<char>,
    i: int,
    j: int,
    star: Option<usize>,
    star_i: int,
)
    requires
        0 <= i <= name.len(),
        0 <= j < ps.len(),
        ps[j] is Star,
        star is None ==> covers(ps, name) == rest_covers(ps, name, i, j),
        star matches Some(sj) ==> {
            &&& sj < j
            &&& 0 <= star_i <= i
            &&& i - star_i == j - (sj + 1)
            &&& ps[sj as int] is Star
            &&& forall|m: int| sj < m < j ==> !(#[trigger] ps[m] is Star)
            &&& covers(ps, name) == rest_covers(ps, name, star_i, sj as int)
            &&& rest_covers(ps, name, star_i, sj + 1) == rest_covers(ps, name, i, j)
        },
    ensures
        covers(ps, name) == rest_covers(ps, name, i, j),
{
    if let Some(sj) = star {
        lemma_step(ps, name, star_i, sj as int);
        if rest_covers(ps, name, star_i, sj as int) {
            let k = lemma_star_ends(ps, name, star_i, sj as int);
            lemma_plain_run(ps, name, k, sj + 1, j - (sj + 1));
            lemma_star_starts_earlier(ps, name, i, k + (j - (sj + 1)), j);
        }
    }
}

/// The first `]` in `p` at or after `from`, or the length of `p` where there is none.
pub open spec fn first_close(p: Seq<char>, from: int) -> int
    decreases p.len() - from,
{
    if from >= p.len() {
        p.len() as int
    } else if p[from] == ']' {
        from
    } else {
        first_close(p, from + 1)
    }
}

/// Where the class that `p` opens with closes, or the length of `p` where it does not.
///
/// A `]` that comes first, right behind the `[` or the `[!`, is a member of the class.
pub open spec fn class_end(p: Seq<char>) -> int {
    let first = if p.len() > 1 && p[1] == '!' {
        2int
    } else {
        1int
    };
    let after = if first < p.len() && p[first] == ']' {
        first + 1
    } else {
        first
    };
    first_close(p, after)
}

/// The ranges that the members of a class spell: `a-c` is a range, and any other
/// character, a `-` at either end included, is a range of its own.
pub open spec fn class_ranges(members: Seq<char>) -> Seq<(char, char)>
    decreases members.len(),
{
    if members.len() == 0 {
        Seq::empty()
    } else if members.len() > 2 && members[1] == '-' {
        seq![(members[0], members[2])] + class_ranges(members.skip(3))
    } else {
        seq![(members[0], members[0])] + class_ranges(members.skip(1))
    }
}

/// The class between the two brackets: a leading `!` negates it.
pub open spec fn class_piece(body: Seq<char>) -> Piece {
    if body.len() > 0 && body[0] == '!' {
        Piece::Class { neg: true, ranges: class_ranges(body.skip(1)) }
    } else {
        Piece::Class { neg: false, ranges: class_ranges(body) }
    }
}

/// Whether `p` begins with a class that closes.
pub open spec fn opens_class(p: Seq<char>) -> bool {
    p.len() > 0 && p[0] == '[' && class_end(p) < p.len()
}

/// The piece that the glob `p` begins with. A `[` that opens no class is a plain
/// character.
pub open spec fn first_piece(p: Seq<char>) -> Piece {
    if p[0] == '*' {
        Piece::Star
    } else if p[0] == '?' {
        Piece::Any
    } else if opens_class(p) {
        class_piece(p.subrange(1, class_end(p)))
    } else {
        Piece::Lit(p[0])
    }
}

/// How many characters of `p` spell its first piece.
pub open spec fn first_piece_len(p: Seq<char>) -> int {
    if opens_class(p) {
        class_end(p) + 1
    } else {
        1
    }
}

/// The pieces that a glob is made of.
pub open spec fn parse_glob(p: Seq<char>) -> Seq<Piece>
    decreases p.len(),
{
    if p.len() == 0 {
        Seq::empty()
    } else {
        proof {
            lemma_first_piece_len(p);
        }
        seq![first_piece(p)] + parse_glob(p.skip(first_piece_len(p)))
    }
}

/// Whether the glob `pattern` matches the whole of `name`.
pub open spec fn glob_matches(name: Seq<char>, pattern: Seq<char>) -> bool {
    covers(parse_glob(pattern), name)
}

proof fn lemma_pieces_push(toks: Seq<Tok>, tok: Tok)
    ensures
        pieces(toks.push(tok)) == pieces(toks).push(tok@),
{
    assert(pieces(toks.push(tok)) =~= pieces(toks).push(tok@));
}

proof fn lemma_first_close(p: Seq<char>, from: int)
    requires
        0 <= from,
    ensures
        from <= first_close(p, from) || first_close(p, from) == p.len(),
    decreases p.len() - from,
{
    if from < p.len() && p[from] != ']' {
        lemma_first_close(p, from + 1);
    }
}

/// The first piece of a glob takes at least one character, and no more than there are.
pub proof fn lemma_first_piece_len(p: Seq<char>)
    requires
        p.len() > 0,
    ensures
        1 <= first_piece_len(p) <= p.len(),
{
    lemma_first_close(p, 1);
    lemma_first_close(p, 2);
    lemma_first_close(p, 3);
}

/// The class between the two brackets of a glob.
pub fn parse_class(body: &[char]) -> (res: Tok)
    ensures
        res@ == class_piece(body@),
{
    let mut neg = false;
    let mut idx: usize = 0;
    if body.len() > 0 && body[0] == '!' {
        neg = true;
        idx = 1;
    }
    let ghost members = body@.skip(idx as int);
    let mut ranges: Vec<(char, char)> = Vec::new();
    proof {
        assert(body@.skip(0) =~= body@);
    }
    while idx < body.len()
        invariant
            idx <= body.len(),
            class_ranges(members) =~= ranges@ + class_ranges(body@.skip(idx as int)),
        decreases body.len() - idx,
    {
        let ghost rest = body@.skip(idx as int);
        if body.len() - idx > 2 && body[idx + 1] == '-' {
            ranges.push((body[idx], body[idx + 2]));
            proof {
                assert(rest.skip(3) =~= body@.skip(idx + 3));
            }
            idx += 3;
        } else {
            ranges.push((body[idx], body[idx]));
            proof {
                assert(rest.skip(1) =~= body@.skip(idx + 1));
            }
            idx += 1;
        }
    }
    Tok::Class { neg, ranges }
}

/// Compiles a glob into its pieces.
pub fn compile(pattern: &[char]) -> (res: Vec<Tok>)
    ensures
        pieces(res@) == parse_glob(pattern@),
{
    let mut toks: Vec<Tok> = Vec::new();
    let mut i: usize = 0;
    proof {
        assert(pattern@.skip(0) =~= pattern@);
    }
    while i < pattern.len()
        invariant
            i <= pattern.len(),
            parse_glob(pattern@) =~= pieces(toks@) + parse_glob(pattern@.skip(i as int)),
        decreases pattern.len() - i,
    {
        let ghost rest = pattern@.skip(i as int);
        proof {
            assert(rest.skip(1) =~= pattern@.skip(i + 1));
        }
        let c = pattern[i];
        let mut next: usize = i + 1;
        let tok = if c == '*' {
            Tok::Star
        } else if c == '?' {
            Tok::Any
        } else if c == '[' {
            let mut j: usize = i + 1;
            if j < pattern.len() && pattern[j] == '!' {
                j += 1;
            }
            if j < pattern.len() && pattern[j] == ']' {
                j += 1;
            }
            while j < pattern.len() && pattern[j] != ']'
                invariant
                    i < j <= pattern.len(),
                    rest == pattern@.skip(i as int),
                    class_end(rest) == first_close(rest, j - i),
                decreases pattern.len() - j,
            {
                j += 1;
            }
            if j >= pattern.len() {
                Tok::Lit('[')
            } else {
                proof {
                    assert(rest.subrange(1, j - i) =~= pattern@.subrange(i + 1, j as int));
                    assert(rest.skip(j - i + 1) =~= pattern@.skip(j + 1));
                }
                next = j + 1;
                parse_class(&pattern[i + 1..j])
            }
        } else {
            Tok::Lit(c)
        };
        proof {
            assert(tok@ == first_piece(rest));
            assert(next - i == first_piece_len(rest));
            assert(rest.skip(next - i) =~= pattern@.skip(next as int));
            lemma_pieces_push(toks@, tok);
        }
        toks.push(tok);
        i = next;
    }
    toks
}

/// Whether the glob `pattern` matches the whole of `name`.
pub fn fnmatch(name: &str, pattern: &str) -> (res: bool)
    ensures
        res == glob_matches(name@, pattern@),
{
    let toks = compile(chars_of(pattern).as_slice());
    let name = chars_of(name);
    match_toks(&toks, &name)
}

/// Whether no character of `text` has a meaning of its own in a glob.
pub open spec fn is_plain(text: Seq<char>) -> bool {
    forall|k: int|
        0 <= k < text.len() ==> (#[trigger] text[k]) != '*' && text[k] != '?' && text[k] != '['
}

spec fn literal(c: char) -> Piece {
    Piece::Lit(c)
}

spec fn literals(text: Seq<char>) -> Seq<Piece> {
    Seq::new(text.len(), |k: int| literal(text[k]))
}

proof fn lemma_parse_plain(text: Seq<char>, rest: Seq<char>)
    requires
        is_plain(text),
    ensures
        parse_glob(text + rest) == literals(text) + parse_glob(rest),
    decreases text.len(),
{
    if text.len() == 0 {
        assert(text + rest =~= rest);
        assert(literals(text) + parse_glob(rest) =~= parse_glob(rest));
    } else {
        let p = text + rest;
        let tail = text.skip(1);
        assert forall|k: int| 0 <= k < tail.len() implies (#[trigger] tail[k]) != '*' && tail[k]
            != '?' && tail[k] != '[' by {
            assert(tail[k] == text[k + 1]);
        }
        lemma_parse_plain(tail, rest);
        assert(p[0] == text[0]);
        assert(p.skip(1) =~= tail + rest);
        assert(literals(text) =~= seq![literal(text[0])] + literals(tail));
        assert(literals(text) + parse_glob(rest) =~= seq![literal(text[0])] + (literals(tail)
            + parse_glob(rest)));
    }
}

proof fn lemma_covers_literals(text: Seq<char>, rest: Seq<Piece>, name: Seq<char>)
    ensures
        covers(literals(text) + rest, name) <==> text.is_prefix_of(name) && covers(
            rest,
            name.skip(text.len() as int),
        ),
    decreases text.len(),
{
    let ps = literals(text) + rest;
    if text.len() == 0 {
        assert(ps =~= rest);
        assert(name.skip(0) =~= name);
    } else {
        let tail = text.skip(1);
        assert(ps[0] == Piece::Lit(text[0]));
        assert(ps.skip(1) =~= literals(tail) + rest);
        if name.len() > 0 {
            let name_tail = name.skip(1);
            lemma_covers_literals(tail, rest, name_tail);
            if text.len() <= name.len() {
                assert(name_tail.skip(tail.len() as int) =~= name.skip(text.len() as int));
            }
            if text[0] == name[0] {
                if tail.is_prefix_of(name_tail) {
                    assert forall|k: int| 0 <= k < text.len() implies text[k] == name[k] by {
                        if k > 0 {
                            assert(tail[k - 1] == name_tail[k - 1]);
                        }
                    }
                    assert(text =~= name.subrange(0, text.len() as int));
                }
                if text.is_prefix_of(name) {
                    assert forall|k: int| 0 <= k < tail.len() implies tail[k] == name_tail[k] by {
                        assert(text[k + 1] == name[k + 1]);
                    }
                    assert(tail =~= name_tail.subrange(0, tail.len() as int));
                }
            }
        }
    }
}

proof fn lemma_covers_star(rest: Seq<Piece>, name: Seq<char>)
    ensures
        covers(seq![Piece::Star] + rest, name) <==> exists|k: int|
            0 <= k <= name.len() && #[trigger] covers(rest, name.skip(k)),
    decreases name.len(),
{
    let ps = seq![Piece::Star] + rest;
    assert(ps.skip(1) =~= rest);
    assert(name.skip(0) =~= name);
    assert(covers(rest, name) == covers(rest, name.skip(0)));
    if name.len() > 0 {
        let tail = name.skip(1);
        lemma_covers_star(rest, tail);
        if covers(ps, tail) {
            let k = choose|k: int| 0 <= k <= tail.len() && #[trigger] covers(rest, tail.skip(k));
            assert(tail.skip(k) =~= name.skip(k + 1));
            assert(covers(rest, name.skip(k + 1)));
        }
        assert forall|k: int| 0 < k <= name.len() && #[trigger] covers(rest, name.skip(k)) implies
            covers(ps, tail) by {
            assert(tail.skip(k - 1) =~= name.skip(k));
        }
    }
}

/// A glob without `*`, `?` and `[` matches the name that it spells, and no other.
pub proof fn law_plain_glob(name: Seq<char>, text: Seq<char>)
    requires
        is_plain(text),
    ensures
        glob_matches(name, text) <==> name == text,
{
    lemma_parse_plain(text, Seq::empty());
    assert(text + Seq::<char>::empty() =~= text);
    lemma_covers_literals(text, Seq::empty(), name);
    if text.is_prefix_of(name) && name.len() == text.len() {
        assert(name =~= text);
    }
    if name == text {
        assert(text =~= name.subrange(0, text.len() as int));
    }
}

/// A plain text with a `*` behind it matches the names that begin with the text. So `*`
/// alone matches every name.
pub proof fn law_prefix_glob(name: Seq<char>, text: Seq<char>)
    requires
        is_plain(text),
    ensures
        glob_matches(name, text.push('*')) <==> text.is_prefix_of(name),
{
    lemma_parse_plain(text, seq!['*']);
    assert(text + seq!['*'] =~= text.push('*'));
    lemma_parse_star();
    lemma_covers_literals(text, seq![Piece::Star], name);
    if text.is_prefix_of(name) {
        lemma_lone_star(name.skip(text.len() as int));
    }
}

/// A plain text between two `*` matches the names that contain the text.
pub proof fn law_infix_glob(name: Seq<char>, text: Seq<char>)
    requires
        is_plain(text),
    ensures
        glob_matches(name, seq!['*'] + text.push('*')) <==> exists|k: int|
            0 <= k <= name.len() && #[trigger] text.is_prefix_of(name.skip(k)),
{
    let p = seq!['*'] + text.push('*');
    assert(p.skip(1) =~= text.push('*'));
    assert(p[0] == '*');
    lemma_covers_star(parse_glob(text.push('*')), name);
    assert forall|k: int| 0 <= k <= name.len() implies #[trigger] covers(
        parse_glob(text.push('*')),
        name.skip(k),
    ) == text.is_prefix_of(name.skip(k)) by {
        law_prefix_glob(name.skip(k), text);
    }
    if glob_matches(name, p) {
        let k = choose|k: int|
            0 <= k <= name.len() && #[trigger] covers(parse_glob(text.push('*')), name.skip(k));
        assert(text.is_prefix_of(name.skip(k)));
    }
    if exists|k: int| 0 <= k <= name.len() && #[trigger] text.is_prefix_of(name.skip(k)) {
        let k = choose|k: int| 0 <= k <= name.len() && #[trigger] text.is_prefix_of(name.skip(k));
        assert(covers(parse_glob(text.push('*')), name.skip(k)));
    }
}

/// A `*` with a plain text behind it matches the names that end with the text.
pub proof fn law_suffix_glob(name: Seq<char>, text: Seq<char>)
    requires
        is_plain(text),
    ensures
        glob_matches(name, seq!['*'] + text) <==> text.is_suffix_of(name),
{
    let p = seq!['*'] + text;
    assert(p.skip(1) =~= text);
    assert(p[0] == '*');
    lemma_covers_star(parse_glob(text), name);
    assert forall|k: int| 0 <= k <= name.len() implies #[trigger] covers(
        parse_glob(text),
        name.skip(k),
    ) == (name.skip(k) == text) by {
        law_plain_glob(name.skip(k), text);
    }
    if text.is_suffix_of(name) {
        let k = name.len() - text.len();
        assert(name.skip(k) =~= text);
        assert(covers(parse_glob(text), name.skip(k)));
    }
    if glob_matches(name, p) {
        let k = choose|k: int| 0 <= k <= name.len() && #[trigger] covers(parse_glob(text), name.skip(k));
        assert(name.skip(k) == text);
        assert(text =~= name.subrange(name.len() - text.len(), name.len() as int));
    }
}

proof fn lemma_parse_star()
    ensures
        parse_glob(seq!['*']) == seq![Piece::Star],
{
    let p = seq!['*'];
    assert(p.skip(1) =~= Seq::empty());
    assert(parse_glob(p.skip(1)) =~= Seq::empty());
    assert(parse_glob(p) =~= seq![Piece::Star]);
}

proof fn lemma_lone_star(name: Seq<char>)
    ensures
        covers(seq![Piece::Star], name),
{
    let empty = Seq::<Piece>::empty();
    assert(seq![Piece::Star] + empty =~= seq![Piece::Star]);
    lemma_covers_star(empty, name);
    assert(covers(empty, name.skip(name.len() as int)));
}

/// `?` matches the names of one character.
pub proof fn law_any_glob(name: Seq<char>)
    ensures
        glob_matches(name, seq!['?']) <==> name.len() == 1,
{
    let p = seq!['?'];
    assert(p.skip(1) =~= Seq::empty());
    assert(parse_glob(p.skip(1)) =~= Seq::empty());
    assert(parse_glob(p) =~= seq![Piece::Any]);
    assert(seq![Piece::Any].skip(1) =~= Seq::empty());
    reveal_with_fuel(covers, 2);
}

/// A list of no pieces covers the empty name alone.
pub proof fn law_no_pieces(name: Seq<char>)
    ensures
        covers(Seq::empty(), name) <==> name.len() == 0,
{
}

/// A piece other than a star covers the names of one character that the piece stands for.
pub proof fn law_one_piece(p: Piece, name: Seq<char>)
    requires
        !(p is Star),
    ensures
        covers(seq![p], name) <==> name.len() == 1 && piece_accepts(p, name[0]),
{
    let ps = seq![p];
    assert(ps.skip(1) =~= Seq::empty());
    reveal_with_fuel(covers, 2);
}

/// A star covers every name.
pub proof fn law_star_covers_all(name: Seq<char>)
    ensures
        covers(seq![Piece::Star], name),
{
    lemma_lone_star(name);
}

/// Two lists of pieces, one behind the other, cover the names that fall into two parts, the first
/// covered by the one list and the second by the other.
pub proof fn law_pieces_in_order(a: Seq<Piece>, b: Seq<Piece>, name: Seq<char>)
    ensures
        covers(a + b, name) <==> exists|k: int|
            0 <= k <= name.len() && #[trigger] covers(a, name.take(k)) && covers(b, name.skip(k)),
    decreases a.len(), name.len(),
{
    let ps = a + b;
    if a.len() == 0 {
        assert(ps =~= b);
        assert(name.skip(0) =~= name);
        assert(covers(a, name.take(0)));
    } else {
        let rest = a.skip(1);
        assert(ps[0] == a[0]);
        assert(ps.skip(1) =~= rest + b);
        if a[0] is Star {
            law_pieces_in_order(rest, b, name);
            if name.len() > 0 {
                law_pieces_in_order(a, b, name.skip(1));
            }
            if covers(rest + b, name) {
                let k = choose|k: int|
                    0 <= k <= name.len() && #[trigger] covers(rest, name.take(k)) && covers(
                        b,
                        name.skip(k),
                    );
                assert(covers(a, name.take(k)));
            } else if covers(ps, name) {
                let tail = name.skip(1);
                let k = choose|k: int|
                    0 <= k <= tail.len() && #[trigger] covers(a, tail.take(k)) && covers(
                        b,
                        tail.skip(k),
                    );
                assert(name.take(k + 1).skip(1) =~= tail.take(k));
                assert(tail.skip(k) =~= name.skip(k + 1));
                assert(covers(a, name.take(k + 1)));
            }
            assert forall|k: int| 0 <= k <= name.len() && #[trigger] covers(a, name.take(k))
                && covers(b, name.skip(k)) implies covers(ps, name) by {
                if covers(rest, name.take(k)) {
                    assert(covers(rest + b, name));
                } else {
                    let tail = name.skip(1);
                    assert(name.take(k).skip(1) =~= tail.take(k - 1));
                    assert(tail.skip(k - 1) =~= name.skip(k));
                    assert(covers(a, tail.take(k - 1)));
                }
            }
        } else {
            if name.len() > 0 {
                law_pieces_in_order(rest, b, name.skip(1));
            }
            if covers(ps, name) {
                let tail = name.skip(1);
                let k = choose|k: int|
                    0 <= k <= tail.len() && #[trigger] covers(rest, tail.take(k)) && covers(
                        b,
                        tail.skip(k),
                    );
                assert(name.take(k + 1).skip(1) =~= tail.take(k));
                assert(tail.skip(k) =~= name.skip(k + 1));
                assert(covers(a, name.take(k + 1)));
            }
            assert forall|k: int| 0 <= k <= name.len() && #[trigger] covers(a, name.take(k))
                && covers(b, name.skip(k)) implies covers(ps, name) by {
                let tail = name.skip(1);
                assert(name.take(k)[0] == name[0]);
                assert(name.take(k).skip(1) =~= tail.take(k - 1));
                assert(tail.skip(k - 1) =~= name.skip(k));
                assert(covers(rest, tail.take(k - 1)));
            }
        }
    }
}

/// What each piece stands for: a star for no single character, `?` for every one, a plain
/// character for itself, and a class for what lies in one of its ranges, or in none of them.
pub proof fn law_pieces_stand_for(l: char, ranges: Seq<(char, char)>, c: char)
    ensures
        !piece_accepts(Piece::Star, c),
        piece_accepts(Piece::Any, c),
        piece_accepts(Piece::Lit(l), c) <==> c == l,
        piece_accepts(Piece::Class { neg: false, ranges }, c) <==> exists|k: int|
            0 <= k < ranges.len() && (#[trigger] ranges[k]).0 <= c && c <= ranges[k].1,
        piece_accepts(Piece::Class { neg: true, ranges }, c) <==> forall|k: int|
            0 <= k < ranges.len() ==> !((#[trigger] ranges[k]).0 <= c && c <= ranges[k].1),
{
}

/// A compiled piece means what its name says, and a list of them means what each one does.
pub proof fn law_compiled_pieces(toks: Seq<Tok>, k: int)
    requires
        0 <= k < toks.len(),
    ensures
        pieces(toks).len() == toks.len(),
        match toks[k] {
            Tok::Star => pieces(toks)[k] == Piece::Star,
            Tok::Any => pieces(toks)[k] == Piece::Any,
            Tok::Lit(c) => pieces(toks)[k] == Piece::Lit(c),
            Tok::Class { neg, ranges } => pieces(toks)[k] == (Piece::Class { neg, ranges: ranges@ }),
        },
{
}

/// The empty glob matches the empty name alone.
pub proof fn law_empty_glob(name: Seq<char>)
    ensures
        glob_matches(name, Seq::empty()) <==> name.len() == 0,
{
}

/// A character without a meaning of its own matches itself, and what stands behind it in the glob
/// has to match what stands behind it in the name.
pub proof fn law_literal_then(name: Seq<char>, c: char, rest: Seq<char>)
    requires
        c != '*',
        c != '?',
        c != '[',
    ensures
        glob_matches(name, seq![c] + rest) <==> name.len() > 0 && name[0] == c && glob_matches(
            name.skip(1),
            rest,
        ),
{
    let p = seq![c] + rest;
    assert(p[0] == c);
    assert(p.skip(1) =~= rest);
    lemma_covers_first(p, name);
}

/// `?` matches any one character, and what stands behind it in the glob has to match what stands
/// behind that character.
pub proof fn law_any_then(name: Seq<char>, rest: Seq<char>)
    ensures
        glob_matches(name, seq!['?'] + rest) <==> name.len() > 0 && glob_matches(
            name.skip(1),
            rest,
        ),
{
    let p = seq!['?'] + rest;
    assert(p[0] == '?');
    assert(p.skip(1) =~= rest);
    lemma_covers_first(p, name);
}

/// `*` matches any run of characters, whatever they are, and what stands behind it in the glob has
/// to match what stands behind the run.
pub proof fn law_star_then(name: Seq<char>, rest: Seq<char>)
    ensures
        glob_matches(name, seq!['*'] + rest) <==> exists|k: int|
            0 <= k <= name.len() && #[trigger] glob_matches(name.skip(k), rest),
{
    let p = seq!['*'] + rest;
    assert(p[0] == '*');
    assert(p.skip(1) =~= rest);
    lemma_covers_star(parse_glob(rest), name);
    if glob_matches(name, p) {
        let k = choose|k: int|
            0 <= k <= name.len() && #[trigger] covers(parse_glob(rest), name.skip(k));
        assert(glob_matches(name.skip(k), rest));
    }
    if exists|k: int| 0 <= k <= name.len() && #[trigger] glob_matches(name.skip(k), rest) {
        let k = choose|k: int| 0 <= k <= name.len() && #[trigger] glob_matches(name.skip(k), rest);
        assert(covers(parse_glob(rest), name.skip(k)));
    }
}

/// How the first piece of a glob that is no star goes on.
proof fn lemma_covers_first(p: Seq<char>, name: Seq<char>)
    requires
        p.len() > 0,
        !(first_piece(p) is Star),
    ensures
        glob_matches(name, p) <==> name.len() > 0 && piece_accepts(first_piece(p), name[0])
            && glob_matches(name.skip(1), p.skip(first_piece_len(p))),
{
    let ps = parse_glob(p);
    let rest = parse_glob(p.skip(first_piece_len(p)));
    assert(ps == seq![first_piece(p)] + rest);
    assert(ps[0] == first_piece(p));
    assert(ps.skip(1) =~= rest);
}

/// The first `]` is where there is one and none before it.
proof fn lemma_first_close_at(p: Seq<char>, from: int, at: int)
    requires
        0 <= from <= at <= p.len(),
        at < p.len() ==> p[at] == ']',
        forall|k: int| from <= k < at ==> #[trigger] p[k] != ']',
    ensures
        first_close(p, from) == at,
    decreases at - from,
{
    if from < at {
        lemma_first_close_at(p, from + 1, at);
    }
}

/// What stands between a `[` and the `]` that closes it is a class: it matches one character that
/// the class accepts. The class has a member, with a `!` before it or not, and no `]` but as its
/// first member.
pub proof fn law_class_then(name: Seq<char>, body: Seq<char>, rest: Seq<char>)
    requires
        body.len() > (if body.len() > 0 && body[0] == '!' {
            1int
        } else {
            0int
        }),
        forall|k: int|
            (if body[0] == '!' {
                1int
            } else {
                0int
            }) < k < body.len() ==> #[trigger] body[k] != ']',
    ensures
        glob_matches(name, seq!['['] + body + seq![']'] + rest) <==> name.len() > 0
            && piece_accepts(class_piece(body), name[0]) && glob_matches(name.skip(1), rest),
{
    let p = seq!['['] + body + seq![']'] + rest;
    let end = (body.len() + 1) as int;
    assert(p[0] == '[');
    assert(p[1] == body[0]);
    assert(p[end] == ']');
    assert forall|k: int| 1 <= k < end implies #[trigger] p[k] == body[k - 1] by {}
    let first = if body[0] == '!' {
        2int
    } else {
        1int
    };
    let after = if p[first] == ']' {
        first + 1
    } else {
        first
    };
    lemma_first_close_at(p, after, end);
    assert(class_end(p) == end);
    assert(p.subrange(1, end) =~= body);
    assert(p.skip(end + 1) =~= rest);
    lemma_covers_first(p, name);
}

/// A `[` that nothing closes is a plain character. A `]` right behind the `[`, or the `[!`, closes
/// nothing.
pub proof fn law_unclosed_bracket_then(name: Seq<char>, rest: Seq<char>)
    requires
        forall|k: int|
            (if rest[0] == '!' {
                1int
            } else {
                0int
            }) < k < rest.len() ==> #[trigger] rest[k] != ']',
    ensures
        glob_matches(name, seq!['['] + rest) <==> name.len() > 0 && name[0] == '[' && glob_matches(
            name.skip(1),
            rest,
        ),
{
    let p = seq!['['] + rest;
    assert(p[0] == '[');
    assert(p.skip(1) =~= rest);
    assert forall|k: int| 1 <= k < p.len() implies #[trigger] p[k] == rest[k - 1] by {}
    let first = if p.len() > 1 && p[1] == '!' {
        2int
    } else {
        1int
    };
    if p.len() > 1 {
        assert(p[1] == rest[0]);
    }
    let after = if first < p.len() && p[first] == ']' {
        first + 1
    } else {
        first
    };
    if after <= p.len() {
        lemma_first_close_at(p, after, p.len() as int);
    }
    assert(class_end(p) == p.len());
    lemma_covers_first(p, name);
}

/// A `!` in front of the members of a class turns its answer round, for every character.
pub proof fn law_negated_class(members: Seq<char>, c: char)
    requires
        members.len() == 0 || members[0] != '!',
    ensures
        piece_accepts(class_piece(seq!['!'] + members), c) == !piece_accepts(
            class_piece(members),
            c,
        ),
{
    assert((seq!['!'] + members).skip(1) =~= members);
}

proof fn lemma_in_ranges_cons(first: (char, char), rest: Seq<(char, char)>, c: char)
    ensures
        in_ranges(seq![first] + rest, c) <==> first.0 <= c <= first.1 || in_ranges(rest, c),
{
    let all = seq![first] + rest;
    assert(all[0] == first);
    if in_ranges(all, c) && !(first.0 <= c <= first.1) {
        let k = choose|k: int| 0 <= k < all.len() && (#[trigger] all[k]).0 <= c <= all[k].1;
        assert(rest[k - 1] == all[k]);
    }
    if in_ranges(rest, c) {
        let k = choose|k: int| 0 <= k < rest.len() && (#[trigger] rest[k]).0 <= c <= rest[k].1;
        assert(all[k + 1] == rest[k]);
    }
}

/// A class without members holds no character: negated, it accepts every one.
pub proof fn law_class_of_nothing(c: char)
    ensures
        !piece_accepts(class_piece(Seq::empty()), c),
        piece_accepts(class_piece(seq!['!']), c),
{
    assert(seq!['!'].skip(1) =~= Seq::<char>::empty());
}

/// A range holds what lies between its ends, both included, and the members behind it hold what
/// they hold on their own. Said of the negated class, in which every character behind the `!` is a
/// member.
pub proof fn law_range_then(a: char, b: char, rest: Seq<char>, c: char)
    ensures
        piece_accepts(class_piece(seq!['!', a, '-', b] + rest), c) <==> !(a <= c && c <= b)
            && piece_accepts(class_piece(seq!['!'] + rest), c),
{
    let members = seq![a, '-', b] + rest;
    assert((seq!['!', a, '-', b] + rest).skip(1) =~= members);
    assert((seq!['!'] + rest).skip(1) =~= rest);
    assert(members.skip(3) =~= rest);
    lemma_in_ranges_cons((a, b), class_ranges(rest), c);
}

/// A member that starts no range holds itself alone, and the members behind it hold what they hold
/// on their own. A range takes a `-` and an end behind it. Said of the negated class, in which
/// every character behind the `!` is a member.
pub proof fn law_member_then(a: char, rest: Seq<char>, c: char)
    requires
        rest.len() < 2 || rest[0] != '-',
    ensures
        piece_accepts(class_piece(seq!['!', a] + rest), c) <==> c != a && piece_accepts(
            class_piece(seq!['!'] + rest),
            c,
        ),
{
    let members = seq![a] + rest;
    assert((seq!['!', a] + rest).skip(1) =~= members);
    assert((seq!['!'] + rest).skip(1) =~= rest);
    assert(members.skip(1) =~= rest);
    assert(members[0] == a);
    if members.len() > 2 {
        assert(members[1] == rest[0]);
    }
    lemma_in_ranges_cons((a, a), class_ranges(rest), c);
}

/// A class whose members hold no `-` accepts its members, and nothing else.
pub proof fn law_class_of_members(members: Seq<char>, c: char)
    requires
        members.len() == 0 || members[0] != '!',
        forall|k: int| 0 <= k < members.len() ==> #[trigger] members[k] != '-',
    ensures
        piece_accepts(class_piece(members), c) <==> exists|k: int|
            0 <= k < members.len() && #[trigger] members[k] == c,
{
    lemma_no_dash(members, c);
}

proof fn lemma_no_dash(members: Seq<char>, c: char)
    requires
        forall|k: int| 0 <= k < members.len() ==> #[trigger] members[k] != '-',
    ensures
        in_ranges(class_ranges(members), c) <==> exists|k: int|
            0 <= k < members.len() && #[trigger] members[k] == c,
    decreases members.len(),
{
    if members.len() > 0 {
        let rest = members.skip(1);
        assert forall|k: int| 0 <= k < rest.len() implies #[trigger] rest[k] != '-' by {
            assert(rest[k] == members[k + 1]);
        }
        lemma_no_dash(rest, c);
        lemma_in_ranges_cons((members[0], members[0]), class_ranges(rest), c);
        if exists|k: int| 0 <= k < rest.len() && #[trigger] rest[k] == c {
            let k = choose|k: int| 0 <= k < rest.len() && #[trigger] rest[k] == c;
            assert(members[k + 1] == c);
        }
        if exists|k: int| 0 <= k < members.len() && #[trigger] members[k] == c {
            let k = choose|k: int| 0 <= k < members.len() && #[trigger] members[k] == c;
            if k > 0 {
                assert(rest[k - 1] == c);
            }
        }
    }
}

/// A class that is one range accepts what lies between its ends; with more members behind the
/// range it accepts what they accept as well.
pub proof fn law_class_of_range(a: char, b: char, more: Seq<char>, c: char)
    requires
        a != '!',
        more.len() == 0 || more[0] != '!',
    ensures
        piece_accepts(class_piece(seq![a, '-', b]), c) <==> a <= c && c <= b,
        piece_accepts(class_piece(seq![a, '-', b] + more), c) <==> (a <= c && c <= b)
            || piece_accepts(class_piece(more), c),
{
    let empty = Seq::<char>::empty();
    let alone = seq![a, '-', b];
    assert(alone.skip(3) =~= empty);
    lemma_in_ranges_cons((a, b), class_ranges(empty), c);
    assert((alone + more).skip(3) =~= more);
    lemma_in_ranges_cons((a, b), class_ranges(more), c);
}

/// A glob that is one class of plain members matches the names that are one of them.
pub proof fn law_glob_of_members(name: Seq<char>, members: Seq<char>)
    requires
        members.len() > 0,
        members[0] != '!',
        forall|k: int|
            0 <= k < members.len() ==> #[trigger] members[k] != '-' && members[k] != ']',
    ensures
        glob_matches(name, seq!['['] + members + seq![']']) <==> name.len() == 1 && exists|k: int|
            0 <= k < members.len() && #[trigger] members[k] == name[0],
{
    let empty = Seq::<char>::empty();
    assert(seq!['['] + members + seq![']'] + empty =~= seq!['['] + members + seq![']']);
    law_class_then(name, members, empty);
    if name.len() > 0 {
        law_class_of_members(members, name[0]);
        law_empty_glob(name.skip(1));
    }
}

} // verus!
