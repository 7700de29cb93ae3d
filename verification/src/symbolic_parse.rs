//! Parsing and canonical rendering of symbolic facts: literals with an optional
//! negation, over plain atoms or predicates with argument lists.

use vstd::prelude::*;
use vstd::string::*;
use crate::errors::{HelixError, HelixFault};
use crate::text::{trim, trim_str, chars_of, string_from_chars, push_char, push_str, copy_string};
use crate::reasoning_types::{KrrTriple, TripleView};

verus! {

/// An atom: a plain name, or a predicate name with trimmed arguments.
#[derive(Debug, Clone, PartialEq, Eq)]
pub enum SymbolicAtom {
    Atom(String),
    Predicate { name: String, args: Vec<String> },
}

/// A fact: an atom, asserted or negated.
#[derive(Debug, Clone, PartialEq, Eq)]
pub struct SymbolicLiteral {
    pub negative: bool,
    pub atom: SymbolicAtom,
}

/// An atom with its texts taken as character sequences.
pub enum AtomView {
    Atom(Seq<char>),
    Predicate(Seq<char>, Seq<Seq<char>>),
}

/// A literal with its texts taken as character sequences.
pub struct LiteralView {
    pub negative: bool,
    pub atom: AtomView,
}

pub open spec fn strings_view(v: Seq<String>) -> Seq<Seq<char>> {
    v.map_values(|s: String| s@)
}

impl View for SymbolicAtom {
    type V = AtomView;

    open spec fn view(&self) -> AtomView {
        match self {
            SymbolicAtom::Atom(v) => AtomView::Atom(v@),
            SymbolicAtom::Predicate { name, args } => AtomView::Predicate(
                name@,
                strings_view(args@),
            ),
        }
    }
}

impl View for SymbolicLiteral {
    type V = LiteralView;

    open spec fn view(&self) -> LiteralView {
        LiteralView { negative: self.negative, atom: self.atom@ }
    }
}

/// `"not "`.
pub open spec fn not_prefix() -> Seq<char> {
    seq!['n', 'o', 't', ' ']
}

/// The arguments separated by commas.
pub open spec fn join_commas(args: Seq<Seq<char>>) -> Seq<char>
    decreases args.len(),
{
    if args.len() == 0 {
        Seq::empty()
    } else if args.len() == 1 {
        args[0]
    } else {
        join_commas(args.drop_last()) + seq![','] + args.last()
    }
}

/// Canonical text of an atom: the name, or `name(arg1,arg2,...)`.
pub open spec fn atom_canon(a: AtomView) -> Seq<char> {
    match a {
        AtomView::Atom(v) => v,
        AtomView::Predicate(n, args) => n + seq!['('] + join_commas(args) + seq![')'],
    }
}

/// Canonical text of a literal: its atom, preceded by `not ` when negated.
pub open spec fn literal_canon(l: LiteralView) -> Seq<char> {
    if l.negative {
        not_prefix() + atom_canon(l.atom)
    } else {
        atom_canon(l.atom)
    }
}

/// Position of the first `c` in `v`, or -1.
pub open spec fn index_of(v: Seq<char>, c: char) -> int
    decreases v.len(),
{
    if v.len() == 0 {
        -1
    } else if v[0] == c {
        0
    } else {
        let r = index_of(v.drop_first(), c);
        if r < 0 {
            -1
        } else {
            r + 1
        }
    }
}

proof fn lemma_index_of(v: Seq<char>, c: char)
    ensures
        -1 <= index_of(v, c) < v.len(),
        index_of(v, c) >= 0 ==> v[index_of(v, c)] == c,
        index_of(v, c) >= 0 ==> !v.subrange(0, index_of(v, c)).contains(c),
        index_of(v, c) < 0 <==> !v.contains(c),
    decreases v.len(),
{
    if v.len() > 0 {
        lemma_index_of(v.drop_first(), c);
        let r = index_of(v.drop_first(), c);
        if v[0] != c {
            if r >= 0 {
                let pre = v.subrange(0, r + 1);
                assert forall|k: int| 0 <= k < r + 1 implies #[trigger] pre[k] != c by {
                    if k > 0 {
                        assert(pre[k] == v.drop_first().subrange(0, r)[k - 1]);
                    }
                }
            } else {
                assert forall|k: int| 0 <= k < v.len() implies v[k] != c by {
                    if k > 0 {
                        assert(v[k] == v.drop_first()[k - 1]);
                    }
                }
            }
            if v.contains(c) {
                let k = choose|k: int| 0 <= k < v.len() && v[k] == c;
                assert(v.drop_first()[k - 1] == c);
            }
        } else {
            assert(v.contains(c)) by {
                assert(v[0] == c);
            }
        }
    }
}

/// Position of the last comma in `v`, or -1.
pub open spec fn last_comma(v: Seq<char>) -> int
    decreases v.len(),
{
    if v.len() == 0 {
        -1
    } else if v.last() == ',' {
        v.len() - 1
    } else {
        last_comma(v.drop_last())
    }
}

proof fn lemma_last_comma(v: Seq<char>)
    ensures
        -1 <= last_comma(v) < v.len(),
        last_comma(v) >= 0 ==> v[last_comma(v)] == ',',
        forall|k: int| last_comma(v) < k < v.len() ==> v[k] != ',',
    decreases v.len(),
{
    if v.len() > 0 && v.last() != ',' {
        lemma_last_comma(v.drop_last());
        assert forall|k: int| last_comma(v) < k < v.len() implies v[k] != ',' by {
            if k < v.len() - 1 {
                assert(v[k] == v.drop_last()[k]);
            }
        }
    }
}

/// The pieces of `v` between commas, as `str::split(',')` yields them.
pub open spec fn split_commas(v: Seq<char>) -> Seq<Seq<char>>
    decreases v.len(),
{
    let j = last_comma(v);
    if j < 0 || j >= v.len() {
        seq![v]
    } else {
        split_commas(v.subrange(0, j)) + seq![v.subrange(j + 1, v.len() as int)]
    }
}

/// The validation failure for a blank field.
pub open spec fn blank_fault(context: Seq<char>, field: Seq<char>) -> HelixFault {
    HelixFault::Validation(context, field + " must be non-empty"@)
}

/// `v` trimmed, or a validation failure when nothing is left.
pub open spec fn normalized(v: Seq<char>, context: Seq<char>, field: Seq<char>) -> Result<
    Seq<char>,
    HelixFault,
> {
    if trim(v).len() == 0 {
        Err(blank_fault(context, field))
    } else {
        Ok(trim(v))
    }
}

/// Trims `value`, failing when nothing is left.
pub fn normalize_non_empty(value: &str, context: &str, field: &str) -> (r: Result<
    String,
    HelixError,
>)
    ensures
        match r {
            Ok(s) => normalized(value@, context@, field@) == Ok::<Seq<char>, HelixFault>(s@),
            Err(e) => normalized(value@, context@, field@) == Err::<Seq<char>, HelixFault>(e@),
        },
{
    let t = trim_str(value);
    if t.as_str().unicode_len() == 0 {
        let mut m = String::from_str(field);
        push_str(&mut m, " must be non-empty");
        return Err(HelixError::ValidationError { context: String::from_str(context), message: m });
    }
    Ok(t)
}

/// Whether `v` begins with `not `.
pub open spec fn starts_with_not(v: Seq<char>) -> bool {
    v.len() >= 4 && v.subrange(0, 4) == not_prefix()
}

/// The polarity of a normalized fact and the text of its atom.
pub open spec fn polarity_of(v: Seq<char>) -> (bool, Seq<char>) {
    if v.len() > 0 && v[0] == '!' {
        (true, trim(v.subrange(1, v.len() as int)))
    } else if starts_with_not(v) {
        (true, trim(v.subrange(4, v.len() as int)))
    } else {
        (false, v)
    }
}

/// The atom written by `v`: a predicate when `v` has the shape
/// `name(arg,...)` with no nested parentheses, a plain atom otherwise.
pub open spec fn atom_parse(v: Seq<char>, context: Seq<char>) -> Result<AtomView, HelixFault> {
    let ends_close = v.len() > 0 && v.last() == ')';
    if !(v.contains('(') || ends_close) {
        Ok(AtomView::Atom(v))
    } else if !v.contains('(') {
        Ok(AtomView::Atom(v))
    } else {
        let o = index_of(v, '(');
        if !ends_close || v.subrange(0, o).contains('(') {
            Ok(AtomView::Atom(v))
        } else {
            let name = trim(v.subrange(0, o));
            if name.len() == 0 {
                Err(blank_fault(context, "fact predicate name"@))
            } else {
                let inner = v.subrange(o + 1, v.len() - 1);
                if inner.len() == 0 {
                    Ok(AtomView::Predicate(name, Seq::empty()))
                } else if inner.contains('(') || inner.contains(')') {
                    Ok(AtomView::Atom(v))
                } else {
                    let pieces = split_commas(inner);
                    if exists|i: int| 0 <= i < pieces.len() && trim(#[trigger] pieces[i]).len() == 0 {
                        Err(blank_fault(context, "fact argument"@))
                    } else {
                        Ok(AtomView::Predicate(name, pieces.map_values(|p: Seq<char>| trim(p))))
                    }
                }
            }
        }
    }
}

/// The literal written by `v`, or the validation failure that rejects it.
pub open spec fn fact_parse(v: Seq<char>, context: Seq<char>, field: Seq<char>) -> Result<
    LiteralView,
    HelixFault,
> {
    match normalized(v, context, field) {
        Err(e) => Err(e),
        Ok(t) => {
            let (neg, src) = polarity_of(t);
            match atom_parse(src, context) {
                Ok(a) => Ok(LiteralView { negative: neg, atom: a }),
                Err(e) => Err(e),
            }
        },
    }
}

fn find_char(cs: &Vec<char>, c: char) -> (r: Option<usize>)
    ensures
        match r {
            Some(i) => index_of(cs@, c) == i,
            None => index_of(cs@, c) < 0,
        },
{
    proof {
        lemma_index_of(cs@, c);
    }
    let mut i: usize = 0;
    while i < cs.len()
        invariant
            i <= cs@.len(),
            forall|k: int| 0 <= k < i ==> cs@[k] != c,
            -1 <= index_of(cs@, c) < cs@.len(),
            index_of(cs@, c) >= 0 ==> cs@[index_of(cs@, c)] == c,
            index_of(cs@, c) >= 0 ==> !cs@.subrange(0, index_of(cs@, c)).contains(c),
            index_of(cs@, c) < 0 <==> !cs@.contains(c),
        decreases cs@.len() - i,
    {
        if cs[i] == c {
            proof {
                let j = index_of(cs@, c);
                assert(cs@.contains(c));
                if j > i {
                    assert(cs@.subrange(0, j)[i as int] == c);
                }
            }
            return Some(i);
        }
        i = i + 1;
    }
    proof {
        let j = index_of(cs@, c);
        if j >= 0 {
            assert(cs@[j] == c);
        }
    }
    None
}

fn contains_char(cs: &[char], c: char) -> (r: bool)
    ensures
        r == cs@.contains(c),
{
    let mut i: usize = 0;
    while i < cs.len()
        invariant
            i <= cs@.len(),
            forall|k: int| 0 <= k < i ==> cs@[k] != c,
        decreases cs@.len() - i,
    {
        if cs[i] == c {
            assert(cs@[i as int] == c);
            return true;
        }
        i = i + 1;
    }
    false
}

fn split_commas_exec(cs: &[char]) -> (r: Vec<Vec<char>>)
    ensures
        r@.map_values(|p: Vec<char>| p@) == split_commas(cs@),
{
    let mut out: Vec<Vec<char>> = Vec::new();
    let mut cur: Vec<char> = Vec::new();
    let mut start: usize = 0;
    let mut i: usize = 0;
    while i < cs.len()
        invariant
            start <= i <= cs@.len(),
            cur@ == cs@.subrange(start as int, i as int),
            out@.map_values(|p: Vec<char>| p@) + seq![cur@] == split_commas(cs@.subrange(0, i as int)),
            start == last_comma(cs@.subrange(0, i as int)) + 1,
        decreases cs@.len() - i,
    {
        let c = cs[i];
        let ghost before_out = out@.map_values(|p: Vec<char>| p@);
        let ghost pre = cs@.subrange(0, i as int);
        let ghost post = cs@.subrange(0, i as int + 1);
        proof {
            assert(post.drop_last() =~= pre);
            lemma_last_comma(pre);
        }
        if c == ',' {
            let piece = cur;
            out.push(piece);
            cur = Vec::new();
            start = i + 1;
            proof {
                assert(last_comma(post) == i as int);
                assert(post.subrange(0, i as int) =~= pre);
                assert(split_commas(post) == split_commas(pre) + seq![post.subrange(i as int + 1, post.len() as int)]);
                assert(post.subrange(i as int + 1, post.len() as int) =~= Seq::<char>::empty());
                assert(out@.map_values(|p: Vec<char>| p@) =~= before_out + seq![cs@.subrange(
                    (last_comma(pre) + 1),
                    i as int,
                )]);
                assert(cur@ =~= cs@.subrange(start as int, i as int + 1));
                assert(out@.map_values(|p: Vec<char>| p@) + seq![cur@] =~= split_commas(post));
            }
        } else {
            cur.push(c);
            proof {
                assert(last_comma(post) == last_comma(pre));
                let j = last_comma(pre);
                if j >= 0 {
                    assert(post.subrange(0, j) =~= pre.subrange(0, j));
                    assert(post.subrange(j + 1, post.len() as int) =~= pre.subrange(
                        j + 1,
                        pre.len() as int,
                    ).push(c));
                    assert(split_commas(pre) == split_commas(pre.subrange(0, j)) + seq![pre.subrange(j + 1, pre.len() as int)]);
                    assert(split_commas(post) == split_commas(pre.subrange(0, j)) + seq![post.subrange(j + 1, post.len() as int)]);
                    assert(before_out == split_commas(pre).drop_last());
                    assert(before_out =~= split_commas(pre.subrange(0, j)));
                    assert(cur@ =~= post.subrange(j + 1, post.len() as int));
                    assert(before_out + seq![cur@] =~= split_commas(post));
                } else {
                    assert(post =~= pre.push(c));
                    assert(split_commas(pre) == seq![pre]);
                    assert(split_commas(post) == seq![post]);
                    assert(before_out.len() == 0);
                    assert(cur@ =~= post);
                    assert(before_out + seq![cur@] =~= split_commas(post));
                }
                assert(cur@ =~= cs@.subrange(start as int, i as int + 1));
                assert(out@.map_values(|p: Vec<char>| p@) =~= before_out);
                assert(out@.map_values(|p: Vec<char>| p@) + seq![cur@] =~= split_commas(post));
            }
        }
        i = i + 1;
    }
    out.push(cur);
    proof {
        assert(cs@.subrange(0, cs@.len() as int) =~= cs@);
        assert(out@.map_values(|p: Vec<char>| p@) =~= split_commas(cs@));
    }
    out
}


fn range_has(cs: &Vec<char>, lo: usize, hi: usize, c: char) -> (r: bool)
    requires
        lo <= hi <= cs@.len(),
    ensures
        r == cs@.subrange(lo as int, hi as int).contains(c),
{
    let mut i: usize = lo;
    while i < hi
        invariant
            lo <= i <= hi <= cs@.len(),
            forall|k: int| lo <= k < i ==> cs@[k] != c,
        decreases hi - i,
    {
        if cs[i] == c {
            assert(cs@.subrange(lo as int, hi as int)[i - lo] == c);
            return true;
        }
        i = i + 1;
    }
    proof {
        let sub = cs@.subrange(lo as int, hi as int);
        assert forall|k: int| 0 <= k < sub.len() implies sub[k] != c by {
            assert(sub[k] == cs@[lo + k]);
        }
    }
    false
}

/// The atom written by `value` (see `atom_parse`).
#[verifier::loop_isolation(false)]
fn parse_atom(value: &str, context: &str) -> (r: Result<SymbolicAtom, HelixError>)
    ensures
        match r {
            Ok(a) => atom_parse(value@, context@) == Ok::<AtomView, HelixFault>(a@),
            Err(e) => atom_parse(value@, context@) == Err::<AtomView, HelixFault>(e@),
        },
{
    let cs = chars_of(value);
    let n = cs.len();
    let ends_close = n > 0 && cs[n - 1] == ')';
    proof {
        lemma_index_of(cs@, '(');
    }
    let open = find_char(&cs, '(');
    let o = match open {
        None => {
            return Ok(SymbolicAtom::Atom(String::from_str(value)));
        },
        Some(o) => o,
    };
    if !ends_close {
        return Ok(SymbolicAtom::Atom(String::from_str(value)));
    }
    let prefix = string_from_chars(vstd::slice::slice_subrange(cs.as_slice(), 0, o));
    let name = match normalize_non_empty(prefix.as_str(), context, "fact predicate name") {
        Ok(t) => t,
        Err(e) => {
            return Err(e);
        },
    };
    if o + 1 == n - 1 {
        assert(cs@.subrange(o + 1, n - 1) =~= Seq::<char>::empty());
        let args: Vec<String> = Vec::new();
        assert(strings_view(args@) =~= Seq::<Seq<char>>::empty());
        return Ok(SymbolicAtom::Predicate { name, args });
    }
    if range_has(&cs, o + 1, n - 1, '(') || range_has(&cs, o + 1, n - 1, ')') {
        return Ok(SymbolicAtom::Atom(String::from_str(value)));
    }
    let inner = vstd::slice::slice_subrange(cs.as_slice(), o + 1, n - 1);
    let pieces = split_commas_exec(inner);
    let ghost ps = split_commas(inner@);
    let mut args: Vec<String> = Vec::new();
    let mut i: usize = 0;
    while i < pieces.len()
        invariant
            i <= pieces@.len(),
            pieces@.map_values(|p: Vec<char>| p@) == ps,
            args@.len() == i,
            forall|k: int| 0 <= k < i ==> trim(#[trigger] ps[k]).len() > 0,
            forall|k: int| 0 <= k < i ==> (#[trigger] args@[k])@ == trim(ps[k]),
        decreases pieces@.len() - i,
    {
        assert(pieces@[i as int]@ == ps[i as int]);
        let piece = string_from_chars(pieces[i].as_slice());
        match normalize_non_empty(piece.as_str(), context, "fact argument") {
            Ok(t) => {
                args.push(t);
            },
            Err(e) => {
                proof {
                    let w = i as int;
                    assert(trim(ps[w]).len() == 0);
                    assert(0 <= w < ps.len());
                    assert(exists|k: int| 0 <= k < ps.len() && trim(#[trigger] ps[k]).len() == 0);
                }
                return Err(e);
            },
        }
        i = i + 1;
    }
    proof {
        assert(!(exists|k: int| 0 <= k < ps.len() && trim(#[trigger] ps[k]).len() == 0));
        assert(strings_view(args@) =~= ps.map_values(|p: Seq<char>| trim(p)));
    }
    Ok(SymbolicAtom::Predicate { name, args })
}

/// Parses a fact: trims it, reads an optional `!` or `not ` negation, then its atom.
pub fn parse_fact(value: &str, context: &str, field: &str) -> (r: Result<SymbolicLiteral, HelixError>)
    ensures
        match r {
            Ok(l) => fact_parse(value@, context@, field@) == Ok::<LiteralView, HelixFault>(l@),
            Err(e) => fact_parse(value@, context@, field@) == Err::<LiteralView, HelixFault>(e@),
        },
{
    let t = match normalize_non_empty(value, context, field) {
        Ok(t) => t,
        Err(e) => {
            return Err(e);
        },
    };
    let n = t.as_str().unicode_len();
    let (negative, src) = if n > 0 && t.as_str().get_char(0) == '!' {
        (true, trim_str(t.as_str().substring_char(1, n)))
    } else if n >= 4 && t.as_str().get_char(0) == 'n' && t.as_str().get_char(1) == 'o'
        && t.as_str().get_char(2) == 't' && t.as_str().get_char(3) == ' ' {
        assert(t@.subrange(0, 4) =~= not_prefix());
        (true, trim_str(t.as_str().substring_char(4, n)))
    } else {
        proof {
            if n >= 4 {
                if t@.subrange(0, 4) == not_prefix() {
                    assert(t@[0] == t@.subrange(0, 4)[0]);
                    assert(t@[1] == t@.subrange(0, 4)[1]);
                    assert(t@[2] == t@.subrange(0, 4)[2]);
                    assert(t@[3] == t@.subrange(0, 4)[3]);
                }
            }
        }
        (false, copy_string(&t))
    };
    assert(polarity_of(t@) == (negative, src@));
    match parse_atom(src.as_str(), context) {
        Ok(atom) => Ok(SymbolicLiteral { negative, atom }),
        Err(e) => Err(e),
    }
}

/// The literal `predicate(subject, object)` of a triple, or the validation
/// failure for its first blank field (predicate, then subject, then object).
pub open spec fn triple_parse(t: TripleView) -> Result<LiteralView, HelixFault> {
    let ctx = "reasoning.triples"@;
    match normalized(t.predicate, ctx, "triple predicate"@) {
        Err(e) => Err(e),
        Ok(p) => match normalized(t.subject, ctx, "triple subject"@) {
            Err(e) => Err(e),
            Ok(s) => match normalized(t.object, ctx, "triple object"@) {
                Err(e) => Err(e),
                Ok(o) => Ok(LiteralView { negative: false, atom: AtomView::Predicate(p, seq![s, o]) }),
            },
        },
    }
}

/// Reads a triple as the positive fact `predicate(subject,object)`.
pub fn parse_triple_fact(triple: &KrrTriple) -> (r: Result<SymbolicLiteral, HelixError>)
    ensures
        match r {
            Ok(l) => triple_parse(triple@) == Ok::<LiteralView, HelixFault>(l@),
            Err(e) => triple_parse(triple@) == Err::<LiteralView, HelixFault>(e@),
        },
{
    let p = match normalize_non_empty(triple.predicate.as_str(), "reasoning.triples", "triple predicate") {
        Ok(v) => v,
        Err(e) => {
            return Err(e);
        },
    };
    let s = match normalize_non_empty(triple.subject.as_str(), "reasoning.triples", "triple subject") {
        Ok(v) => v,
        Err(e) => {
            return Err(e);
        },
    };
    let o = match normalize_non_empty(triple.object.as_str(), "reasoning.triples", "triple object") {
        Ok(v) => v,
        Err(e) => {
            return Err(e);
        },
    };
    let ghost sv = s@;
    let ghost ov = o@;
    let mut args: Vec<String> = Vec::new();
    args.push(s);
    args.push(o);
    assert(strings_view(args@) =~= seq![sv, ov]);
    Ok(SymbolicLiteral { negative: false, atom: SymbolicAtom::Predicate { name: p, args } })
}

impl SymbolicAtom {
    /// The canonical text of the atom.
    pub fn canonical_string(&self) -> (s: String)
        ensures
            s@ == atom_canon(self@),
    {
        match self {
            SymbolicAtom::Atom(v) => copy_string(v),
            SymbolicAtom::Predicate { name, args } => {
                let ghost av = strings_view(args@);
                let mut s = copy_string(name);
                push_char(&mut s, '(');
                let mut i: usize = 0;
                while i < args.len()
                    invariant
                        i <= args@.len(),
                        av == strings_view(args@),
                        s@ == name@ + seq!['('] + join_commas(av.subrange(0, i as int)),
                    decreases args@.len() - i,
                {
                    let ghost before = s@;
                    if i > 0 {
                        push_char(&mut s, ',');
                    }
                    push_str(&mut s, args[i].as_str());
                    proof {
                        let sub = av.subrange(0, i as int + 1);
                        assert(sub.drop_last() =~= av.subrange(0, i as int));
                        assert(sub.last() == av[i as int]);
                        if i == 0 {
                            assert(join_commas(sub) == av[0]);
                        }
                        assert(s@ =~= name@ + seq!['('] + join_commas(sub));
                    }
                    i = i + 1;
                }
                assert(av.subrange(0, args@.len() as int) =~= av);
                push_char(&mut s, ')');
                s
            },
        }
    }
}

impl SymbolicLiteral {
    /// The canonical text of the literal: `not ` before a negated atom.
    pub fn canonical_string(&self) -> (s: String)
        ensures
            s@ == literal_canon(self@),
    {
        let a = self.atom.canonical_string();
        if self.negative {
            let mut s = String::from_str("not ");
            proof {
                reveal_strlit("not ");
            }
            push_str(&mut s, a.as_str());
            assert(s@ =~= not_prefix() + atom_canon(self.atom@));
            s
        } else {
            a
        }
    }

    /// The text that a literal and its negation share.
    pub fn contradiction_key(&self) -> (s: String)
        ensures
            s@ == atom_canon(self.atom@),
    {
        self.atom.canonical_string()
    }
}

} // verus!
