//! Template erasure and canonical call signatures.
use vstd::prelude::*;
use crate::text::{
    chars_of, find_char, find_chars, find_from, index_of, last_index_of, occurrence_from,
    rfind_char, rfind_upto, slice_of, string_of,
};

verus! {

/// The part of `s` that lies outside every `<...>` span, when the scan starts at
/// bracket depth `depth`: a `<` goes one level deeper, a `>` one level back up
/// where there is a level to leave, and a character is kept only at depth zero.
pub open spec fn erase_from(depth: nat, s: Seq<char>) -> Seq<char>
    decreases s.len(),
{
    if s.len() == 0 {
        Seq::empty()
    } else {
        let c = s[0];
        let rest = s.drop_first();
        if c == '<' {
            erase_from(depth + 1, rest)
        } else if c == '>' && depth > 0 {
            erase_from((depth - 1) as nat, rest)
        } else if depth == 0 {
            seq![c] + erase_from(0, rest)
        } else {
            erase_from(depth, rest)
        }
    }
}

/// The bracket depth that the scan of `erase_from` reaches at the end of `s`.
pub open spec fn depth_after(depth: nat, s: Seq<char>) -> nat
    decreases s.len(),
{
    if s.len() == 0 {
        depth
    } else {
        let c = s[0];
        let rest = s.drop_first();
        if c == '<' {
            depth_after(depth + 1, rest)
        } else if c == '>' && depth > 0 {
            depth_after((depth - 1) as nat, rest)
        } else {
            depth_after(depth, rest)
        }
    }
}

/// `s` with every template-argument span removed.
pub open spec fn erased(s: Seq<char>) -> Seq<char> {
    erase_from(0, s)
}

/// Whether the running count of `<` minus `>` over `s`, started at `d`, never drops below zero.
pub open spec fn never_below_zero(d: int, s: Seq<char>) -> bool
    decreases s.len(),
{
    if s.len() == 0 {
        true
    } else {
        let d2 = if s[0] == '<' {
            d + 1
        } else if s[0] == '>' {
            d - 1
        } else {
            d
        };
        d2 >= 0 && never_below_zero(d2, s.drop_first())
    }
}

/// The count of `<` minus the count of `>` in `s`.
pub open spec fn bracket_balance(s: Seq<char>) -> int
    decreases s.len(),
{
    if s.len() == 0 {
        0
    } else {
        (if s[0] == '<' {
            1int
        } else if s[0] == '>' {
            -1int
        } else {
            0int
        }) + bracket_balance(s.drop_first())
    }
}

/// Whether the angle brackets of `s` pair up: every prefix opens at least as many
/// as it closes, and the whole closes all that it opens.
pub open spec fn balanced(s: Seq<char>) -> bool {
    never_below_zero(0, s) && bracket_balance(s) == 0
}

/// Whether the angle brackets of `v` pair up (see `balanced`).
pub fn brackets_balanced(v: &Vec<char>) -> (r: bool)
    ensures
        r == balanced(v@),
{
    let mut opens: usize = 0;
    let mut closes: usize = 0;
    let mut i: usize = 0;
    assert(v@.subrange(0, v.len() as int) =~= v@);
    while i < v.len()
        invariant
            i <= v.len(),
            closes <= opens <= i,
            never_below_zero(0, v@) == never_below_zero(
                opens - closes,
                v@.subrange(i as int, v.len() as int),
            ),
            bracket_balance(v@) == (opens - closes) + bracket_balance(
                v@.subrange(i as int, v.len() as int),
            ),
        decreases v.len() - i,
    {
        let ghost rest = v@.subrange(i as int, v.len() as int);
        assert(rest.drop_first() =~= v@.subrange(i + 1, v.len() as int));
        if v[i] == '<' {
            opens = opens + 1;
        } else if v[i] == '>' {
            if closes == opens {
                return false;
            }
            closes = closes + 1;
        }
        i = i + 1;
    }
    assert(v@.subrange(i as int, v.len() as int) =~= Seq::<char>::empty());
    opens == closes
}

/// `s` up to its first `(`.
pub open spec fn before_paren(s: Seq<char>) -> Seq<char> {
    match index_of(s, '(') {
        Some(k) => s.take(k),
        None => s,
    }
}

/// The word that marks an operator's name.
pub open spec fn operator_word() -> Seq<char> {
    seq!['o', 'p', 'e', 'r', 'a', 't', 'o', 'r']
}

/// The part of a name in which a leading return type can end: all of it, or what
/// comes before the word `operator` (whose name may itself hold a space, as in
/// `operator new` or a conversion operator).
pub open spec fn return_type_region(s: Seq<char>) -> Seq<char> {
    match occurrence_from(s, operator_word(), 0) {
        Some(k) => s.take(k),
        None => s,
    }
}

/// `s` without a leading return type: what follows the last space of its
/// `return_type_region`.
pub open spec fn after_return_type(s: Seq<char>) -> Seq<char> {
    match last_index_of(return_type_region(s), ' ') {
        Some(k) => s.skip(k + 1),
        None => s,
    }
}

/// The key under which a demangled name is looked up: its qualified name with the
/// template arguments erased, without parameter list or leading return type.
pub open spec fn canonical(s: Seq<char>) -> Seq<char> {
    after_return_type(before_paren(erased(s)))
}

/// Removes every balanced `<...>` span of `name`, nested ones with it, and keeps
/// the rest as it stands.
pub fn erase_templates(name: &str) -> (r: String)
    ensures
        r@ == erased(name@),
{
    let v = chars_of(name);
    let mut r = String::new();
    let mut depth: usize = 0;
    let mut i: usize = 0;
    assert(v@.subrange(0, v.len() as int) =~= v@);
    while i < v.len()
        invariant
            v@ == name@,
            i <= v.len(),
            depth <= i,
            r@ + erase_from(depth as nat, v@.subrange(i as int, v.len() as int)) == erased(name@),
        decreases v.len() - i,
    {
        let c = v[i];
        let ghost rest = v@.subrange(i as int, v.len() as int);
        assert(rest.drop_first() =~= v@.subrange(i + 1, v.len() as int));
        if c == '<' {
            depth = depth + 1;
        } else if c == '>' && depth > 0 {
            depth = depth - 1;
        } else if depth == 0 {
            r.push(c);
        }
        i = i + 1;
    }
    assert(r@ + erase_from(depth as nat, Seq::empty()) =~= r@);
    r
}

/// The canonical signature of a demangled name: see `canonical`.
pub fn canonical_signature(demangled: &str) -> (r: String)
    ensures
        r@ == canonical(demangled@),
{
    let e = erase_templates(demangled);
    let v = chars_of(e.as_str());
    let end = match find_char(&v, '(') {
        Some(k) => k,
        None => v.len(),
    };
    let head = slice_of(&v, 0, end);
    assert(before_paren(v@) == head@) by {
        if index_of(v@, '(') is None {
            assert(v@.subrange(0, v.len() as int) =~= v@);
        }
    }
    let op = vec!['o', 'p', 'e', 'r', 'a', 't', 'o', 'r'];
    assert(op@ == operator_word());
    let region_end = match find_chars(&head, &op) {
        Some(k) => k,
        None => head.len(),
    };
    let region = slice_of(&head, 0, region_end);
    assert(region@ == return_type_region(head@)) by {
        if occurrence_from(head@, operator_word(), 0) is None {
            assert(head@.subrange(0, head.len() as int) =~= head@);
        }
    }
    let start = match rfind_char(&region, ' ') {
        Some(k) => k + 1,
        None => 0,
    };
    assert(after_return_type(head@) == head@.subrange(start as int, head.len() as int)) by {
        if last_index_of(region@, ' ') is None {
            assert(head@.subrange(0, head.len() as int) =~= head@);
        }
    }
    string_of(&head, start, head.len())
}

/// Erasure never keeps a `<`.
pub proof fn lemma_erase_no_open(d: nat, s: Seq<char>)
    ensures
        !erase_from(d, s).contains('<'),
    decreases s.len(),
{
    if s.len() > 0 {
        let rest = s.drop_first();
        if s[0] == '<' {
            lemma_erase_no_open(d + 1, rest);
        } else if s[0] == '>' && d > 0 {
            lemma_erase_no_open((d - 1) as nat, rest);
        } else if d == 0 {
            lemma_erase_no_open(0, rest);
            let t = erase_from(0, rest);
            assert(erase_from(d, s) == seq![s[0]] + t);
            assert forall|k: int| 0 <= k < erase_from(d, s).len() implies erase_from(d, s)[k]
                != '<' by {
                if k > 0 {
                    assert(erase_from(d, s)[k] == t[k - 1]);
                }
            }
        } else {
            lemma_erase_no_open(d, rest);
        }
    }
}

/// A text without `<` comes out of erasure unchanged.
pub proof fn lemma_erase_identity(s: Seq<char>)
    requires
        !s.contains('<'),
    ensures
        erase_from(0, s) == s,
    decreases s.len(),
{
    if s.len() > 0 {
        let rest = s.drop_first();
        assert(!rest.contains('<')) by {
            if rest.contains('<') {
                let k = choose|k: int| 0 <= k < rest.len() && rest[k] == '<';
                assert(s[k + 1] == '<');
            }
        }
        lemma_erase_identity(rest);
        assert(s[0] != '<');
        assert(seq![s[0]] + rest =~= s);
    }
}

/// Erasing template arguments twice gives what erasing them once gives.
pub proof fn lemma_erase_idempotent(s: Seq<char>)
    ensures
        erased(erased(s)) == erased(s),
{
    lemma_erase_no_open(0, s);
    lemma_erase_identity(erased(s));
}

/// Where the running bracket count never drops below zero, erasure keeps no `>`.
pub proof fn lemma_erase_no_close(d: nat, s: Seq<char>)
    requires
        never_below_zero(d as int, s),
    ensures
        !erase_from(d, s).contains('>'),
        depth_after(d, s) == d + bracket_balance(s),
    decreases s.len(),
{
    if s.len() > 0 {
        let rest = s.drop_first();
        if s[0] == '<' {
            lemma_erase_no_close(d + 1, rest);
        } else if s[0] == '>' {
            lemma_erase_no_close((d - 1) as nat, rest);
        } else if d == 0 {
            lemma_erase_no_close(0, rest);
            let t = erase_from(0, rest);
            assert(erase_from(d, s) == seq![s[0]] + t);
            assert forall|k: int| 0 <= k < erase_from(d, s).len() implies erase_from(d, s)[k]
                != '>' by {
                if k > 0 {
                    assert(erase_from(d, s)[k] == t[k - 1]);
                }
            }
        } else {
            lemma_erase_no_close(d, rest);
        }
    }
}

/// For text whose angle brackets pair up, the erasure scan never needs to go
/// below depth zero: it ends at depth zero, and its output holds neither `<` nor `>`.
pub proof fn lemma_erase_balanced(s: Seq<char>)
    requires
        balanced(s),
    ensures
        depth_after(0, s) == 0,
        !erased(s).contains('<'),
        !erased(s).contains('>'),
{
    lemma_erase_no_open(0, s);
    lemma_erase_no_close(0, s);
}

/// Erasure of a concatenation goes on from the depth where the first part ends.
pub proof fn lemma_erase_concat(d: nat, a: Seq<char>, b: Seq<char>)
    ensures
        erase_from(d, a + b) == erase_from(d, a) + erase_from(depth_after(d, a), b),
        depth_after(d, a + b) == depth_after(depth_after(d, a), b),
    decreases a.len(),
{
    if a.len() == 0 {
        assert(a + b =~= b);
    } else {
        assert((a + b).drop_first() =~= a.drop_first() + b);
        assert((a + b)[0] == a[0]);
        let rest = a.drop_first();
        if a[0] == '<' {
            lemma_erase_concat(d + 1, rest, b);
        } else if a[0] == '>' && d > 0 {
            lemma_erase_concat((d - 1) as nat, rest, b);
        } else if d == 0 {
            lemma_erase_concat(0, rest, b);
            assert(seq![a[0]] + (erase_from(0, rest) + erase_from(depth_after(0, rest), b))
                =~= (seq![a[0]] + erase_from(0, rest)) + erase_from(depth_after(0, rest), b));
        } else {
            lemma_erase_concat(d, rest, b);
        }
    }
}

/// Inside an open span, text whose brackets never drop below zero is dropped whole,
/// and the depth moves by its balance.
pub proof fn lemma_erase_inside(d: nat, x: Seq<char>, k: int)
    requires
        never_below_zero(k, x),
        k >= 0,
        d > k,
    ensures
        erase_from(d, x) == Seq::<char>::empty(),
        depth_after(d, x) == d + bracket_balance(x),
    decreases x.len(),
{
    if x.len() > 0 {
        let rest = x.drop_first();
        if x[0] == '<' {
            lemma_erase_inside(d + 1, rest, k + 1);
        } else if x[0] == '>' {
            lemma_erase_inside((d - 1) as nat, rest, k - 1);
        } else {
            lemma_erase_inside(d, rest, k);
        }
    }
}

/// A template-argument span with balanced contents erases to nothing.
pub proof fn lemma_erase_span(p: Seq<char>, x: Seq<char>, q: Seq<char>)
    requires
        depth_after(0, p) == 0,
        balanced(x),
    ensures
        erased(p + seq!['<'] + x + seq!['>'] + q) == erased(p + q),
{
    let t = seq!['<'] + x + seq!['>'] + q;
    assert(p + seq!['<'] + x + seq!['>'] + q =~= p + t);
    lemma_erase_concat(0, p, t);
    lemma_erase_concat(0, p, q);
    assert(t.drop_first() =~= x + (seq!['>'] + q));
    assert(t[0] == '<');
    assert(erase_from(0, t) == erase_from(1, x + (seq!['>'] + q)));
    lemma_erase_concat(1, x, seq!['>'] + q);
    lemma_erase_inside(1, x, 0);
    let gq = seq!['>'] + q;
    assert(gq.drop_first() =~= q);
    assert(erase_from(1, gq) == erase_from(0, q));
    assert(erase_from(1, x + gq) =~= erase_from(0, q));
}

/// Two instantiations of one generic operation share their canonical signature:
/// the text `p<x>q` and the text `p<y>q` give the same key whenever `x` and `y`
/// are balanced template arguments and `p` closes every span it opens.
pub proof fn lemma_canonical_ignores_template_args(
    p: Seq<char>,
    x: Seq<char>,
    y: Seq<char>,
    q: Seq<char>,
)
    requires
        depth_after(0, p) == 0,
        balanced(x),
        balanced(y),
    ensures
        canonical(p + seq!['<'] + x + seq!['>'] + q) == canonical(p + seq!['<'] + y + seq!['>']
            + q),
{
    lemma_erase_span(p, x, q);
    lemma_erase_span(p, y, q);
}

} // verus!
