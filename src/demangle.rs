//! Structural parsing of demangled C++ function names.
use vstd::prelude::*;
use crate::names::{balanced, brackets_balanced, operator_word};
use crate::text::{
    alphanumeric, ascii_alphanumeric, chars_of, contains, contains_chars, find_char, index_of, is_space, join,
    join_strings, last_index_of, push_str, rfind_char, slice_of, split_and_trim, split_colons,
    split_on_colons, split_trimmed, str_eq, string_of, trim, trimmed_string, views, vviews,
};

verus! {

/// A demangled function name taken apart.
#[derive(Debug, Clone)]
pub struct ParsedFunction {
    pub namespace: Vec<String>,
    pub function_name: String,
    pub template_args: Option<Vec<String>>,
    pub parameters: Vec<String>,
    pub return_type: Option<String>,
    pub is_operator: bool,
    pub is_constructor: bool,
    pub is_destructor: bool,
}

/// The mathematical content of a `ParsedFunction`.
pub struct ParsedView {
    pub namespace: Seq<Seq<char>>,
    pub function_name: Seq<char>,
    pub template_args: Option<Seq<Seq<char>>>,
    pub parameters: Seq<Seq<char>>,
    pub return_type: Option<Seq<char>>,
    pub is_operator: bool,
    pub is_constructor: bool,
    pub is_destructor: bool,
}

pub open spec fn opt_views(o: Option<Vec<String>>) -> Option<Seq<Seq<char>>> {
    match o {
        Some(v) => Some(views(v@)),
        None => None,
    }
}

pub open spec fn opt_view(o: Option<String>) -> Option<Seq<char>> {
    match o {
        Some(s) => Some(s@),
        None => None,
    }
}

impl View for ParsedFunction {
    type V = ParsedView;

    open spec fn view(&self) -> ParsedView {
        ParsedView {
            namespace: views(self.namespace@),
            function_name: self.function_name@,
            template_args: opt_views(self.template_args),
            parameters: views(self.parameters@),
            return_type: opt_view(self.return_type),
            is_operator: self.is_operator,
            is_constructor: self.is_constructor,
            is_destructor: self.is_destructor,
        }
    }
}

/// A descriptor with nothing filled in.
pub open spec fn empty_view() -> ParsedView {
    ParsedView {
        namespace: Seq::empty(),
        function_name: Seq::empty(),
        template_args: None,
        parameters: Seq::empty(),
        return_type: None,
        is_operator: false,
        is_constructor: false,
        is_destructor: false,
    }
}


/// Where the trailing template block of a name component lies: from its first `<`
/// to the `>` that ends the component.
pub open spec fn template_bounds(c: Seq<char>) -> Option<(int, int)> {
    match (index_of(c, '<'), last_index_of(c, '>')) {
        (Some(a), Some(b)) => if a < b && b == c.len() - 1 {
            Some((a, b))
        } else {
            None
        },
        _ => None,
    }
}

/// A component without its template block.
pub open spec fn strip_template(c: Seq<char>) -> Seq<char> {
    match template_bounds(c) {
        Some((a, _)) => c.take(a),
        None => c,
    }
}

/// The comma-separated arguments of a component's template block.
pub open spec fn template_args_of(c: Seq<char>) -> Seq<Seq<char>> {
    match template_bounds(c) {
        Some((a, b)) => split_trimmed(c.subrange(a + 1, b), ','),
        None => Seq::empty(),
    }
}

/// What parsing the name part (before the parameter list) does to a descriptor.
/// Operators and destructors keep the whole part as their name; so does a part
/// whose angle brackets do not pair up, which is not refined further.
pub open spec fn name_effect(old: ParsedView, name: Seq<char>) -> ParsedView {
    if contains(name, operator_word()) {
        ParsedView { is_operator: true, function_name: name, ..old }
    } else if name.contains('~') {
        ParsedView { is_destructor: true, function_name: name, ..old }
    } else if !balanced(name) {
        ParsedView { function_name: name, ..old }
    } else {
        let parts = split_colons(name);
        let raw_ns = if parts.len() > 1 {
            parts.drop_last()
        } else {
            old.namespace
        };
        let raw_fn = parts.last();
        let fname = strip_template(raw_fn);
        let fn_args = if template_bounds(raw_fn) is Some {
            Some(template_args_of(raw_fn))
        } else {
            old.template_args
        };
        let ns = raw_ns.map_values(|c: Seq<char>| strip_template(c));
        let targs = if fn_args is None && raw_ns.len() > 0 && template_bounds(raw_ns.last()) is Some {
            Some(template_args_of(raw_ns.last()))
        } else {
            fn_args
        };
        ParsedView {
            namespace: ns,
            function_name: fname,
            template_args: targs,
            is_constructor: old.is_constructor || (ns.len() > 0 && fname == ns.last()),
            ..old
        }
    }
}

/// Where the template block of `c` lies, if it has one.
fn template_block(c: &Vec<char>) -> (r: Option<(usize, usize)>)
    ensures
        r matches Some((a, b)) ==> template_bounds(c@) == Some((a as int, b as int)) && a < b
            < c.len(),
        r is None ==> template_bounds(c@) is None,
{
    match find_char(c, '<') {
        Some(a) => match rfind_char(c, '>') {
            Some(b) => if a < b && b == c.len() - 1 {
                Some((a, b))
            } else {
                None
            },
            None => None,
        },
        None => None,
    }
}

/// A component's name without its template block, and the block's arguments.
fn split_component(c: &Vec<char>) -> (r: (String, Option<Vec<String>>))
    ensures
        r.0@ == strip_template(c@),
        r.1 is Some == template_bounds(c@) is Some,
        r.1 matches Some(a) ==> views(a@) == template_args_of(c@),
{
    match template_block(c) {
        Some((a, b)) => (string_of(c, 0, a), Some(split_and_trim(c, a + 1, b, ','))),
        None => {
            assert(c@.subrange(0, c@.len() as int) =~= c@);
            (string_of(c, 0, c.len()), None)
        },
    }
}

proof fn lemma_split_nonempty(cur: Seq<char>, rest: Seq<char>)
    ensures
        crate::text::split_colons_from(cur, rest).len() >= 1,
    decreases rest.len(),
{
    if rest.len() > 0 {
        if rest.len() >= 2 && rest[0] == ':' && rest[1] == ':' {
            lemma_split_nonempty(Seq::empty(), rest.skip(2));
        } else {
            lemma_split_nonempty(cur.push(rest[0]), rest.drop_first());
        }
    }
}

proof fn lemma_contains_index(s: Seq<char>, c: char)
    ensures
        s.contains(c) == (index_of(s, c) is Some),
{
    crate::text::lemma_index_bound(s, c, 0);
    if s.contains(c) {
        let k = choose|k: int| 0 <= k < s.len() && s[k] == c;
        lemma_find_reaches(s, c, 0, k);
    }
}

proof fn lemma_find_reaches(s: Seq<char>, c: char, i: int, k: int)
    requires
        0 <= i <= k < s.len(),
        s[k] == c,
    ensures
        crate::text::find_from(s, c, i) is Some,
    decreases k - i,
{
    if s[i] != c {
        lemma_find_reaches(s, c, i + 1, k);
    }
}

/// Fills in namespace, function name, template arguments and the operator,
/// constructor and destructor flags from the part of a demangled name that comes
/// before its parameter list.
pub fn parse_name_part(name_part: &str, result: &mut ParsedFunction)
    ensures
        final(result)@ == name_effect(old(result)@, name_part@),
{
    let v = chars_of(name_part);
    let op = vec!['o', 'p', 'e', 'r', 'a', 't', 'o', 'r'];
    assert(op@ == operator_word());
    if contains_chars(&v, &op) {
        result.is_operator = true;
        result.function_name = string_of(&v, 0, v.len());
        assert(v@.subrange(0, v.len() as int) =~= v@);
        return;
    }
    proof {
        lemma_contains_index(v@, '~');
    }
    if find_char(&v, '~').is_some() {
        result.is_destructor = true;
        result.function_name = string_of(&v, 0, v.len());
        assert(v@.subrange(0, v.len() as int) =~= v@);
        return;
    }
    if !brackets_balanced(&v) {
        result.function_name = string_of(&v, 0, v.len());
        assert(v@.subrange(0, v.len() as int) =~= v@);
        return;
    }
    let parts = split_on_colons(&v);
    proof {
        lemma_split_nonempty(Seq::empty(), v@);
    }
    let last = parts.len() - 1;
    assert(vviews(parts@)[last as int] == parts@[last as int]@);
    let raw_ns: Vec<Vec<char>> = if parts.len() > 1 {
        let mut ns: Vec<Vec<char>> = Vec::new();
        let mut i: usize = 0;
        while i < last
            invariant
                last == parts.len() - 1,
                i <= last,
                vviews(ns@) == vviews(parts@).take(i as int),
            decreases last - i,
        {
            let piece = crate::text::slice_of(&parts[i], 0, parts[i].len());
            assert(parts@[i as int]@.subrange(0, parts@[i as int]@.len() as int) =~= parts@[i as int]@);
            let ghost before = ns@;
            ns.push(piece);
            assert(ns@ == before.push(piece));
            assert(vviews(parts@)[i as int] == parts@[i as int]@);
            assert(vviews(ns@) =~= vviews(before).push(piece@));
            assert(vviews(ns@) =~= vviews(parts@).take(i + 1));
            i = i + 1;
        }
        assert(vviews(parts@).take(last as int) =~= vviews(parts@).drop_last());
        ns
    } else {
        let mut ns: Vec<Vec<char>> = Vec::new();
        let mut i: usize = 0;
        while i < result.namespace.len()
            invariant
                i <= result.namespace.len(),
                result.namespace@ == old(result).namespace@,
                vviews(ns@) == views(result.namespace@).take(i as int),
            decreases result.namespace.len() - i,
        {
            let piece = chars_of(result.namespace[i].as_str());
            let ghost before = ns@;
            ns.push(piece);
            assert(ns@ == before.push(piece));
            assert(views(result.namespace@)[i as int] == result.namespace@[i as int]@);
            assert(vviews(ns@) =~= vviews(before).push(piece@));
            assert(vviews(ns@) =~= views(result.namespace@).take(i + 1));
            i = i + 1;
        }
        assert(views(result.namespace@).take(i as int) =~= views(result.namespace@));
        ns
    };
    let (fname, fn_args) = split_component(&parts[last]);
    let had_fn_args = fn_args.is_some();
    if had_fn_args {
        result.template_args = fn_args;
    }
    result.function_name = fname;
    let ghost targs1 = opt_views(result.template_args);
    let mut ns: Vec<String> = Vec::new();
    let mut i: usize = 0;
    while i < raw_ns.len()
        invariant
            i <= raw_ns.len(),
            views(ns@) == vviews(raw_ns@).take(i as int).map_values(
                |c: Seq<char>| strip_template(c),
            ),
            opt_views(result.template_args) == (if i == raw_ns.len() && targs1 is None
                && raw_ns.len() > 0 && template_bounds(vviews(raw_ns@).last()) is Some {
                Some(template_args_of(vviews(raw_ns@).last()))
            } else {
                targs1
            }),
            parts.len() >= 1,
            result.function_name@ == strip_template(vviews(parts@).last()),
            result.parameters == old(result).parameters,
            result.return_type == old(result).return_type,
            result.is_operator == old(result).is_operator,
            result.is_constructor == old(result).is_constructor,
            result.is_destructor == old(result).is_destructor,
        decreases raw_ns.len() - i,
    {
        let (base, args) = split_component(&raw_ns[i]);
        assert(vviews(raw_ns@)[i as int] == raw_ns@[i as int]@);
        if i == raw_ns.len() - 1 && result.template_args.is_none() {
            if args.is_some() {
                result.template_args = args;
            }
        }
        let ghost before = ns@;
        ns.push(base);
        assert(ns@ == before.push(base));
        assert(views(ns@) =~= views(before).push(base@));
        assert(views(ns@) =~= vviews(raw_ns@).take(i + 1).map_values(
            |c: Seq<char>| strip_template(c),
        ));
        i = i + 1;
    }
    assert(vviews(raw_ns@).take(i as int) =~= vviews(raw_ns@));
    result.namespace = ns;
    if result.namespace.len() > 0 {
        let k = result.namespace.len() - 1;
        if str_eq(result.function_name.as_str(), result.namespace[k].as_str()) {
            result.is_constructor = true;
        }
    }
}

/// The parameters read from the inside of a parameter list, when `depth` is the
/// parenthesis depth reached, `cur` the parameter read so far and `rest` what is
/// left: a comma at depth zero ends a parameter, and each parameter is trimmed.
pub open spec fn params_from(depth: int, cur: Seq<char>, rest: Seq<char>) -> Seq<Seq<char>>
    decreases rest.len(),
{
    if rest.len() == 0 {
        if cur.len() > 0 {
            seq![trim(cur)]
        } else {
            Seq::empty()
        }
    } else {
        let c = rest[0];
        let tail = rest.drop_first();
        if c == '(' {
            params_from(depth + 1, cur.push(c), tail)
        } else if c == ')' {
            params_from(depth - 1, cur.push(c), tail)
        } else if c == ',' && depth == 0 {
            seq![trim(cur)] + params_from(depth, Seq::empty(), tail)
        } else {
            params_from(depth, cur.push(c), tail)
        }
    }
}

/// The inside of a parameter list: the text without its outer pair of
/// parentheses (one leading `(` and one trailing `)`, where they are there).
pub open spec fn params_inner(p: Seq<char>) -> Seq<char> {
    let a = if p.len() > 0 && p[0] == '(' {
        p.drop_first()
    } else {
        p
    };
    if a.len() > 0 && a.last() == ')' {
        a.drop_last()
    } else {
        a
    }
}

/// What parsing the parameter list does to a descriptor.
pub open spec fn params_effect(old: ParsedView, p: Seq<char>) -> ParsedView {
    let inner = params_inner(p);
    if inner.len() == 0 {
        old
    } else {
        ParsedView { parameters: params_from(0, Seq::empty(), inner), ..old }
    }
}

/// Whether reading `a` from parenthesis depth `d` meets no comma at depth zero.
pub open spec fn no_top_comma(d: int, a: Seq<char>) -> bool
    decreases a.len(),
{
    if a.len() == 0 {
        true
    } else {
        let c = a[0];
        let d2 = if c == '(' {
            d + 1
        } else if c == ')' {
            d - 1
        } else {
            d
        };
        !(c == ',' && d == 0) && no_top_comma(d2, a.drop_first())
    }
}

/// The parenthesis depth reached after reading `a` from depth `d`.
pub open spec fn paren_depth_after(d: int, a: Seq<char>) -> int
    decreases a.len(),
{
    if a.len() == 0 {
        d
    } else {
        let c = a[0];
        let d2 = if c == '(' {
            d + 1
        } else if c == ')' {
            d - 1
        } else {
            d
        };
        paren_depth_after(d2, a.drop_first())
    }
}

/// A parameter that a parameter list can carry unchanged: not empty, trimmed,
/// with its parentheses closed and no comma outside them.
pub open spec fn plain_parameter(p: Seq<char>) -> bool {
    p.len() > 0 && trim(p) == p && no_top_comma(0, p) && paren_depth_after(0, p) == 0
}

proof fn lemma_params_concat(d: int, cur: Seq<char>, a: Seq<char>, b: Seq<char>)
    requires
        no_top_comma(d, a),
    ensures
        params_from(d, cur, a + b) == params_from(paren_depth_after(d, a), cur + a, b),
    decreases a.len(),
{
    if a.len() == 0 {
        assert(a + b =~= b);
        assert(cur + a =~= cur);
    } else {
        let c = a[0];
        let d2 = if c == '(' {
            d + 1
        } else if c == ')' {
            d - 1
        } else {
            d
        };
        assert((a + b)[0] == c);
        assert((a + b).drop_first() =~= a.drop_first() + b);
        lemma_params_concat(d2, cur.push(c), a.drop_first(), b);
        assert(cur.push(c) + a.drop_first() =~= cur + a);
    }
}

proof fn lemma_join_front(ps: Seq<Seq<char>>, sep: Seq<char>)
    requires
        ps.len() >= 2,
    ensures
        join(ps, sep) == ps[0] + sep + join(ps.skip(1), sep),
    decreases ps.len(),
{
    let dl = ps.drop_last();
    assert(dl[0] == ps[0]);
    if ps.len() == 2 {
        assert(ps.skip(1).len() == 1);
        assert(dl.len() == 1);
        assert(join(dl, sep) == ps[0]);
        assert(join(ps.skip(1), sep) == ps.skip(1)[0]);
        assert(ps.skip(1)[0] == ps.last());
    } else {
        lemma_join_front(dl, sep);
        assert(ps.skip(1).drop_last() =~= dl.skip(1));
        assert(ps.skip(1).last() == ps.last());
        assert(join(ps.skip(1), sep) == join(dl.skip(1), sep) + sep + ps.last());
        assert(ps[0] + sep + join(dl.skip(1), sep) + sep + ps.last() =~= ps[0] + sep + (join(
            dl.skip(1),
            sep,
        ) + sep + ps.last()));
    }
}

proof fn lemma_trim_lead_space(p: Seq<char>)
    requires
        trim(p) == p,
    ensures
        trim(seq![' '] + p) == p,
{
    let q = seq![' '] + p;
    assert(q.drop_first() =~= p);
    assert(is_space(' '));
}

proof fn lemma_params_of_join(ps: Seq<Seq<char>>, lead: Seq<char>)
    requires
        ps.len() >= 1,
        lead == Seq::<char>::empty() || lead == seq![' '],
        forall|i: int| 0 <= i < ps.len() ==> plain_parameter(#[trigger] ps[i]),
    ensures
        params_from(0, lead, join(ps, comma_space())) == ps,
    decreases ps.len(),
{
    let p0 = ps[0];
    assert(plain_parameter(p0));
    if lead == seq![' '] {
        lemma_trim_lead_space(p0);
    } else {
        assert(lead + p0 =~= p0);
    }
    assert(trim(lead + p0) == p0);
    assert((lead + p0).len() > 0);
    if ps.len() == 1 {
        assert(join(ps, comma_space()) == p0);
        lemma_params_concat(0, lead, p0, Seq::empty());
        assert(p0 + Seq::<char>::empty() =~= p0);
        assert(params_from(0, lead + p0, Seq::empty()) == seq![trim(lead + p0)]);
        assert(seq![p0] =~= ps);
    } else {
        let tail = ps.skip(1);
        lemma_join_front(ps, comma_space());
        let rest = comma_space() + join(tail, comma_space());
        assert(join(ps, comma_space()) =~= p0 + rest);
        lemma_params_concat(0, lead, p0, rest);
        assert(rest[0] == ',');
        assert(rest.drop_first() =~= seq![' '] + join(tail, comma_space()));
        let r2 = seq![' '] + join(tail, comma_space());
        assert(r2[0] == ' ');
        assert(r2.drop_first() =~= join(tail, comma_space()));
        assert(Seq::<char>::empty().push(' ') =~= seq![' ']);
        assert forall|i: int| 0 <= i < tail.len() implies plain_parameter(#[trigger] tail[i]) by {
            assert(tail[i] == ps[i + 1]);
        }
        lemma_params_of_join(tail, seq![' ']);
        assert(params_from(0, lead + p0, rest) == seq![trim(lead + p0)] + params_from(
            0,
            Seq::empty(),
            r2,
        ));
        assert(params_from(0, Seq::empty(), r2) == params_from(
            0,
            Seq::<char>::empty().push(' '),
            join(tail, comma_space()),
        ));
        assert(seq![p0] + tail =~= ps);
    }
}

/// A parameter list written from plain parameters, separated by `, ` and
/// enclosed in parentheses, parses back to exactly those parameters, and
/// parsing it changes nothing else.
pub proof fn lemma_parameter_list_round_trip(old: ParsedView, ps: Seq<Seq<char>>)
    requires
        ps.len() >= 1,
        forall|i: int| 0 <= i < ps.len() ==> plain_parameter(#[trigger] ps[i]),
    ensures
        params_effect(old, seq!['('] + join(ps, comma_space()) + seq![')']) == (ParsedView {
            parameters: ps,
            ..old
        }),
{
    let j = join(ps, comma_space());
    let p = seq!['('] + j + seq![')'];
    assert(p.drop_first() =~= j + seq![')']);
    assert((j + seq![')']).drop_last() =~= j);
    lemma_params_of_join(ps, Seq::empty());
    lemma_join_len(ps);
}

proof fn lemma_join_len(ps: Seq<Seq<char>>)
    requires
        ps.len() >= 1,
        ps[0].len() > 0,
    ensures
        join(ps, comma_space()).len() > 0,
    decreases ps.len(),
{
    if ps.len() > 1 {
        lemma_join_len(ps.drop_last());
    }
}

/// What parsing a whole demangled name gives: the name part is what comes before
/// the first `(`, the parameter list what follows from it.
pub open spec fn parse_spec(s: Seq<char>) -> ParsedView {
    match index_of(s, '(') {
        Some(k) => params_effect(name_effect(empty_view(), s.take(k)), s.skip(k)),
        None => name_effect(empty_view(), s),
    }
}

/// Fills in the parameters from a parameter list such as `(int, char*)`.
pub fn parse_parameters_part(params_part: &str, result: &mut ParsedFunction)
    ensures
        final(result)@ == params_effect(old(result)@, params_part@),
{
    let v = chars_of(params_part);
    let lo: usize = if v.len() > 0 && v[0] == '(' {
        1
    } else {
        0
    };
    let hi: usize = if v.len() > lo && v[v.len() - 1] == ')' {
        v.len() - 1
    } else {
        v.len()
    };
    proof {
        let a = if v@.len() > 0 && v@[0] == '(' {
            v@.drop_first()
        } else {
            v@
        };
        assert(a =~= v@.subrange(lo as int, v.len() as int));
        if a.len() > 0 && a.last() == ')' {
            assert(a.drop_last() =~= v@.subrange(lo as int, hi as int));
        }
    }
    let ghost inner = v@.subrange(lo as int, hi as int);
    assert(inner == params_inner(params_part@));
    if lo == hi {
        return;
    }
    let mut params: Vec<String> = Vec::new();
    let mut start: usize = lo;
    let mut opens: usize = 0;
    let mut closes: usize = 0;
    let mut i: usize = lo;
    assert(v@.subrange(lo as int, lo as int) =~= Seq::<char>::empty());
    while i < hi
        invariant
            lo <= start <= i <= hi <= v.len(),
            opens + closes <= i - lo,
            inner == v@.subrange(lo as int, hi as int),
            views(params@) + params_from(
                opens - closes,
                v@.subrange(start as int, i as int),
                v@.subrange(i as int, hi as int),
            ) == params_from(0, Seq::empty(), inner),
        decreases hi - i,
    {
        let c = v[i];
        let ghost rest = v@.subrange(i as int, hi as int);
        let ghost cur = v@.subrange(start as int, i as int);
        assert(rest.drop_first() =~= v@.subrange(i + 1, hi as int));
        assert(cur.push(c) =~= v@.subrange(start as int, i + 1));
        if c == '(' {
            opens = opens + 1;
        } else if c == ')' {
            closes = closes + 1;
        } else if c == ',' && opens == closes {
            let piece = trimmed_string(&v, start, i);
            let ghost before = params@;
            params.push(piece);
            assert(views(params@) =~= views(before) + seq![trim(cur)]);
            assert(v@.subrange(i + 1, i + 1) =~= Seq::<char>::empty());
            start = i + 1;
        }
        i = i + 1;
    }
    let ghost cur = v@.subrange(start as int, i as int);
    assert(v@.subrange(i as int, hi as int) =~= Seq::<char>::empty());
    if start < i {
        let piece = trimmed_string(&v, start, i);
        let ghost before = params@;
        params.push(piece);
        assert(views(params@) =~= views(before) + seq![trim(cur)]);
    } else {
        assert(views(params@) + Seq::<Seq<char>>::empty() =~= views(params@));
    }
    result.parameters = params;
}

/// The separator between the components of a qualified name.
pub open spec fn colons() -> Seq<char> {
    seq![':', ':']
}

/// The separator between the items of a list.
pub open spec fn comma_space() -> Seq<char> {
    seq![',', ' ']
}

/// The pieces that `full_name` joins: the namespace path if there is one, the
/// function name, and the template arguments in angle brackets if there are some.
pub open spec fn full_name_parts(p: ParsedView) -> Seq<Seq<char>> {
    let a: Seq<Seq<char>> = if p.namespace.len() > 0 {
        seq![join(p.namespace, colons())]
    } else {
        Seq::empty()
    };
    let b = a.push(p.function_name);
    match p.template_args {
        Some(t) => b.push(seq!['<'] + join(t, comma_space()) + seq!['>']),
        None => b,
    }
}

/// The qualified name of a descriptor.
pub open spec fn full_name_of(p: ParsedView) -> Seq<char> {
    join(full_name_parts(p), colons())
}

/// The signature of a descriptor: its qualified name, its parameters in
/// parentheses, and ` -> ` with the return type if it has one.
pub open spec fn signature_of(p: ParsedView) -> Seq<char> {
    let sig = full_name_of(p) + seq!['('] + join(p.parameters, comma_space()) + seq![')'];
    match p.return_type {
        Some(t) => sig + seq![' ', '-', '>', ' '] + t,
        None => sig,
    }
}

impl ParsedFunction {
    /// A descriptor with no namespace, an empty name, no template arguments, no
    /// parameters, no return type and no flag set.
    pub fn new() -> (r: Self)
        ensures
            r@ == empty_view(),
    {
        let r = ParsedFunction {
            namespace: Vec::new(),
            function_name: String::new(),
            template_args: None,
            parameters: Vec::new(),
            return_type: None,
            is_operator: false,
            is_constructor: false,
            is_destructor: false,
        };
        assert(r@.namespace =~= Seq::<Seq<char>>::empty());
        assert(r@.parameters =~= Seq::<Seq<char>>::empty());
        r
    }

    /// The qualified name: namespace, function name and `<`template arguments`>`,
    /// joined with `::`.
    pub fn full_name(&self) -> (r: String)
        ensures
            r@ == full_name_of(self@),
    {
        let mut parts: Vec<String> = Vec::new();
        let path_sep = "::";
        proof {
            reveal_strlit("::");
            reveal_strlit(", ");
        }
        assert(path_sep@ =~= colons());
        assert(", "@ =~= comma_space());
        if self.namespace.len() > 0 {
            parts.push(join_strings(&self.namespace, path_sep));
        }
        assert(views(parts@) =~= (if self@.namespace.len() > 0 {
            seq![join(self@.namespace, colons())]
        } else {
            Seq::<Seq<char>>::empty()
        }));
        let ghost a = views(parts@);
        parts.push(self.function_name.clone());
        assert(views(parts@) =~= a.push(self@.function_name));
        match &self.template_args {
            Some(args) => {
                let mut t = String::new();
                t.push('<');
                let inner = join_strings(args, ", ");
                push_str(&mut t, inner.as_str());
                t.push('>');
                assert(t@ =~= seq!['<'] + join(views(args@), comma_space()) + seq!['>']);
                let ghost b = views(parts@);
                parts.push(t);
                assert(views(parts@) =~= b.push(t@));
            },
            None => {},
        }
        let r = join_strings(&parts, path_sep);
        assert(views(parts@) =~= full_name_parts(self@));
        r
    }

    /// The full signature: `full_name`, then the parameters in parentheses, then
    /// ` -> ` and the return type when there is one.
    pub fn signature(&self) -> (r: String)
        ensures
            r@ == signature_of(self@),
    {
        let mut sig = self.full_name();
        sig.push('(');
        proof {
            reveal_strlit(", ");
            reveal_strlit(" -> ");
        }
        assert(", "@ =~= comma_space());
        let ps = join_strings(&self.parameters, ", ");
        push_str(&mut sig, ps.as_str());
        sig.push(')');
        match &self.return_type {
            Some(t) => {
                push_str(&mut sig, " -> ");
                push_str(&mut sig, t.as_str());
                assert(sig@ =~= signature_of(self@));
            },
            None => {
                assert(sig@ =~= signature_of(self@));
            },
        }
        sig
    }
}

/// Parses a demangled name: the part before the first `(` gives namespace,
/// function name, template arguments and flags, the rest the parameters.
pub fn parse_demangled_string(demangled: &str) -> (r: ParsedFunction)
    ensures
        r@ == parse_spec(demangled@),
{
    let mut result = ParsedFunction::new();
    let v = chars_of(demangled);
    match find_char(&v, '(') {
        Some(k) => {
            let name_part = string_of(&v, 0, k);
            let params_part = string_of(&v, k, v.len());
            parse_name_part(name_part.as_str(), &mut result);
            parse_parameters_part(params_part.as_str(), &mut result);
        },
        None => {
            parse_name_part(demangled, &mut result);
        },
    }
    result
}

/// The characters that may continue a function name after `::`: letters and
/// digits (as `char::is_alphanumeric` counts them; for ASCII, `a`-`z`, `A`-`Z`
/// and `0`-`9`), `_`, `:`, and the characters of operator names.
pub open spec fn name_char(c: char) -> bool {
    (if (c as u32) < 128 {
        ascii_alphanumeric(c)
    } else {
        alphanumeric(c)
    }) || c == '_' || c == ':' || c == '[' || c == ']' || c == '+' || c == '-' || c
        == '*' || c == '/' || c == '=' || c == '!' || c == '<' || c == '>' || c == '&' || c == '|'
        || c == '^' || c == '~'
}

/// Reads the name that starts at `j`: counts the `<` and `>` met, and gives where
/// the name ends: at a `(` or a space, else after its last other name character,
/// else (at any other character or at the end) where it was last known to end.
pub open spec fn scan_name(s: Seq<char>, j: int, opens: int, closes: int, end: int) -> (
    int,
    int,
    int,
)
    decreases s.len() - j,
{
    if j < 0 || j >= s.len() {
        (opens, closes, end)
    } else if s[j] == '<' {
        scan_name(s, j + 1, opens + 1, closes, end)
    } else if s[j] == '>' {
        scan_name(s, j + 1, opens, closes + 1, end)
    } else if s[j] == '(' || s[j] == ' ' {
        (opens, closes, j)
    } else if name_char(s[j]) {
        scan_name(s, j + 1, opens, closes, j + 1)
    } else {
        (opens, closes, end)
    }
}

/// The separator `::` at `i`, when the name after it has as many `<` as `>`:
/// the index of the separator and the end of the name.
pub open spec fn balanced_candidate(s: Seq<char>, i: int) -> Option<(int, int)> {
    if 0 <= i && i + 1 < s.len() && s[i] == ':' && s[i + 1] == ':' {
        let (o, c, e) = scan_name(s, i + 2, 0, 0, i + 2);
        if o == c {
            Some((i, e))
        } else {
            None
        }
    } else {
        None
    }
}

/// The last balanced candidate that starts before `n`.
pub open spec fn last_candidate_before(s: Seq<char>, n: int) -> Option<(int, int)>
    decreases n,
{
    if n <= 0 {
        None
    } else {
        match balanced_candidate(s, n - 1) {
            Some(p) => Some(p),
            None => last_candidate_before(s, n - 1),
        }
    }
}

/// The last `::` of `s` after which the name is balanced in angle brackets.
pub open spec fn last_balanced_namespace(s: Seq<char>) -> Option<(int, int)> {
    last_candidate_before(s, s.len() as int)
}

proof fn lemma_scan_bounds(s: Seq<char>, j: int, opens: int, closes: int, end: int)
    requires
        0 <= j,
        end <= j,
    ensures
        end <= scan_name(s, j, opens, closes, end).2,
        scan_name(s, j, opens, closes, end).2 <= if j <= s.len() { s.len() as int } else { end },
    decreases s.len() - j,
{
    if j < s.len() {
        if s[j] == '<' {
            lemma_scan_bounds(s, j + 1, opens + 1, closes, end);
        } else if s[j] == '>' {
            lemma_scan_bounds(s, j + 1, opens, closes + 1, end);
        } else if s[j] == '(' || s[j] == ' ' {
        } else if name_char(s[j]) {
            lemma_scan_bounds(s, j + 1, opens, closes, j + 1);
        }
    }
}

proof fn lemma_candidate_bounds(s: Seq<char>, n: int)
    ensures
        last_candidate_before(s, n) matches Some((a, b)) ==> 0 <= a && a + 2 <= b <= s.len(),
    decreases n,
{
    if n > 0 {
        if 0 <= n - 1 && n < s.len() {
            lemma_scan_bounds(s, n + 1, 0, 0, n + 1);
        }
        lemma_candidate_bounds(s, n - 1);
    }
}

/// Reads the name after the separator at `i`: the counts of `<` and `>` and its end.
fn scan_name_exec(v: &Vec<char>, i: usize) -> (r: (usize, usize, usize))
    requires
        i + 2 <= v.len(),
    ensures
        (r.0 as int, r.1 as int, r.2 as int) == scan_name(v@, i + 2, 0, 0, i + 2),
{
    let mut j: usize = i + 2;
    let mut opens: usize = 0;
    let mut closes: usize = 0;
    let mut end: usize = i + 2;
    let mut done = false;
    while j < v.len() && !done
        invariant
            i + 2 <= j <= v.len(),
            opens + closes <= j - (i + 2),
            end <= j,
            !done ==> scan_name(v@, j as int, opens as int, closes as int, end as int) == scan_name(
                v@,
                i + 2,
                0,
                0,
                i + 2,
            ),
            done ==> (opens as int, closes as int, end as int) == scan_name(v@, i + 2, 0, 0, i + 2),
        decreases v.len() - j, if done { 0int } else { 1int },
    {
        let c = v[j];
        if c == '<' {
            opens = opens + 1;
            j = j + 1;
        } else if c == '>' {
            closes = closes + 1;
            j = j + 1;
        } else if c == '(' || c == ' ' {
            end = j;
            done = true;
        } else if c.is_alphanumeric() || c == '_' || c == ':' || c == '[' || c == ']' || c == '+'
            || c == '-' || c == '*' || c == '/' || c == '=' || c == '!' || c == '<' || c == '>'
            || c == '&' || c == '|' || c == '^' || c == '~' {
            end = j + 1;
            j = j + 1;
        } else {
            done = true;
        }
    }
    (opens, closes, end)
}

/// Finds the last `::` after which the name has as many `<` as `>` (or none),
/// and gives the index of that `::` and the end of the name that follows it.
/// This recovers the function name from inside nested template expressions.
pub fn find_last_balanced_namespace(demangled: &str) -> (r: Option<(usize, usize)>)
    ensures
        r matches Some((a, b)) ==> last_balanced_namespace(demangled@) == Some((a as int, b as int)),
        r is None ==> last_balanced_namespace(demangled@) is None,
{
    let v = chars_of(demangled);
    let mut best: Option<(usize, usize)> = None;
    let mut i: usize = 0;
    while i < v.len()
        invariant
            i <= v.len(),
            v@ == demangled@,
            best matches Some((a, b)) ==> last_candidate_before(v@, i as int) == Some(
                (a as int, b as int),
            ),
            best is None ==> last_candidate_before(v@, i as int) is None,
        decreases v.len() - i,
    {
        if i + 1 < v.len() && v[i] == ':' && v[i + 1] == ':' {
            let (opens, closes, end) = scan_name_exec(&v, i);
            if opens == closes {
                best = Some((i, end));
            }
        }
        i = i + 1;
    }
    best
}

/// The name that `extract_function_name_from_complex` gives.
pub open spec fn complex_function_name(s: Seq<char>) -> Option<Seq<char>> {
    match last_balanced_namespace(s) {
        Some((a, b)) => {
            let part = s.subrange(a + 2, b);
            Some(
                match index_of(part, '<') {
                    Some(k) => part.take(k),
                    None => part,
                },
            )
        },
        None => match index_of(s, '(') {
            Some(k) => {
                let name = s.take(k);
                Some(
                    match index_of(name, '<') {
                        Some(t) => name.take(t),
                        None => name,
                    },
                )
            },
            None => None,
        },
    }
}

/// `v` up to its first `<`, as a string.
fn before_angle(v: &Vec<char>) -> (r: String)
    ensures
        r@ == (match index_of(v@, '<') {
            Some(k) => v@.take(k),
            None => v@,
        }),
{
    match find_char(v, '<') {
        Some(k) => string_of(v, 0, k),
        None => {
            assert(v@.subrange(0, v.len() as int) =~= v@);
            string_of(v, 0, v.len())
        },
    }
}

/// The function name of a demangled name with nested templates: what follows the
/// last balanced `::`, up to its own template arguments; without such a separator,
/// the text before the first `(`, up to its template arguments.
pub fn extract_function_name_from_complex(demangled: &str) -> (r: Option<String>)
    ensures
        r matches Some(n) ==> complex_function_name(demangled@) == Some(n@),
        r is None ==> complex_function_name(demangled@) is None,
{
    let v = chars_of(demangled);
    proof {
        lemma_candidate_bounds(v@, v@.len() as int);
    }
    match find_last_balanced_namespace(demangled) {
        Some((ns_end, name_end)) => {
            let part = slice_of(&v, ns_end + 2, name_end);
            Some(before_angle(&part))
        },
        None => match find_char(&v, '(') {
            Some(k) => {
                let name = slice_of(&v, 0, k);
                Some(before_angle(&name))
            },
            None => None,
        },
    }
}

/// The namespace components read from `rest`, when `depth` is the angle-bracket
/// depth reached and `cur` the component read so far: a `:` at depth zero ends a
/// component, and empty components are dropped.
pub open spec fn namespaces_from(depth: int, cur: Seq<char>, rest: Seq<char>) -> Seq<Seq<char>>
    decreases rest.len(),
{
    if rest.len() == 0 {
        if cur.len() > 0 {
            seq![cur]
        } else {
            Seq::empty()
        }
    } else {
        let c = rest[0];
        let tail = rest.drop_first();
        if c == ':' && depth == 0 {
            if cur.len() > 0 {
                seq![cur] + namespaces_from(depth, Seq::empty(), tail)
            } else {
                namespaces_from(depth, Seq::empty(), tail)
            }
        } else if c == '<' {
            namespaces_from(depth + 1, cur.push(c), tail)
        } else if c == '>' {
            namespaces_from(depth - 1, cur.push(c), tail)
        } else {
            namespaces_from(depth, cur.push(c), tail)
        }
    }
}

/// The namespace components that `extract_namespace_from_complex` gives.
pub open spec fn complex_namespace(s: Seq<char>) -> Seq<Seq<char>> {
    match last_balanced_namespace(s) {
        Some((a, _)) => namespaces_from(0, Seq::empty(), s.take(a)),
        None => Seq::empty(),
    }
}

/// The namespace components before the last balanced `::`, split on `::` outside
/// template arguments.
pub fn extract_namespace_from_complex(demangled: &str) -> (r: Vec<String>)
    ensures
        views(r@) == complex_namespace(demangled@),
{
    let v = chars_of(demangled);
    proof {
        lemma_candidate_bounds(v@, v@.len() as int);
    }
    match find_last_balanced_namespace(demangled) {
        Some((ns_end, _)) => {
            let ghost whole = v@.take(ns_end as int);
            let mut names: Vec<String> = Vec::new();
            let mut start: usize = 0;
            let mut opens: usize = 0;
            let mut closes: usize = 0;
            let mut i: usize = 0;
            assert(v@.subrange(0, 0) =~= Seq::<char>::empty());
            assert(v@.subrange(0, ns_end as int) =~= whole);
            while i < ns_end
                invariant
                    start <= i <= ns_end <= v.len(),
                    opens + closes <= i,
                    whole == v@.take(ns_end as int),
                    views(names@) + namespaces_from(
                        opens - closes,
                        v@.subrange(start as int, i as int),
                        v@.subrange(i as int, ns_end as int),
                    ) == namespaces_from(0, Seq::empty(), whole),
                decreases ns_end - i,
            {
                let c = v[i];
                let ghost rest = v@.subrange(i as int, ns_end as int);
                let ghost cur = v@.subrange(start as int, i as int);
                assert(rest.drop_first() =~= v@.subrange(i + 1, ns_end as int));
                assert(cur.push(c) =~= v@.subrange(start as int, i + 1));
                assert(v@.subrange(i + 1, i + 1) =~= Seq::<char>::empty());
                if c == ':' && opens == closes {
                    if start < i {
                        let piece = string_of(&v, start, i);
                        let ghost before = names@;
                        names.push(piece);
                        assert(views(names@) =~= views(before) + seq![cur]);
                    }
                    start = i + 1;
                } else if c == '<' {
                    opens = opens + 1;
                } else if c == '>' {
                    closes = closes + 1;
                }
                i = i + 1;
            }
            let ghost cur = v@.subrange(start as int, i as int);
            assert(v@.subrange(i as int, ns_end as int) =~= Seq::<char>::empty());
            if start < i {
                let piece = string_of(&v, start, i);
                let ghost before = names@;
                names.push(piece);
                assert(views(names@) =~= views(before) + seq![cur]);
            } else {
                assert(views(names@) + Seq::<Seq<char>>::empty() =~= views(names@));
            }
            names
        },
        None => {
            let r: Vec<String> = Vec::new();
            assert(views(r@) =~= Seq::<Seq<char>>::empty());
            r
        },
    }
}

/// What `cpp_demangle` makes of a mangled symbol: its demangled text, or nothing
/// where the symbol does not parse or cannot be printed.
pub uninterp spec fn demangling_of(mangled: Seq<char>) -> Option<Seq<char>>;

/// Relies on `cpp_demangle::Symbol::new` (parse the mangled symbol) followed by
/// `Symbol::demangle` (print it with the default options); the text depends on
/// the symbol alone. An error of either step becomes its message.
#[verifier::external_body]
fn demangle_symbol(mangled: &str) -> (r: Result<String, String>)
    ensures
        r is Ok <==> demangling_of(mangled@) is Some,
        r matches Ok(d) ==> demangling_of(mangled@) == Some(d@),
{
    match cpp_demangle::Symbol::new(mangled) {
        Ok(sym) => match sym.demangle() {
            Ok(d) => Ok(d),
            Err(e) => Err(format!("Failed to demangle: {:?}", e)),
        },
        Err(e) => Err(format!("Failed to parse mangled name: {:?}", e)),
    }
}

/// A parsed name marked as a constructor is named after its innermost namespace
/// component, which exists.
pub proof fn lemma_constructor_names_its_class(s: Seq<char>)
    ensures
        parse_spec(s).is_constructor ==> parse_spec(s).namespace.len() > 0
            && parse_spec(s).function_name == parse_spec(s).namespace.last(),
{
}

/// The demangled text of a C++ symbol, where it is one.
pub fn demangle_name(name: &str) -> (r: Option<String>)
    ensures
        r matches Some(d) ==> demangling_of(name@) == Some(d@),
        r is None ==> demangling_of(name@) is None,
{
    match demangle_symbol(name) {
        Ok(d) => Some(d),
        Err(_) => None,
    }
}

/// Demangles a C++ symbol and parses the result. Fails, with a message, exactly
/// where the symbol cannot be demangled.
pub fn demangle_and_parse_cpp_function(mangled_name: &str) -> (r: Result<ParsedFunction, String>)
    ensures
        r is Ok <==> demangling_of(mangled_name@) is Some,
        r matches Ok(p) ==> p@ == parse_spec(demangling_of(mangled_name@)->0),
{
    let demangled = demangle_symbol(mangled_name)?;
    Ok(parse_demangled_string(demangled.as_str()))
}

} // verus!
