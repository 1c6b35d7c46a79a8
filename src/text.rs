//! Character-sequence helpers shared by the name parser.
use vstd::prelude::*;

verus! {

/// The characters of Unicode's `White_Space` property, which is the set that
/// `char::is_whitespace` documents.
pub open spec fn is_space(c: char) -> bool {
    let u = c as u32;
    (0x9 <= u && u <= 0xd) || u == 0x20 || u == 0x85 || u == 0xa0 || u == 0x1680 || (0x2000 <= u
        && u <= 0x200a) || u == 0x2028 || u == 0x2029 || u == 0x202f || u == 0x205f || u == 0x3000
}

/// Whether `c` is white space, as `char::is_whitespace` answers.
pub fn is_white_space(c: char) -> (r: bool)
    ensures
        r == is_space(c),
{
    let u = c as u32;
    (0x9 <= u && u <= 0xd) || u == 0x20 || u == 0x85 || u == 0xa0 || u == 0x1680 || (0x2000 <= u
        && u <= 0x200a) || u == 0x2028 || u == 0x2029 || u == 0x202f || u == 0x205f || u == 0x3000
}

/// Whether `char::is_alphanumeric` accepts a character (Unicode `Alphabetic` or `Numeric`).
pub uninterp spec fn alphanumeric(c: char) -> bool;

/// The ASCII letters and digits.
pub open spec fn ascii_alphanumeric(c: char) -> bool {
    let u = c as u32;
    (0x30 <= u && u <= 0x39) || (0x41 <= u && u <= 0x5a) || (0x61 <= u && u <= 0x7a)
}

/// Relies on `char::is_alphanumeric`: its answer depends on the character alone,
/// and among ASCII characters it accepts exactly the letters and digits.
pub assume_specification[ char::is_alphanumeric ](c: char) -> (r: bool)
    ensures
        r == alphanumeric(c),
        (c as u32) < 128 ==> r == ascii_alphanumeric(c),
;

/// Relies on `String::push`: appends one character at the end.
pub assume_specification[ String::push ](s: &mut String, ch: char)
    ensures
        final(s)@ == old(s)@.push(ch),
;

/// The views of a sequence of strings.
pub open spec fn views(v: Seq<String>) -> Seq<Seq<char>> {
    v.map_values(|s: String| s@)
}

/// The characters of a string, one by one.
pub fn chars_of(s: &str) -> (r: Vec<char>)
    ensures
        r@ == s@,
{
    let n = s.unicode_len();
    let mut r: Vec<char> = Vec::new();
    let mut i: usize = 0;
    while i < n
        invariant
            n == s@.len(),
            i <= n,
            r@ == s@.subrange(0, i as int),
        decreases n - i,
    {
        r.push(s.get_char(i));
        i = i + 1;
    }
    r
}

/// A string made of `v[lo..hi]`.
pub fn string_of(v: &Vec<char>, lo: usize, hi: usize) -> (r: String)
    requires
        lo <= hi <= v.len(),
    ensures
        r@ == v@.subrange(lo as int, hi as int),
{
    let mut r = String::new();
    let mut i: usize = lo;
    while i < hi
        invariant
            lo <= i <= hi <= v.len(),
            r@ == v@.subrange(lo as int, i as int),
        decreases hi - i,
    {
        r.push(v[i]);
        i = i + 1;
    }
    r
}

/// A copy of `v[lo..hi]`.
pub fn slice_of(v: &Vec<char>, lo: usize, hi: usize) -> (r: Vec<char>)
    requires
        lo <= hi <= v.len(),
    ensures
        r@ == v@.subrange(lo as int, hi as int),
{
    let mut r: Vec<char> = Vec::new();
    let mut i: usize = lo;
    while i < hi
        invariant
            lo <= i <= hi <= v.len(),
            r@ == v@.subrange(lo as int, i as int),
        decreases hi - i,
    {
        r.push(v[i]);
        i = i + 1;
    }
    r
}

/// Whether two strings hold the same characters.
pub fn str_eq(a: &str, b: &str) -> (r: bool)
    ensures
        r == (a@ == b@),
{
    let x = chars_of(a);
    let y = chars_of(b);
    if x.len() != y.len() {
        return false;
    }
    let mut i: usize = 0;
    while i < x.len()
        invariant
            x@ == a@,
            y@ == b@,
            x.len() == y.len(),
            i <= x.len(),
            x@.subrange(0, i as int) == y@.subrange(0, i as int),
        decreases x.len() - i,
    {
        if x[i] != y[i] {
            assert(x@[i as int] != y@[i as int]);
            assert(x@ != y@);
            return false;
        }
        assert(x@.subrange(0, i + 1) == x@.subrange(0, i as int).push(x@[i as int]));
        assert(y@.subrange(0, i + 1) == y@.subrange(0, i as int).push(y@[i as int]));
        i = i + 1;
    }
    assert(x@ == x@.subrange(0, x.len() as int));
    assert(y@ == y@.subrange(0, y.len() as int));
    true
}

/// The first index of `c` in `s` at or after `i`.
pub open spec fn find_from(s: Seq<char>, c: char, i: int) -> Option<int>
    decreases s.len() - i,
{
    if i < 0 || i >= s.len() {
        None
    } else if s[i] == c {
        Some(i)
    } else {
        find_from(s, c, i + 1)
    }
}

/// The first index of `c` in `s`.
pub open spec fn index_of(s: Seq<char>, c: char) -> Option<int> {
    find_from(s, c, 0)
}

/// The last index of `c` in `s[..n]`.
pub open spec fn rfind_upto(s: Seq<char>, c: char, n: int) -> Option<int>
    decreases n,
{
    if n <= 0 || n > s.len() {
        None
    } else if s[n - 1] == c {
        Some(n - 1)
    } else {
        rfind_upto(s, c, n - 1)
    }
}

/// The last index of `c` in `s`.
pub open spec fn last_index_of(s: Seq<char>, c: char) -> Option<int> {
    rfind_upto(s, c, s.len() as int)
}

/// A found index lies within the sequence.
pub proof fn lemma_index_bound(s: Seq<char>, c: char, i: int)
    ensures
        find_from(s, c, i) matches Some(k) ==> i <= k < s.len() && s[k] == c,
    decreases s.len() - i,
{
    if 0 <= i < s.len() && s[i] != c {
        lemma_index_bound(s, c, i + 1);
    }
}

/// A found last index lies within the sequence.
pub proof fn lemma_rindex_bound(s: Seq<char>, c: char, n: int)
    ensures
        rfind_upto(s, c, n) matches Some(k) ==> 0 <= k < n && s[k] == c,
    decreases n,
{
    if 0 < n <= s.len() && s[n - 1] != c {
        lemma_rindex_bound(s, c, n - 1);
    }
}

/// Position of the first `c` in `v`.
pub fn find_char(v: &Vec<char>, c: char) -> (r: Option<usize>)
    ensures
        r matches Some(k) ==> index_of(v@, c) == Some(k as int) && k < v.len() && v@[k as int]
            == c,
        r is None ==> index_of(v@, c) is None,
{
    proof {
        lemma_index_bound(v@, c, 0);
    }
    let mut i: usize = 0;
    while i < v.len()
        invariant
            i <= v.len(),
            index_of(v@, c) == find_from(v@, c, i as int),
        decreases v.len() - i,
    {
        if v[i] == c {
            return Some(i);
        }
        i = i + 1;
    }
    None
}

/// Position of the last `c` in `v`.
pub fn rfind_char(v: &Vec<char>, c: char) -> (r: Option<usize>)
    ensures
        r matches Some(k) ==> last_index_of(v@, c) == Some(k as int) && k < v.len() && v@[k as int]
            == c,
        r is None ==> last_index_of(v@, c) is None,
{
    proof {
        lemma_rindex_bound(v@, c, v@.len() as int);
    }
    let mut n: usize = v.len();
    while n > 0
        invariant
            n <= v.len(),
            last_index_of(v@, c) == rfind_upto(v@, c, n as int),
        decreases n,
    {
        if v[n - 1] == c {
            return Some(n - 1);
        }
        n = n - 1;
    }
    None
}

/// Whether `pat` occurs in `s` at position `i`.
pub open spec fn occurs_at(s: Seq<char>, pat: Seq<char>, i: int) -> bool {
    0 <= i && i + pat.len() <= s.len() && s.subrange(i, i + pat.len()) == pat
}

/// Whether `pat` occurs anywhere in `s`.
pub open spec fn contains(s: Seq<char>, pat: Seq<char>) -> bool {
    exists|i: int| occurs_at(s, pat, i)
}

/// The first position at or after `i` where `pat` occurs in `s`.
pub open spec fn occurrence_from(s: Seq<char>, pat: Seq<char>, i: int) -> Option<int>
    decreases s.len() + 1 - i,
{
    if i < 0 || i + pat.len() > s.len() {
        None
    } else if occurs_at(s, pat, i) {
        Some(i)
    } else {
        occurrence_from(s, pat, i + 1)
    }
}

/// Whether `pat` occurs in `v` at position `i`.
pub fn matches_at(v: &Vec<char>, pat: &Vec<char>, i: usize) -> (r: bool)
    requires
        i + pat.len() <= v.len(),
    ensures
        r == occurs_at(v@, pat@, i as int),
{
    let mut j: usize = 0;
    while j < pat.len()
        invariant
            i + pat.len() <= v.len(),
            j <= pat.len(),
            v@.subrange(i as int, i + j) == pat@.subrange(0, j as int),
        decreases pat.len() - j,
    {
        if v[i + j] != pat[j] {
            assert(v@.subrange(i as int, i + pat.len())[j as int] != pat@[j as int]);
            return false;
        }
        assert(v@.subrange(i as int, i + j + 1) =~= v@.subrange(i as int, i + j).push(v@[i + j]));
        assert(pat@.subrange(0, j + 1) =~= pat@.subrange(0, j as int).push(pat@[j as int]));
        j = j + 1;
    }
    assert(pat@.subrange(0, pat.len() as int) =~= pat@);
    true
}

/// The first position where `pat` occurs in `v`.
pub fn find_chars(v: &Vec<char>, pat: &Vec<char>) -> (r: Option<usize>)
    ensures
        r matches Some(k) ==> occurrence_from(v@, pat@, 0) == Some(k as int) && k + pat.len()
            <= v.len(),
        r is None ==> occurrence_from(v@, pat@, 0) is None,
{
    if pat.len() > v.len() {
        return None;
    }
    let last = v.len() - pat.len();
    let mut i: usize = 0;
    while i <= last
        invariant
            last == v.len() - pat.len(),
            pat.len() <= v.len(),
            i <= last + 1,
            occurrence_from(v@, pat@, 0) == occurrence_from(v@, pat@, i as int),
        decreases last + 1 - i,
    {
        if matches_at(v, pat, i) {
            return Some(i);
        }
        if i == last {
            return None;
        }
        i = i + 1;
    }
    None
}

/// Whether `pat` occurs in `v`.
pub fn contains_chars(v: &Vec<char>, pat: &Vec<char>) -> (r: bool)
    ensures
        r == contains(v@, pat@),
{
    if pat.len() > v.len() {
        assert forall|k: int| !occurs_at(v@, pat@, k) by {}
        return false;
    }
    if pat.len() == 0 {
        assert(v@.subrange(0, 0) =~= pat@);
        assert(occurs_at(v@, pat@, 0));
        return true;
    }
    let last = v.len() - pat.len();
    let mut i: usize = 0;
    while i <= last
        invariant
            last == v.len() - pat.len(),
            0 < pat.len() <= v.len(),
            i <= last + 1,
            forall|k: int| 0 <= k < i ==> !occurs_at(v@, pat@, k),
        decreases last + 1 - i,
    {
        let mut j: usize = 0;
        let mut same = true;
        assert(v@.subrange(i as int, i as int) =~= pat@.subrange(0, 0));
        while j < pat.len()
            invariant
                i <= last,
                last == v.len() - pat.len(),
                j <= pat.len(),
                same == (v@.subrange(i as int, i + j) == pat@.subrange(0, j as int)),
            decreases pat.len() - j,
        {
            if v[i + j] != pat[j] {
                if same {
                    assert(v@.subrange(i as int, i + j + 1)[j as int] != pat@.subrange(
                        0,
                        j + 1,
                    )[j as int]);
                }
                same = false;
            } else if same {
                assert(v@.subrange(i as int, i + j + 1) == v@.subrange(i as int, i + j).push(
                    v@[i + j],
                ));
                assert(pat@.subrange(0, j + 1) == pat@.subrange(0, j as int).push(pat@[j as int]));
            }
            if !same {
                assert(v@.subrange(i as int, i + j + 1) != pat@.subrange(0, j + 1)) by {
                    if v@.subrange(i as int, i + j + 1) == pat@.subrange(0, j + 1) {
                        assert(v@.subrange(i as int, i + j) == v@.subrange(
                            i as int,
                            i + j + 1,
                        ).subrange(0, j as int));
                        assert(pat@.subrange(0, j as int) == pat@.subrange(0, j + 1).subrange(
                            0,
                            j as int,
                        ));
                    }
                }
            }
            j = j + 1;
        }
        assert(pat@.subrange(0, pat.len() as int) == pat@);
        if same {
            assert(occurs_at(v@, pat@, i as int));
            return true;
        }
        i = i + 1;
    }
    false
}

/// `s` without its leading white space.
pub open spec fn trim_start(s: Seq<char>) -> Seq<char>
    decreases s.len(),
{
    if s.len() > 0 && is_space(s[0]) {
        trim_start(s.drop_first())
    } else {
        s
    }
}

/// `s` without its trailing white space.
pub open spec fn trim_end(s: Seq<char>) -> Seq<char>
    decreases s.len(),
{
    if s.len() > 0 && is_space(s.last()) {
        trim_end(s.drop_last())
    } else {
        s
    }
}

/// `s` without white space at either end, as `str::trim` gives it.
pub open spec fn trim(s: Seq<char>) -> Seq<char> {
    trim_end(trim_start(s))
}

/// The bounds `lo..hi` of `trim(v[from..to])` within `v`.
pub fn trim_bounds(v: &Vec<char>, from: usize, to: usize) -> (r: (usize, usize))
    requires
        from <= to <= v.len(),
    ensures
        from <= r.0 <= r.1 <= to,
        v@.subrange(r.0 as int, r.1 as int) == trim(v@.subrange(from as int, to as int)),
{
    let mut lo: usize = from;
    while lo < to && is_white_space(v[lo])
        invariant
            from <= lo <= to <= v.len(),
            trim_start(v@.subrange(lo as int, to as int)) == trim_start(
                v@.subrange(from as int, to as int),
            ),
        decreases to - lo,
    {
        assert(v@.subrange(lo as int, to as int).drop_first() =~= v@.subrange(lo + 1, to as int));
        lo = lo + 1;
    }
    let mut hi: usize = to;
    while hi > lo && is_white_space(v[hi - 1])
        invariant
            from <= lo <= hi <= to <= v.len(),
            trim_end(v@.subrange(lo as int, hi as int)) == trim_end(
                v@.subrange(lo as int, to as int),
            ),
        decreases hi - lo,
    {
        assert(v@.subrange(lo as int, hi as int).drop_last() =~= v@.subrange(lo as int, hi - 1));
        hi = hi - 1;
    }
    proof {
        r_trim_done(v@.subrange(from as int, to as int), v@.subrange(lo as int, to as int));
    }
    (lo, hi)
}

proof fn r_trim_done(s: Seq<char>, t: Seq<char>)
    requires
        trim_start(t) == trim_start(s),
        !(t.len() > 0 && is_space(t[0])),
    ensures
        trim(s) == trim_end(t),
{
}

/// The trimmed string of `v[from..to]`.
pub fn trimmed_string(v: &Vec<char>, from: usize, to: usize) -> (r: String)
    requires
        from <= to <= v.len(),
    ensures
        r@ == trim(v@.subrange(from as int, to as int)),
{
    let (lo, hi) = trim_bounds(v, from, to);
    string_of(v, lo, hi)
}

/// The pieces of `s` between the separators `::`, as `str::split("::")` gives them,
/// when `cur` holds what was read of the current piece and `rest` is still to read.
pub open spec fn split_colons_from(cur: Seq<char>, rest: Seq<char>) -> Seq<Seq<char>>
    decreases rest.len(),
{
    if rest.len() == 0 {
        seq![cur]
    } else if rest.len() >= 2 && rest[0] == ':' && rest[1] == ':' {
        seq![cur] + split_colons_from(Seq::empty(), rest.skip(2))
    } else {
        split_colons_from(cur.push(rest[0]), rest.drop_first())
    }
}

/// The pieces of `s` between the separators `::`.
pub open spec fn split_colons(s: Seq<char>) -> Seq<Seq<char>> {
    split_colons_from(Seq::empty(), s)
}

/// The views of a sequence of character vectors.
pub open spec fn vviews(v: Seq<Vec<char>>) -> Seq<Seq<char>> {
    v.map_values(|x: Vec<char>| x@)
}

/// The pieces of `v` between the separators `::`.
pub fn split_on_colons(v: &Vec<char>) -> (r: Vec<Vec<char>>)
    ensures
        vviews(r@) == split_colons(v@),
{
    let mut r: Vec<Vec<char>> = Vec::new();
    let mut start: usize = 0;
    let mut i: usize = 0;
    assert(v@.subrange(0, 0) =~= Seq::<char>::empty());
    assert(v@.subrange(0, v.len() as int) =~= v@);
    while i < v.len()
        invariant
            start <= i <= v.len(),
            vviews(r@) + split_colons_from(
                v@.subrange(start as int, i as int),
                v@.subrange(i as int, v.len() as int),
            ) == split_colons(v@),
        decreases v.len() - i,
    {
        let ghost rest = v@.subrange(i as int, v.len() as int);
        if i + 1 < v.len() && v[i] == ':' && v[i + 1] == ':' {
            let piece = slice_of(v, start, i);
            assert(rest.skip(2) =~= v@.subrange(i + 2, v.len() as int));
            assert(v@.subrange(i + 2, i + 2) =~= Seq::<char>::empty());
            assert(vviews(r@.push(piece)) =~= vviews(r@) + seq![piece@]);
            r.push(piece);
            i = i + 2;
            start = i;
        } else {
            assert(rest.drop_first() =~= v@.subrange(i + 1, v.len() as int));
            assert(v@.subrange(start as int, i as int).push(v@[i as int]) =~= v@.subrange(
                start as int,
                i + 1,
            ));
            i = i + 1;
        }
    }
    let piece = slice_of(v, start, i);
    assert(vviews(r@.push(piece)) =~= vviews(r@) + seq![piece@]);
    r.push(piece);
    r
}

/// The pieces of `s` between the copies of `sep`, as `str::split(sep)` gives them,
/// when `cur` holds what was read of the current piece and `rest` is still to read.
pub open spec fn split_char_from(sep: char, cur: Seq<char>, rest: Seq<char>) -> Seq<Seq<char>>
    decreases rest.len(),
{
    if rest.len() == 0 {
        seq![cur]
    } else if rest[0] == sep {
        seq![cur] + split_char_from(sep, Seq::empty(), rest.drop_first())
    } else {
        split_char_from(sep, cur.push(rest[0]), rest.drop_first())
    }
}

/// The pieces of `s` between the copies of `sep`, each trimmed.
pub open spec fn split_trimmed(s: Seq<char>, sep: char) -> Seq<Seq<char>> {
    split_char_from(sep, Seq::empty(), s).map_values(|p: Seq<char>| trim(p))
}

/// The pieces of `v[from..to]` between the copies of `sep`, each trimmed.
pub fn split_and_trim(v: &Vec<char>, from: usize, to: usize, sep: char) -> (r: Vec<String>)
    requires
        from <= to <= v.len(),
    ensures
        views(r@) == split_trimmed(v@.subrange(from as int, to as int), sep),
{
    let ghost s = v@.subrange(from as int, to as int);
    let ghost pieces: Seq<Seq<char>> = Seq::empty();
    let mut r: Vec<String> = Vec::new();
    let mut start: usize = from;
    let mut i: usize = from;
    assert(v@.subrange(from as int, from as int) =~= Seq::<char>::empty());
    assert(v@.subrange(from as int, to as int) =~= s);
    while i < to
        invariant
            from <= start <= i <= to <= v.len(),
            s == v@.subrange(from as int, to as int),
            views(r@) == pieces.map_values(|p: Seq<char>| trim(p)),
            pieces + split_char_from(
                sep,
                v@.subrange(start as int, i as int),
                v@.subrange(i as int, to as int),
            ) == split_char_from(sep, Seq::empty(), s),
        decreases to - i,
    {
        let ghost rest = v@.subrange(i as int, to as int);
        assert(rest.drop_first() =~= v@.subrange(i + 1, to as int));
        if v[i] == sep {
            let piece = trimmed_string(v, start, i);
            proof {
                let cur = v@.subrange(start as int, i as int);
                assert(pieces.push(cur).map_values(|p: Seq<char>| trim(p)) =~= pieces.map_values(
                    |p: Seq<char>| trim(p),
                ).push(trim(cur)));
                assert(views(r@.push(piece)) =~= views(r@).push(piece@));
                assert(pieces + split_char_from(sep, cur, rest) =~= pieces.push(cur)
                    + split_char_from(sep, Seq::empty(), rest.drop_first()));
                pieces = pieces.push(cur);
            }
            r.push(piece);
            assert(v@.subrange(i + 1, i + 1) =~= Seq::<char>::empty());
            start = i + 1;
        } else {
            assert(v@.subrange(start as int, i as int).push(v@[i as int]) =~= v@.subrange(
                start as int,
                i + 1,
            ));
        }
        i = i + 1;
    }
    let piece = trimmed_string(v, start, i);
    proof {
        let cur = v@.subrange(start as int, i as int);
        assert(pieces.push(cur).map_values(|p: Seq<char>| trim(p)) =~= pieces.map_values(
            |p: Seq<char>| trim(p),
        ).push(trim(cur)));
        assert(views(r@.push(piece)) =~= views(r@).push(piece@));
        assert(pieces + seq![cur] =~= pieces.push(cur));
    }
    r.push(piece);
    r
}

/// The pieces joined with `sep` between each two.
pub open spec fn join(parts: Seq<Seq<char>>, sep: Seq<char>) -> Seq<char>
    decreases parts.len(),
{
    if parts.len() == 0 {
        Seq::empty()
    } else if parts.len() == 1 {
        parts[0]
    } else {
        join(parts.drop_last(), sep) + sep + parts.last()
    }
}

/// Appends the characters of `t` to `s`.
pub fn push_str(s: &mut String, t: &str)
    ensures
        final(s)@ == old(s)@ + t@,
{
    let cs = chars_of(t);
    let mut i: usize = 0;
    while i < cs.len()
        invariant
            i <= cs.len(),
            cs@ == t@,
            s@ == old(s)@ + t@.subrange(0, i as int),
        decreases cs.len() - i,
    {
        s.push(cs[i]);
        assert(t@.subrange(0, i + 1) =~= t@.subrange(0, i as int).push(t@[i as int]));
        i = i + 1;
    }
    assert(t@.subrange(0, cs.len() as int) =~= t@);
}

/// The strings of `parts` joined with `sep`, as `[String]::join` gives them.
pub fn join_strings(parts: &Vec<String>, sep: &str) -> (r: String)
    ensures
        r@ == join(views(parts@), sep@),
{
    let mut r = String::new();
    let mut i: usize = 0;
    while i < parts.len()
        invariant
            i <= parts.len(),
            r@ == join(views(parts@).take(i as int), sep@),
        decreases parts.len() - i,
    {
        let ghost before = views(parts@).take(i as int);
        let ghost after = views(parts@).take(i + 1);
        assert(after.drop_last() =~= before);
        if i > 0 {
            push_str(&mut r, sep);
        } else {
            assert(r@ =~= Seq::<char>::empty());
        }
        push_str(&mut r, parts[i].as_str());
        proof {
            if i > 0 {
                assert(r@ =~= join(after, sep@));
            } else {
                assert(r@ =~= join(after, sep@));
            }
        }
        i = i + 1;
    }
    assert(views(parts@).take(parts.len() as int) =~= views(parts@));
    r
}

/// What follows `prefix` in `s`, where `s` starts with it.
pub fn strip_prefix(s: &str, prefix: &str) -> (r: Option<String>)
    ensures
        r is Some <==> (prefix@.len() <= s@.len() && s@.take(prefix@.len() as int) == prefix@),
        r matches Some(t) ==> t@ == s@.skip(prefix@.len() as int),
{
    let v = chars_of(s);
    let p = chars_of(prefix);
    if p.len() > v.len() {
        return None;
    }
    let mut i: usize = 0;
    while i < p.len()
        invariant
            p.len() <= v.len(),
            v@ == s@,
            p@ == prefix@,
            i <= p.len(),
            v@.take(i as int) == p@.take(i as int),
        decreases p.len() - i,
    {
        if v[i] != p[i] {
            assert(v@.take(p.len() as int)[i as int] != p@[i as int]);
            assert(p@.take(p.len() as int) =~= p@);
            return None;
        }
        assert(v@.take(i + 1) =~= v@.take(i as int).push(v@[i as int]));
        assert(p@.take(i + 1) =~= p@.take(i as int).push(p@[i as int]));
        i = i + 1;
    }
    assert(p@.take(p.len() as int) =~= p@);
    assert(v@.skip(p.len() as int) =~= v@.subrange(p.len() as int, v.len() as int));
    Some(string_of(&v, p.len(), v.len()))
}

} // verus!
