//! Character-level text operations: whitespace trimming, line splitting,
//! joining and substring replacement, each stated over `Seq<char>`.
use vstd::prelude::*;
use vstd::string::*;

verus! {

/// Unicode `White_Space` property, as used by `char::is_whitespace`.
pub open spec fn is_ws(c: char) -> bool {
    let v = c as u32;
    ||| 0x09 <= v <= 0x0d
    ||| v == 0x20
    ||| v == 0x85
    ||| v == 0xa0
    ||| v == 0x1680
    ||| 0x2000 <= v <= 0x200a
    ||| v == 0x2028
    ||| v == 0x2029
    ||| v == 0x202f
    ||| v == 0x205f
    ||| v == 0x3000
}

/// Whether `c` is a Unicode whitespace character.
pub fn is_whitespace(c: char) -> (b: bool)
    ensures
        b == is_ws(c),
{
    let v = c as u32;
    (0x09 <= v && v <= 0x0d) || v == 0x20 || v == 0x85 || v == 0xa0 || v == 0x1680 || (0x2000
        <= v && v <= 0x200a) || v == 0x2028 || v == 0x2029 || v == 0x202f || v == 0x205f || v
        == 0x3000
}

/// `s` with its leading whitespace removed.
pub open spec fn trim_start(s: Seq<char>) -> Seq<char>
    decreases s.len(),
{
    if s.len() > 0 && is_ws(s[0]) {
        trim_start(s.drop_first())
    } else {
        s
    }
}

/// `s` with its trailing whitespace removed.
pub open spec fn trim_end(s: Seq<char>) -> Seq<char>
    decreases s.len(),
{
    if s.len() > 0 && is_ws(s.last()) {
        trim_end(s.drop_last())
    } else {
        s
    }
}

/// `s` with whitespace removed at both ends, as `str::trim` does.
pub open spec fn trim(s: Seq<char>) -> Seq<char> {
    trim_end(trim_start(s))
}

/// Appends one character to a string.
#[verifier::external_body]
pub(crate) fn push_char(s: &mut String, c: char)
    ensures
        final(s)@ == old(s)@.push(c),
{
    s.push(c);
}

/// The characters of `s`, in order.
pub fn chars_of(s: &str) -> (v: Vec<char>)
    ensures
        v@ == s@,
{
    let mut v: Vec<char> = Vec::new();
    for c in it: s.chars()
        invariant
            v@ == it.seq().take(it.index() as int),
            it.seq() == s@,
    {
        v.push(c);
    }
    v
}

/// The string made of `cs[from..to]`.
pub fn string_of(cs: &Vec<char>, from: usize, to: usize) -> (s: String)
    requires
        from <= to <= cs.len(),
    ensures
        s@ == cs@.subrange(from as int, to as int),
{
    let mut s = String::new();
    let mut i = from;
    while i < to
        invariant
            from <= i <= to <= cs.len(),
            s@ == cs@.subrange(from as int, i as int),
        decreases to - i,
    {
        push_char(&mut s, cs[i]);
        i = i + 1;
    }
    s
}


/// The views of a sequence of character vectors.
pub open spec fn char_views(v: Seq<Vec<char>>) -> Seq<Seq<char>> {
    Seq::new(v.len(), |i: int| v[i]@)
}

/// The views of a sequence of strings.
pub open spec fn string_views(v: Seq<String>) -> Seq<Seq<char>> {
    Seq::new(v.len(), |i: int| v[i]@)
}

/// `s` without a final carriage return.
pub open spec fn strip_cr(s: Seq<char>) -> Seq<char> {
    if s.len() > 0 && s.last() == '\r' {
        s.drop_last()
    } else {
        s
    }
}

/// Reading `s` from the left: the lines ended so far by a newline, and the
/// characters read since the last newline.
pub open spec fn lines_acc(s: Seq<char>) -> (Seq<Seq<char>>, Seq<char>)
    decreases s.len(),
{
    if s.len() == 0 {
        (Seq::empty(), Seq::empty())
    } else {
        let (done, cur) = lines_acc(s.drop_last());
        if s.last() == '\n' {
            (done.push(strip_cr(cur)), Seq::empty())
        } else {
            (done, cur.push(s.last()))
        }
    }
}

/// The lines of `s`, as `str::lines` gives them: split after each newline,
/// a carriage return dropped just before a newline, no empty final line.
pub open spec fn lines(s: Seq<char>) -> Seq<Seq<char>> {
    let (done, cur) = lines_acc(s);
    if cur.len() == 0 {
        done
    } else {
        done.push(cur)
    }
}

/// Reading text that follows a newline: the lines of `x + b`, where `x`
/// ends at a line break, are those of `x` followed by those of `b`.
pub proof fn lines_acc_after_break(x: Seq<char>, b: Seq<char>)
    requires
        lines_acc(x).1.len() == 0,
    ensures
        lines_acc(x + b) == (lines_acc(x).0 + lines_acc(b).0, lines_acc(b).1),
    decreases b.len(),
{
    if b.len() == 0 {
        assert(x + b =~= x);
        assert(lines_acc(x).0 + Seq::<Seq<char>>::empty() =~= lines_acc(x).0);
    } else {
        let b1 = b.drop_last();
        lines_acc_after_break(x, b1);
        assert((x + b).drop_last() =~= x + b1);
        assert((x + b).last() == b.last());
        let (d1, c1) = lines_acc(b1);
        if b.last() == '\n' {
            assert((lines_acc(x).0 + d1).push(strip_cr(c1)) =~= lines_acc(x).0 + d1.push(strip_cr(c1)));
        }
    }
}

/// The lines of two texts joined by a newline: the lines of the first,
/// its last one ended there, then the lines of the second.
pub proof fn lines_of_joined(a: Seq<char>, b: Seq<char>)
    ensures
        lines(a + seq!['\n'] + b) == lines_acc(a).0.push(strip_cr(lines_acc(a).1)) + lines(b),
{
    let x = a + seq!['\n'];
    assert(x.drop_last() =~= a);
    assert(x.last() == '\n');
    lines_acc_after_break(x, b);
    let (db, cb) = lines_acc(b);
    let pre = lines_acc(a).0.push(strip_cr(lines_acc(a).1));
    if cb.len() > 0 {
        assert((pre + db).push(cb) =~= pre + db.push(cb));
    }
}

/// Reading text with no newline: no line is ended, and all of it is read.
proof fn lines_acc_without_newline(l: Seq<char>)
    requires
        !has_char(l, '\n'),
    ensures
        lines_acc(l) == (Seq::<Seq<char>>::empty(), l),
    decreases l.len(),
{
    if l.len() > 0 {
        let p = l.drop_last();
        assert(!has_char(p, '\n')) by {
            if has_char(p, '\n') {
                let i = choose|i: int| 0 <= i < p.len() && p[i] == '\n';
                assert(l[i] == '\n');
            }
        }
        lines_acc_without_newline(p);
        assert(l[l.len() - 1] == l.last());
        assert(p.push(l.last()) =~= l);
    }
}

/// Text with no newline is one line, unless it is empty.
pub proof fn lines_of_one_line(l: Seq<char>)
    requires
        !has_char(l, '\n'),
    ensures
        lines(l) == (if l.len() == 0 {
            Seq::<Seq<char>>::empty()
        } else {
            seq![l]
        }),
{
    lines_acc_without_newline(l);
    if l.len() > 0 {
        assert(Seq::<Seq<char>>::empty().push(l) =~= seq![l]);
    }
}

/// A line ended by a newline is one line, without the newline and without
/// a carriage return just before it.
pub proof fn lines_of_ended_line(l: Seq<char>)
    requires
        !has_char(l, '\n'),
    ensures
        lines(l + seq!['\n']) == seq![
            if l.len() > 0 && l.last() == '\r' {
                l.drop_last()
            } else {
                l
            },
        ],
{
    lines_acc_without_newline(l);
    let x = l + seq!['\n'];
    assert(x.drop_last() =~= l);
    assert(x.last() == '\n');
    assert(Seq::<Seq<char>>::empty().push(strip_cr(l)) =~= seq![strip_cr(l)]);
}

/// Splitting after a newline: the lines of `a`, a newline and `b` are the
/// lines of `a` with the newline, then the lines of `b`.
pub proof fn lines_split_at_newline(a: Seq<char>, b: Seq<char>)
    ensures
        lines(a + seq!['\n'] + b) == lines(a + seq!['\n']) + lines(b),
{
    lines_of_joined(a, b);
    let x = a + seq!['\n'];
    assert(x.drop_last() =~= a);
    assert(x.last() == '\n');
}

/// Trimming ignores a whitespace character added at the end.
pub proof fn trim_push_ws(y: Seq<char>, w: char)
    requires
        is_ws(w),
    ensures
        trim(y.push(w)) == trim(y),
{
    trim_start_push(y, w);
    let t = trim_start(y);
    if t.len() == 0 {
        assert(seq![w].drop_first() =~= Seq::<char>::empty());
        assert(trim_start(seq![w]) == trim_start(Seq::<char>::empty()));
    } else {
        assert(t.push(w).drop_last() =~= t);
    }
}

/// Trimming the front of a text with a character added at the end.
pub proof fn trim_start_push(y: Seq<char>, c: char)
    ensures
        trim_start(y.push(c)) == (if trim_start(y).len() == 0 {
            trim_start(seq![c])
        } else {
            trim_start(y).push(c)
        }),
    decreases y.len(),
{
    if y.len() == 0 {
        assert(y.push(c) =~= seq![c]);
    } else if is_ws(y[0]) {
        assert(y.push(c).drop_first() =~= y.drop_first().push(c));
        trim_start_push(y.drop_first(), c);
    }
}

/// The lines of `cs`, each as a vector of characters.
pub fn split_lines(cs: &Vec<char>) -> (ls: Vec<Vec<char>>)
    ensures
        char_views(ls@) == lines(cs@),
{
    let mut done: Vec<Vec<char>> = Vec::new();
    let mut cur: Vec<char> = Vec::new();
    let n = cs.len();
    for i in 0..n
        invariant
            n == cs.len(),
            (char_views(done@), cur@) == lines_acc(cs@.take(i as int)),
    {
        assert(cs@.take(i + 1).drop_last() == cs@.take(i as int));
        let c = cs[i];
        if c == '\n' {
            let ghost old_done = char_views(done@);
            if cur.len() > 0 && cur[cur.len() - 1] == '\r' {
                cur.pop();
            }
            done.push(cur);
            cur = Vec::new();
            assert(char_views(done@) == old_done.push(char_views(done@).last()));
        } else {
            cur.push(c);
        }
    }
    assert(cs@.take(n as int) == cs@);
    if cur.len() > 0 {
        let ghost old_done = char_views(done@);
        done.push(cur);
        assert(char_views(done@) == old_done.push(char_views(done@).last()));
    }
    done
}


/// The bounds of `trim(cs[from..to])` inside `cs`.
pub fn trim_range(cs: &Vec<char>, from: usize, to: usize) -> (r: (usize, usize))
    requires
        from <= to <= cs.len(),
    ensures
        from <= r.0 <= r.1 <= to,
        cs@.subrange(r.0 as int, r.1 as int) == trim(cs@.subrange(from as int, to as int)),
{
    let mut i = from;
    while i < to && is_whitespace(cs[i])
        invariant
            from <= i <= to <= cs.len(),
            trim_start(cs@.subrange(from as int, to as int)) == trim_start(
                cs@.subrange(i as int, to as int),
            ),
        decreases to - i,
    {
        assert(cs@.subrange(i as int, to as int).drop_first() == cs@.subrange(i + 1, to as int));
        i = i + 1;
    }
    let mut j = to;
    while i < j && is_whitespace(cs[j - 1])
        invariant
            from <= i <= j <= to <= cs.len(),
            trim_start(cs@.subrange(from as int, to as int)) == cs@.subrange(i as int, to as int),
            trim_end(cs@.subrange(i as int, to as int)) == trim_end(
                cs@.subrange(i as int, j as int),
            ),
        decreases j - i,
    {
        assert(cs@.subrange(i as int, j as int).drop_last() == cs@.subrange(i as int, j - 1));
        j = j - 1;
    }
    (i, j)
}


/// The parts joined, with `sep` between each two neighbours.
pub open spec fn join(parts: Seq<Seq<char>>, sep: Seq<char>) -> Seq<char>
    decreases parts.len(),
{
    if parts.len() == 0 {
        Seq::empty()
    } else if parts.len() == 1 {
        parts[0]
    } else {
        join(parts.drop_last(), sep) + sep + parts.last()
    }
}

/// The strings joined, with `sep` between each two neighbours, as
/// `[String]::join` gives them.
pub fn join_strings(parts: &Vec<String>, sep: &str) -> (s: String)
    ensures
        s@ == join(string_views(parts@), sep@),
{
    let mut s = String::new();
    let n = parts.len();
    for i in 0..n
        invariant
            n == parts.len(),
            s@ == join(string_views(parts@).take(i as int), sep@),
    {
        let ghost all = string_views(parts@);
        assert(all.take(i + 1).drop_last() == all.take(i as int));
        if i > 0 {
            s.append(sep);
        }
        s.append(parts[i].as_str());
    }
    assert(string_views(parts@).take(n as int) == string_views(parts@));
    s
}


/// A new string holding `a` followed by `b`.
pub fn concat_str(a: &str, b: &str) -> (s: String)
    ensures
        s@ == a@ + b@,
{
    let mut s = a.to_owned();
    s.append(b);
    s
}


/// The lines of `s`, as `str::lines` gives them.
pub fn lines_of(s: &str) -> (ls: Vec<String>)
    ensures
        string_views(ls@) == lines(s@),
{
    let cs = chars_of(s);
    let parts = split_lines(&cs);
    let mut ls: Vec<String> = Vec::new();
    let n = parts.len();
    for i in 0..n
        invariant
            n == parts.len(),
            string_views(ls@) == char_views(parts@).take(i as int),
    {
        let line = string_of(&parts[i], 0, parts[i].len());
        assert(parts[i as int]@.subrange(0, parts[i as int]@.len() as int) == parts[i as int]@);
        let ghost before = string_views(ls@);
        ls.push(line);
        assert(string_views(ls@) =~= before.push(parts[i as int]@));
        assert(char_views(parts@).take(i + 1) =~= char_views(parts@).take(i as int).push(
            parts[i as int]@,
        ));
    }
    assert(char_views(parts@).take(n as int) == char_views(parts@));
    ls
}

/// `s` with every occurrence of `from` replaced by `to`, the occurrences
/// found from the left without overlap, as `str::replace` does.
pub open spec fn replace_all(s: Seq<char>, from: Seq<char>, to: Seq<char>) -> Seq<char>
    recommends
        from.len() > 0,
    decreases s.len(),
{
    if from.len() == 0 || s.len() < from.len() {
        s
    } else if s.take(from.len() as int) == from {
        to + replace_all(s.skip(from.len() as int), from, to)
    } else {
        seq![s[0]] + replace_all(s.drop_first(), from, to)
    }
}

/// Whether `pat` occurs in `cs` at position `i`.
fn occurs_at(cs: &Vec<char>, i: usize, pat: &Vec<char>) -> (b: bool)
    requires
        i <= cs.len(),
    ensures
        b == (i + pat.len() <= cs.len() && cs@.subrange(i as int, i + pat.len()) == pat@),
{
    if pat.len() > cs.len() - i {
        return false;
    }
    let mut k: usize = 0;
    while k < pat.len()
        invariant
            i + pat.len() <= cs.len(),
            k <= pat.len(),
            forall|j: int| 0 <= j < k ==> cs@[i + j] == pat@[j],
        decreases pat.len() - k,
    {
        if cs[i + k] != pat[k] {
            assert(cs@.subrange(i as int, i + pat.len())[k as int] != pat@[k as int]);
            return false;
        }
        k = k + 1;
    }
    assert(cs@.subrange(i as int, i + pat.len()) =~= pat@);
    true
}

/// `s` with every occurrence of `from` replaced by `to`.
pub fn replace_str(s: &str, from: &str, to: &str) -> (r: String)
    requires
        from@.len() > 0,
    ensures
        r@ == replace_all(s@, from@, to@),
{
    let cs = chars_of(s);
    let pat = chars_of(from);
    let n = cs.len();
    let m = pat.len();
    let mut out = String::new();
    let mut i: usize = 0;
    assert(cs@.skip(0) == cs@);
    while i < n
        invariant
            n == cs@.len(),
            m == pat@.len() > 0,
            cs@ == s@,
            pat@ == from@,
            i <= n,
            replace_all(s@, from@, to@) == out@ + replace_all(cs@.skip(i as int), from@, to@),
        decreases n - i,
    {
        let ghost rest = cs@.skip(i as int);
        if occurs_at(&cs, i, &pat) {
            assert(rest.take(m as int) == cs@.subrange(i as int, i + m));
            assert(rest.skip(m as int) == cs@.skip(i + m));
            out.append(to);
            i = i + m;
        } else {
            if m <= n - i {
                assert(rest.take(m as int) == cs@.subrange(i as int, i + m));
            }
            assert(rest.len() < m || rest.take(m as int) != pat@);
            assert(rest.drop_first() == cs@.skip(i + 1));
            assert(rest[0] == cs@[i as int]);
            push_char(&mut out, cs[i]);
            i = i + 1;
        }
    }
    assert(cs@.skip(n as int) =~= Seq::<char>::empty());
    out
}


/// Whether two strings hold the same characters.
pub fn str_equal(a: &str, b: &str) -> (eq: bool)
    ensures
        eq == (a@ == b@),
{
    let x = chars_of(a);
    let y = chars_of(b);
    if x.len() != y.len() {
        return false;
    }
    let mut i: usize = 0;
    while i < x.len()
        invariant
            x@ == a@,
            y@ == b@,
            x@.len() == y@.len(),
            i <= x@.len(),
            forall|j: int| 0 <= j < i ==> x@[j] == y@[j],
        decreases x.len() - i,
    {
        if x[i] != y[i] {
            assert(x@[i as int] != y@[i as int]);
            return false;
        }
        i = i + 1;
    }
    assert(x@ =~= y@);
    true
}


/// Whether `c` occurs in `s`.
pub open spec fn has_char(s: Seq<char>, c: char) -> bool {
    exists|i: int| 0 <= i < s.len() && s[i] == c
}

/// Whether `sub` occurs in `s`.
pub open spec fn has_substring(s: Seq<char>, sub: Seq<char>) -> bool {
    exists|i: int| 0 <= i && i + sub.len() <= s.len() && #[trigger] s.subrange(i, i + sub.len()) == sub
}

/// Whether `s` starts with `prefix`.
pub open spec fn has_prefix(s: Seq<char>, prefix: Seq<char>) -> bool {
    prefix.len() <= s.len() && s.take(prefix.len() as int) == prefix
}

/// Whether `c` occurs in `s`.
pub fn contains_char(s: &str, c: char) -> (b: bool)
    ensures
        b == has_char(s@, c),
{
    let cs = chars_of(s);
    let mut i: usize = 0;
    while i < cs.len()
        invariant
            cs@ == s@,
            i <= cs@.len(),
            forall|j: int| 0 <= j < i ==> cs@[j] != c,
        decreases cs.len() - i,
    {
        if cs[i] == c {
            return true;
        }
        i = i + 1;
    }
    false
}

/// Whether `sub` occurs in `s`.
pub fn contains_str(s: &str, sub: &str) -> (b: bool)
    ensures
        b == has_substring(s@, sub@),
{
    let cs = chars_of(s);
    let pat = chars_of(sub);
    let mut i: usize = 0;
    loop
        invariant
            cs@ == s@,
            pat@ == sub@,
            i <= cs@.len(),
            forall|j: int|
                0 <= j < i && j + pat@.len() <= cs@.len() ==> #[trigger] cs@.subrange(
                    j,
                    j + pat@.len(),
                ) != pat@,
        decreases cs.len() - i,
    {
        if occurs_at(&cs, i, &pat) {
            return true;
        }
        if i == cs.len() {
            return false;
        }
        i = i + 1;
    }
}

/// Whether `s` starts with `prefix`.
pub fn starts_with_str(s: &str, prefix: &str) -> (b: bool)
    ensures
        b == has_prefix(s@, prefix@),
{
    let cs = chars_of(s);
    let pat = chars_of(prefix);
    let b = occurs_at(&cs, 0, &pat);
    assert(cs@.subrange(0, pat@.len() as int) == cs@.take(pat@.len() as int));
    b
}

} // verus!
