use vstd::prelude::*;

verus! {

/// A blank cell in a captured row: a space or a horizontal tab.
pub open spec fn is_blank(c: char) -> bool {
    c == ' ' || c == '\t'
}

/// The sequence without its leading blanks.
pub open spec fn trim_front(s: Seq<char>) -> Seq<char>
    decreases s.len(),
{
    if s.len() > 0 && is_blank(s[0]) {
        trim_front(s.drop_first())
    } else {
        s
    }
}

/// The sequence without its trailing blanks.
pub open spec fn trim_back(s: Seq<char>) -> Seq<char>
    decreases s.len(),
{
    if s.len() > 0 && is_blank(s.last()) {
        trim_back(s.drop_last())
    } else {
        s
    }
}

/// The sequence without leading or trailing blanks.
pub open spec fn trim_blanks(s: Seq<char>) -> Seq<char> {
    trim_back(trim_front(s))
}

/// The lines of `s`, split at every newline; a text with n newlines has
/// n + 1 lines, so the empty text has one empty line.
pub open spec fn split_lines(s: Seq<char>) -> Seq<Seq<char>>
    decreases s.len(),
{
    if s.len() == 0 {
        seq![Seq::<char>::empty()]
    } else {
        let rest = split_lines(s.drop_last());
        if s.last() == '\n' {
            rest.push(Seq::<char>::empty())
        } else {
            rest.update(rest.len() - 1, rest.last().push(s.last()))
        }
    }
}

/// Every line trimmed of leading and trailing blanks.
pub open spec fn trim_all(ls: Seq<Seq<char>>) -> Seq<Seq<char>> {
    ls.map_values(|l: Seq<char>| trim_blanks(l))
}

/// The lines joined with single newlines between them.
pub open spec fn join_lines(ls: Seq<Seq<char>>) -> Seq<char>
    decreases ls.len(),
{
    if ls.len() == 0 {
        Seq::<char>::empty()
    } else if ls.len() == 1 {
        ls[0]
    } else {
        join_lines(ls.drop_last()) + seq!['\n'] + ls.last()
    }
}

/// What rendering a captured screen produces: each row trimmed of leading
/// and trailing blanks, rows joined by newlines.
pub open spec fn rendered_of(s: Seq<char>) -> Seq<char> {
    join_lines(trim_all(split_lines(s)))
}

/// A split always has at least one line.
pub proof fn lemma_split_lines_len(s: Seq<char>)
    ensures
        split_lines(s).len() >= 1,
    decreases s.len(),
{
    if s.len() > 0 {
        lemma_split_lines_len(s.drop_last());
    }
}

/// The number of lines never changes under trimming.
proof fn lemma_trim_all_len(ls: Seq<Seq<char>>)
    ensures
        trim_all(ls).len() == ls.len(),
{
}

proof fn lemma_trim_all_push(ls: Seq<Seq<char>>, x: Seq<char>)
    ensures
        trim_all(ls.push(x)) =~= trim_all(ls).push(trim_blanks(x)),
{
}

proof fn lemma_join_push(ls: Seq<Seq<char>>, x: Seq<char>)
    ensures
        ls.len() == 0 ==> join_lines(ls.push(x)) == x,
        ls.len() > 0 ==> join_lines(ls.push(x)) == join_lines(ls) + seq!['\n'] + x,
{
    let p = ls.push(x);
    assert(p.drop_last() =~= ls);
    assert(p.last() == x);
    if ls.len() == 0 {
        assert(join_lines(p) == p[0]);
    }
}

/// Appending a newline ends the current line: the split gains one empty
/// line and nothing else changes.
pub proof fn lemma_split_lines_push_nl(s: Seq<char>)
    ensures
        split_lines(s.push('\n')) == split_lines(s).push(Seq::<char>::empty()),
{
    assert(s.push('\n').drop_last() =~= s);
}

/// Appending newline-free text extends the last line and nothing else.
pub proof fn lemma_split_lines_append_clean(s: Seq<char>, t: Seq<char>)
    requires
        !t.contains('\n'),
    ensures
        split_lines(s + t) == split_lines(s).update(
            split_lines(s).len() - 1,
            split_lines(s).last() + t,
        ),
    decreases t.len(),
{
    lemma_split_lines_len(s);
    let ls = split_lines(s);
    let k = ls.len() - 1;
    if t.len() == 0 {
        assert(s + t =~= s);
        assert(ls.last() + t =~= ls.last());
        assert(ls.update(k, ls.last() + t) =~= ls);
    } else {
        let t0 = t.drop_last();
        let c = t.last();
        assert(!t0.contains('\n')) by {
            if t0.contains('\n') {
                let i = choose|i: int| 0 <= i < t0.len() && t0[i] == '\n';
                assert(t[i] == '\n');
                assert(t.contains('\n'));
            }
        }
        assert(c != '\n') by {
            if c == '\n' {
                assert(t[t.len() - 1] == '\n');
                assert(t.contains('\n'));
            }
        }
        lemma_split_lines_append_clean(s, t0);
        let rest = split_lines(s + t0);
        assert((s + t).drop_last() =~= s + t0);
        assert((s + t).last() == c);
        assert(split_lines(s + t) == rest.update(rest.len() - 1, rest.last().push(c)));
        assert(rest.last() == ls.last() + t0);
        assert((ls.last() + t0).push(c) =~= ls.last() + t);
        assert(rest.update(k, ls.last() + t) =~= ls.update(k, ls.last() + t));
    }
}

proof fn lemma_trim_front_chars(s: Seq<char>, c: char)
    requires
        !s.contains(c),
    ensures
        !trim_front(s).contains(c),
    decreases s.len(),
{
    if s.len() > 0 && is_blank(s[0]) {
        assert(!s.drop_first().contains(c)) by {
            if s.drop_first().contains(c) {
                let i = choose|i: int| 0 <= i < s.drop_first().len() && s.drop_first()[i] == c;
                assert(s[i + 1] == c);
                assert(s.contains(c));
            }
        }
        lemma_trim_front_chars(s.drop_first(), c);
    }
}

proof fn lemma_trim_back_chars(s: Seq<char>, c: char)
    requires
        !s.contains(c),
    ensures
        !trim_back(s).contains(c),
    decreases s.len(),
{
    if s.len() > 0 && is_blank(s.last()) {
        assert(!s.drop_last().contains(c)) by {
            if s.drop_last().contains(c) {
                let i = choose|i: int| 0 <= i < s.drop_last().len() && s.drop_last()[i] == c;
                assert(s[i] == c);
                assert(s.contains(c));
            }
        }
        lemma_trim_back_chars(s.drop_last(), c);
    }
}

/// Trimming introduces no character.
proof fn lemma_trim_blanks_chars(s: Seq<char>, c: char)
    requires
        !s.contains(c),
    ensures
        !trim_blanks(s).contains(c),
{
    lemma_trim_front_chars(s, c);
    lemma_trim_back_chars(trim_front(s), c);
}

/// Splitting introduces no character: every line holds only characters of
/// the text.
proof fn lemma_split_lines_chars(s: Seq<char>, c: char)
    requires
        !s.contains(c),
    ensures
        forall|i: int| 0 <= i < split_lines(s).len() ==> !(#[trigger] split_lines(s)[i]).contains(
            c,
        ),
    decreases s.len(),
{
    if s.len() == 0 {
        assert forall|i: int|
            0 <= i < split_lines(s).len() implies !(#[trigger] split_lines(s)[i]).contains(c) by {
            assert(!Seq::<char>::empty().contains(c));
        }
    } else {
        assert(!s.drop_last().contains(c)) by {
            if s.drop_last().contains(c) {
                let i = choose|i: int| 0 <= i < s.drop_last().len() && s.drop_last()[i] == c;
                assert(s[i] == c);
                assert(s.contains(c));
            }
        }
        lemma_split_lines_chars(s.drop_last(), c);
        lemma_split_lines_len(s.drop_last());
        let rest = split_lines(s.drop_last());
        assert(s.last() != c) by {
            if s.last() == c {
                assert(s[s.len() - 1] == c);
                assert(s.contains(c));
            }
        }
        assert forall|i: int|
            0 <= i < split_lines(s).len() implies !(#[trigger] split_lines(s)[i]).contains(c) by {
            if s.last() == '\n' {
                if i < rest.len() {
                    assert(split_lines(s)[i] == rest[i]);
                } else {
                    assert(split_lines(s)[i] == Seq::<char>::empty());
                    assert(!Seq::<char>::empty().contains(c));
                }
            } else {
                if i < rest.len() - 1 {
                    assert(split_lines(s)[i] == rest[i]);
                } else {
                    let l = rest.last().push(s.last());
                    assert(split_lines(s)[i] == l);
                    if l.contains(c) {
                        let j = choose|j: int| 0 <= j < l.len() && l[j] == c;
                        if j < rest.last().len() {
                            assert(rest.last()[j] == c);
                            assert(rest.last().contains(c));
                        } else {
                            assert(s.last() == c);
                        }
                    }
                }
            }
        }
    }
}

/// Joining introduces no character but the newline separators.
proof fn lemma_join_lines_chars(ls: Seq<Seq<char>>, c: char)
    requires
        c != '\n',
        forall|i: int| 0 <= i < ls.len() ==> !(#[trigger] ls[i]).contains(c),
    ensures
        !join_lines(ls).contains(c),
    decreases ls.len(),
{
    if ls.len() <= 1 {
    } else {
        lemma_join_lines_chars(ls.drop_last(), c);
        let a = join_lines(ls.drop_last());
        if join_lines(ls).contains(c) {
            let i = choose|i: int| 0 <= i < join_lines(ls).len() && join_lines(ls)[i] == c;
            if i < a.len() {
                assert(a[i] == c);
                assert(a.contains(c));
            } else if i == a.len() {
                assert(c == '\n');
            } else {
                assert(ls.last()[i - a.len() - 1] == c);
                assert(ls.last().contains(c));
            }
        }
    }
}

/// Rendering introduces no character but the newline separators: a capture
/// free of some other character stays free of it after rendering.
pub proof fn lemma_rendered_keeps_absent_chars(s: Seq<char>, c: char)
    requires
        c != '\n',
        !s.contains(c),
    ensures
        !rendered_of(s).contains(c),
{
    lemma_split_lines_chars(s, c);
    let ls = split_lines(s);
    let tl = trim_all(ls);
    assert forall|i: int| 0 <= i < tl.len() implies !(#[trigger] tl[i]).contains(c) by {
        assert(tl[i] == trim_blanks(ls[i]));
        lemma_trim_blanks_chars(ls[i], c);
    }
    lemma_join_lines_chars(tl, c);
}

/// An empty capture renders as the empty text.
pub proof fn lemma_rendered_of_empty()
    ensures
        rendered_of(Seq::<char>::empty()) == Seq::<char>::empty(),
{
    let e = Seq::<char>::empty();
    assert(split_lines(e) == seq![e]);
    assert(trim_blanks(e) == e);
    assert(trim_all(seq![e]) =~= seq![e]);
    assert(join_lines(seq![e]) == e);
}

fn blank_char(c: char) -> (b: bool)
    ensures
        b == is_blank(c),
{
    c == ' ' || c == '\t'
}

/// `s` with leading and trailing blanks removed.
pub fn trim_string(s: &str) -> (r: String)
    ensures
        r@ == trim_blanks(s@),
{
    let n = s.unicode_len();
    proof {
        assert(s@.subrange(0, n as int) =~= s@);
    }
    let mut a: usize = 0;
    while a < n && blank_char(s.get_char(a))
        invariant
            a <= n,
            n == s@.len(),
            trim_front(s@) == trim_front(s@.subrange(a as int, n as int)),
        decreases n - a,
    {
        proof {
            let t = s@.subrange(a as int, n as int);
            assert(t.drop_first() =~= s@.subrange(a as int + 1, n as int));
        }
        a += 1;
    }
    proof {
        let t = s@.subrange(a as int, n as int);
        if a == n {
            assert(t.len() == 0);
        }
        assert(trim_front(s@) == t);
    }
    let mut b: usize = n;
    while b > a && blank_char(s.get_char(b - 1))
        invariant
            a <= b <= n,
            n == s@.len(),
            trim_front(s@) == s@.subrange(a as int, n as int),
            trim_back(s@.subrange(a as int, n as int)) == trim_back(
                s@.subrange(a as int, b as int),
            ),
        decreases b,
    {
        proof {
            let t = s@.subrange(a as int, b as int);
            assert(t.last() == s@[b - 1]);
            assert(t.drop_last() =~= s@.subrange(a as int, b as int - 1));
        }
        b -= 1;
    }
    proof {
        let t = s@.subrange(a as int, b as int);
        if b == a {
            assert(t.len() == 0);
        }
        assert(trim_blanks(s@) == t);
    }
    let piece = s.substring_char(a, b);
    piece.to_owned()
}

/// The rendering step shared by the pseudo-terminal and embedded paths:
/// trim each line of the captured text and join the lines with newlines.
pub fn render_trimmed(raw: &str) -> (out: String)
    ensures
        out@ == rendered_of(raw@),
{
    let n = raw.unicode_len();
    let mut out = String::new();
    let mut cur = String::new();
    let mut first: bool = true;
    let mut i: usize = 0;
    while i < n
        invariant
            i <= n,
            n == raw@.len(),
            split_lines(raw@.take(i as int)).last() == cur@,
            first <==> split_lines(raw@.take(i as int)).len() == 1,
            out@ == join_lines(trim_all(split_lines(raw@.take(i as int)).drop_last())),
        decreases n - i,
    {
        let ghost pre = raw@.take(i as int);
        let ghost lines = split_lines(pre);
        proof {
            lemma_split_lines_len(pre);
            assert(raw@.take(i as int + 1).drop_last() =~= pre);
            assert(raw@.take(i as int + 1).last() == raw@[i as int]);
        }
        let c = raw.get_char(i);
        if c == '\n' {
            proof {
                assert(split_lines(raw@.take(i as int + 1)) == lines.push(Seq::<char>::empty()));
                assert(lines.push(Seq::<char>::empty()).drop_last() =~= lines);
                assert(lines =~= lines.drop_last().push(cur@));
                lemma_trim_all_push(lines.drop_last(), cur@);
                lemma_join_push(trim_all(lines.drop_last()), trim_blanks(cur@));
                lemma_trim_all_len(lines.drop_last());
            }
            let t = trim_string(cur.as_str());
            if !first {
                out.append("\n");
                proof {
                    reveal_strlit("\n");
                    assert("\n"@ =~= seq!['\n']);
                }
            }
            out.append(t.as_str());
            cur = String::new();
            first = false;
        } else {
            proof {
                let upd = lines.update(lines.len() - 1, lines.last().push(c));
                assert(split_lines(raw@.take(i as int + 1)) == upd);
                assert(upd.drop_last() =~= lines.drop_last());
                assert(upd.last() == cur@.push(c));
            }
            push_char(&mut cur, c);
        }
        i += 1;
    }
    proof {
        assert(raw@.take(n as int) =~= raw@);
        let lines = split_lines(raw@);
        lemma_split_lines_len(raw@);
        assert(lines =~= lines.drop_last().push(cur@));
        lemma_trim_all_push(lines.drop_last(), cur@);
        lemma_join_push(trim_all(lines.drop_last()), trim_blanks(cur@));
        lemma_trim_all_len(lines.drop_last());
    }
    let t = trim_string(cur.as_str());
    if !first {
        out.append("\n");
        proof {
            reveal_strlit("\n");
            assert("\n"@ =~= seq!['\n']);
        }
    }
    out.append(t.as_str());
    out
}

/// Relies on `String::push`: appends one character at the end.
#[verifier::external_body]
fn push_char(s: &mut String, c: char)
    ensures
        final(s)@ == old(s)@.push(c),
{
    s.push(c);
}

} // verus!
