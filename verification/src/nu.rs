use vstd::prelude::*;
use crate::error::TrialError;
use crate::render::split_lines;
use crate::render::lemma_split_lines_len;
use crate::render::lemma_split_lines_push_nl;
use crate::render::lemma_split_lines_append_clean;

verus! {

/// One candidate the embedded engine produced: the value to insert and an
/// optional description, in the order the engine returned them.
#[derive(Debug, PartialEq, Eq)]
pub struct Suggestion {
    pub value: String,
    pub description: Option<String>,
}

/// The typed text up to (and not including) the first tab: what the
/// embedded engine's completion API receives, the completion-requesting
/// control character excluded.
pub open spec fn tab_prefix(s: Seq<char>) -> Seq<char>
    decreases s.len(),
{
    if s.len() == 0 {
        s
    } else if s[0] == '\t' {
        Seq::<char>::empty()
    } else {
        seq![s[0]] + tab_prefix(s.drop_first())
    }
}

proof fn lemma_tab_prefix_take(s: Seq<char>, k: int)
    requires
        0 <= k <= s.len(),
        forall|j: int| 0 <= j < k ==> s[j] != '\t',
        k < s.len() ==> s[k] == '\t',
    ensures
        tab_prefix(s) == s.take(k),
    decreases s.len(),
{
    if s.len() == 0 {
        assert(s.take(k) =~= s);
    } else if k == 0 {
        if s[0] == '\t' {
            assert(s.take(0) =~= Seq::<char>::empty());
        } else {
            assert(s.take(0) =~= Seq::<char>::empty());
        }
    } else {
        let r = s.drop_first();
        assert(forall|j: int| 0 <= j < k - 1 ==> r[j] != '\t');
        assert(k - 1 < r.len() ==> r[k - 1] == '\t');
        lemma_tab_prefix_take(r, k - 1);
        assert(seq![s[0]] + r.take(k - 1) =~= s.take(k));
    }
}

/// The input truncated at the first tab; input without a tab is unchanged.
pub fn truncate_at_tab(input: &str) -> (r: String)
    ensures
        r@ == tab_prefix(input@),
{
    let n = input.unicode_len();
    let mut k: usize = 0;
    while k < n && input.get_char(k) != '\t'
        invariant
            k <= n,
            n == input@.len(),
            forall|j: int| 0 <= j < k ==> input@[j] != '\t',
        decreases n - k,
    {
        k += 1;
    }
    proof {
        lemma_tab_prefix_take(input@, k as int);
        assert(input@.take(k as int) =~= input@.subrange(0, k as int));
    }
    input.substring_char(0, k).to_owned()
}

/// Whether a file name follows the embedded engine's completion-script
/// convention: it ends in ".nu".
pub open spec fn has_nu_suffix(s: Seq<char>) -> bool {
    s.len() >= 3 && s[s.len() - 3] == '.' && s[s.len() - 2] == 'n' && s[s.len() - 1] == 'u'
}

/// The command name a completion file registers: the file name without its
/// ".nu" suffix; a file of any other kind registers nothing.
pub fn nu_script_stem(file_name: &str) -> (r: Option<String>)
    ensures
        has_nu_suffix(file_name@) ==> (r matches Some(s) && s@ == file_name@.take(
            file_name@.len() - 3,
        )),
        !has_nu_suffix(file_name@) ==> r is None,
{
    let n = file_name.unicode_len();
    if n < 3 {
        return None;
    }
    if file_name.get_char(n - 3) == '.' && file_name.get_char(n - 2) == 'n' && file_name.get_char(
        n - 1,
    ) == 'u' {
        proof {
            assert(file_name@.take(n as int - 3) =~= file_name@.subrange(0, n as int - 3));
        }
        Some(file_name.substring_char(0, n - 3).to_owned())
    } else {
        None
    }
}

/// Parsing a registered script surfaces the first reported error and stops.
pub fn first_parse_error(errors: &Vec<String>) -> (r: Option<TrialError>)
    ensures
        errors@.len() == 0 ==> r is None,
        errors@.len() > 0 ==> (r matches Some(e) && e matches TrialError::Parse(m) && m@
            == errors@[0]@),
{
    if errors.len() == 0 {
        None
    } else {
        Some(TrialError::Parse(errors[0].clone()))
    }
}

/// The engine block designated as the external-completion hook: the most
/// recently merged one. Completion before any script was merged is a
/// configuration error, never a silent empty result.
pub fn select_completer_block(num_blocks: usize) -> (r: Result<usize, TrialError>)
    ensures
        num_blocks == 0 ==> (r matches Err(e) && e matches TrialError::Configuration(m) && m@
            == "completer not registered"@),
        num_blocks > 0 ==> (r matches Ok(b) && b == num_blocks - 1),
{
    if num_blocks == 0 {
        Err(TrialError::Configuration(String::from_str("completer not registered")))
    } else {
        Ok(num_blocks - 1)
    }
}

/// The engine's working directory value: the home with the platform's path
/// separator appended.
pub fn pwd_with_separator(home: &str, separator: &str) -> (r: String)
    ensures
        r@ == home@ + separator@,
{
    let mut r = home.to_owned();
    r.append(separator);
    r
}

/// A description's trailing newlines are not part of it.
pub open spec fn trim_trailing_newlines(s: Seq<char>) -> Seq<char>
    decreases s.len(),
{
    if s.len() > 0 && s.last() == '\n' {
        trim_trailing_newlines(s.drop_last())
    } else {
        s
    }
}

/// `s` without its trailing newlines.
pub fn trim_newlines_string(s: &str) -> (r: String)
    ensures
        r@ == trim_trailing_newlines(s@),
{
    let n = s.unicode_len();
    proof {
        assert(s@.subrange(0, n as int) =~= s@);
    }
    let mut b: usize = n;
    while b > 0 && s.get_char(b - 1) == '\n'
        invariant
            b <= n,
            n == s@.len(),
            trim_trailing_newlines(s@) == trim_trailing_newlines(s@.subrange(0, b as int)),
        decreases b,
    {
        proof {
            let t = s@.subrange(0, b as int);
            assert(t.last() == s@[b - 1]);
            assert(t.drop_last() =~= s@.subrange(0, b as int - 1));
        }
        b -= 1;
    }
    proof {
        let t = s@.subrange(0, b as int);
        if b == 0 {
            assert(t.len() == 0);
        }
        assert(trim_trailing_newlines(s@) == t);
    }
    s.substring_char(0, b).to_owned()
}

/// The description text of a suggestion, trailing newlines removed.
pub open spec fn spec_description(s: Suggestion) -> Seq<char> {
    match s.description {
        Some(d) => trim_trailing_newlines(d@),
        None => Seq::<char>::empty(),
    }
}

/// The longest candidate value: it fixes how much room descriptions get.
pub open spec fn spec_max_value_len(suggs: Seq<Suggestion>) -> nat
    decreases suggs.len(),
{
    if suggs.len() == 0 {
        0
    } else {
        let rest = spec_max_value_len(suggs.drop_last());
        if suggs.last().value@.len() > rest {
            suggs.last().value@.len()
        } else {
            rest
        }
    }
}

/// The columns left for a description beside the longest value and the
/// four-column spacer; none when the viewport is too narrow for any.
pub open spec fn spec_desc_width(width: nat, maxv: nat) -> nat {
    if width >= maxv + 4 {
        (width - maxv - 4) as nat
    } else {
        0
    }
}

/// The description as the transcript shows it: trailing newlines trimmed,
/// then clipped to the room the viewport leaves.
pub open spec fn spec_clipped_description(s: Suggestion, avail: nat) -> Seq<char> {
    let d = spec_description(s);
    d.take(if d.len() < avail { d.len() as int } else { avail as int })
}

/// One suggestion's transcript line: the value; then, when any clipped
/// description remains, four spaces and that description. A viewport too
/// narrow for any description leaves the bare value, so no line outgrows
/// the viewport on the spacer's account.
pub open spec fn spec_suggestion_line(s: Suggestion, avail: nat) -> Seq<char> {
    let clipped = spec_clipped_description(s, avail);
    if clipped.len() == 0 {
        s.value@
    } else {
        s.value@ + "    "@ + clipped
    }
}

/// The suggestion block: one line per suggestion, each ended by a newline,
/// in the order the engine produced them.
pub open spec fn spec_suggestion_block(suggs: Seq<Suggestion>, avail: nat) -> Seq<char>
    decreases suggs.len(),
{
    if suggs.len() == 0 {
        Seq::<char>::empty()
    } else {
        spec_suggestion_block(suggs.drop_last(), avail) + spec_suggestion_line(
            suggs.last(),
            avail,
        ) + seq!['\n']
    }
}

/// The transcript of one embedded-engine trial, comparable to a
/// pseudo-terminal capture: a prompt line echoing the typed input, then the
/// suggestion block.
pub open spec fn spec_transcript(input: Seq<char>, suggs: Seq<Suggestion>, width: u16) -> Seq<
    char,
> {
    "% "@ + input + seq!['\n'] + spec_suggestion_block(
        suggs,
        spec_desc_width(width as nat, spec_max_value_len(suggs)),
    )
}

/// Format the engine's ordered suggestion list into a transcript for a
/// viewport `width` columns wide: a prompt line echoing the (already
/// truncated) input, then one line per suggestion — its value, and its
/// description (trailing newlines trimmed) clipped so the line does not
/// exceed the viewport width.
pub fn nu_transcript(input: &str, suggestions: &Vec<Suggestion>, width: u16) -> (out: String)
    ensures
        out@ == spec_transcript(input@, suggestions@, width),
{
    let mut maxv: usize = 0;
    let mut i: usize = 0;
    while i < suggestions.len()
        invariant
            i <= suggestions@.len(),
            maxv == spec_max_value_len(suggestions@.take(i as int)),
        decreases suggestions@.len() - i,
    {
        proof {
            assert(suggestions@.take(i as int + 1).drop_last() =~= suggestions@.take(i as int));
            assert(suggestions@.take(i as int + 1).last() == suggestions@[i as int]);
        }
        let l = suggestions[i].value.as_str().unicode_len();
        if l > maxv {
            maxv = l;
        }
        i += 1;
    }
    proof {
        assert(suggestions@.take(suggestions@.len() as int) =~= suggestions@);
    }
    let w = width as usize;
    let avail: usize = if maxv <= w && w - maxv >= 4 {
        w - maxv - 4
    } else {
        0
    };
    proof {
        assert(avail as nat == spec_desc_width(width as nat, spec_max_value_len(suggestions@)));
    }
    let mut out = String::from_str("% ");
    out.append(input);
    out.append("\n");
    proof {
        reveal_strlit("\n");
        assert("\n"@ =~= seq!['\n']);
        assert(spec_suggestion_block(suggestions@.take(0), avail as nat) == Seq::<char>::empty());
        assert(out@ =~= "% "@ + input@ + seq!['\n'] + spec_suggestion_block(
            suggestions@.take(0),
            avail as nat,
        ));
    }
    let mut i: usize = 0;
    while i < suggestions.len()
        invariant
            i <= suggestions@.len(),
            avail as nat == spec_desc_width(width as nat, spec_max_value_len(suggestions@)),
            out@ == "% "@ + input@ + seq!['\n'] + spec_suggestion_block(
                suggestions@.take(i as int),
                avail as nat,
            ),
        decreases suggestions@.len() - i,
    {
        let ghost done = suggestions@.take(i as int);
        proof {
            assert(suggestions@.take(i as int + 1).drop_last() =~= done);
            assert(suggestions@.take(i as int + 1).last() == suggestions@[i as int]);
        }
        let s: &Suggestion = &suggestions[i];
        out.append(s.value.as_str());
        let d_trim: String = match &s.description {
            Some(d) => trim_newlines_string(d.as_str()),
            None => String::new(),
        };
        proof {
            assert(d_trim@ == spec_description(*s));
        }
        let dn = d_trim.as_str().unicode_len();
        let m = if avail < dn {
            avail
        } else {
            dn
        };
        if m > 0 {
            out.append("    ");
            let clipped = d_trim.as_str().substring_char(0, m);
            out.append(clipped);
        }
        proof {
            let d = spec_description(*s);
            assert(d.take(m as int) =~= d.subrange(0, m as int));
            assert(spec_clipped_description(*s, avail as nat) == d.take(m as int));
        }
        out.append("\n");
        proof {
            reveal_strlit("\n");
            assert("\n"@ =~= seq!['\n']);
            let line = spec_suggestion_line(suggestions@[i as int], avail as nat);
            assert(out@ =~= "% "@ + input@ + seq!['\n'] + (spec_suggestion_block(
                done,
                avail as nat,
            ) + line + seq!['\n']));
        }
        i += 1;
    }
    proof {
        assert(suggestions@.take(suggestions@.len() as int) =~= suggestions@);
    }
    out
}

/// A suggestion that renders as a single transcript line: its value and its
/// trimmed description contain no interior newline.
pub open spec fn clean_suggestion(s: Suggestion) -> bool {
    &&& !s.value@.contains('\n')
    &&& !spec_description(s).contains('\n')
}

proof fn lemma_take_clean(t: Seq<char>, k: int)
    requires
        !t.contains('\n'),
        0 <= k <= t.len(),
    ensures
        !t.take(k).contains('\n'),
{
    if t.take(k).contains('\n') {
        let i = choose|i: int| 0 <= i < t.take(k).len() && t.take(k)[i] == '\n';
        assert(t[i] == '\n');
        assert(t.contains('\n'));
    }
}

proof fn lemma_clean_line(s: Suggestion, avail: nat)
    requires
        clean_suggestion(s),
    ensures
        !spec_suggestion_line(s, avail).contains('\n'),
{
    let d = spec_description(s);
    let clipped = spec_clipped_description(s, avail);
    let line = spec_suggestion_line(s, avail);
    if clipped.len() == 0 {
    } else {
        let m: int = if d.len() < avail {
            d.len() as int
        } else {
            avail as int
        };
        lemma_take_clean(d, m);
        reveal_strlit("    ");
        assert("    "@ =~= seq![' ', ' ', ' ', ' ']);
        if line.contains('\n') {
            let i = choose|i: int| 0 <= i < line.len() && line[i] == '\n';
            let vl = s.value@.len() as int;
            if i < vl {
                assert(s.value@[i] == '\n');
                assert(s.value@.contains('\n'));
            } else if i < vl + 4 {
                assert("    "@[i - vl] == '\n');
            } else {
                assert(clipped[i - vl - 4] == '\n');
                assert(clipped.contains('\n'));
            }
        }
    }
}

proof fn lemma_block_split(prefix: Seq<char>, suggs: Seq<Suggestion>, avail: nat)
    requires
        split_lines(prefix).last() == Seq::<char>::empty(),
        forall|i: int| 0 <= i < suggs.len() ==> clean_suggestion(#[trigger] suggs[i]),
    ensures
        split_lines(prefix + spec_suggestion_block(suggs, avail)) == split_lines(
            prefix,
        ).drop_last() + suggs.map_values(|s: Suggestion| spec_suggestion_line(s, avail)) + seq![
            Seq::<char>::empty(),
        ],
    decreases suggs.len(),
{
    lemma_split_lines_len(prefix);
    let f = |s: Suggestion| spec_suggestion_line(s, avail);
    if suggs.len() == 0 {
        assert(prefix + spec_suggestion_block(suggs, avail) =~= prefix);
        assert(suggs.map_values(f) =~= Seq::<Seq<char>>::empty());
        assert(split_lines(prefix).drop_last() + suggs.map_values(f) + seq![Seq::<char>::empty()]
            =~= split_lines(prefix));
    } else {
        let s0 = suggs.drop_last();
        let sl = suggs.last();
        assert(forall|i: int| 0 <= i < s0.len() ==> clean_suggestion(#[trigger] s0[i])) by {
            assert(forall|i: int| 0 <= i < s0.len() ==> s0[i] == suggs[i]);
        }
        lemma_block_split(prefix, s0, avail);
        let a = prefix + spec_suggestion_block(s0, avail);
        let la = split_lines(a);
        let line = spec_suggestion_line(sl, avail);
        lemma_clean_line(sl, avail);
        lemma_split_lines_len(a);
        assert(la.last() == Seq::<char>::empty());
        lemma_split_lines_append_clean(a, line);
        let lb = split_lines(a + line);
        assert(lb == la.update(la.len() - 1, la.last() + line));
        assert(la.last() + line =~= line);
        lemma_split_lines_push_nl(a + line);
        assert((a + line).push('\n') =~= a + line + seq!['\n']);
        assert(prefix + spec_suggestion_block(suggs, avail) =~= a + line + seq!['\n']);
        assert(suggs.map_values(f) =~= s0.map_values(f).push(line));
        assert(split_lines(a + line + seq!['\n']) =~= split_lines(prefix).drop_last()
            + suggs.map_values(f) + seq![Seq::<char>::empty()]);
    }
}

/// Splitting the transcript at newlines yields: the prompt line echoing the
/// typed input; one line per suggestion, in the order the engine produced
/// them, each beginning with its candidate's value; and the empty segment
/// the final newline leaves. Every candidate therefore appears in the
/// transcript, in declared order.
pub proof fn lemma_transcript_lines(input: Seq<char>, suggs: Seq<Suggestion>, width: u16)
    requires
        !input.contains('\n'),
        forall|i: int| 0 <= i < suggs.len() ==> clean_suggestion(#[trigger] suggs[i]),
    ensures
        ({
            let avail = spec_desc_width(width as nat, spec_max_value_len(suggs));
            let lines = split_lines(spec_transcript(input, suggs, width));
            &&& lines.len() == suggs.len() + 2
            &&& lines[0] == "% "@ + input
            &&& lines[lines.len() - 1] == Seq::<char>::empty()
            &&& forall|i: int| 0 <= i < suggs.len() ==> lines[i + 1] == spec_suggestion_line(
                #[trigger] suggs[i],
                avail,
            )
            &&& forall|i: int| 0 <= i < suggs.len() ==> (#[trigger] lines[i + 1]).take(
                suggs[i].value@.len() as int,
            ) == suggs[i].value@
        }),
{
    let avail = spec_desc_width(width as nat, spec_max_value_len(suggs));
    let prompt = "% "@ + input;
    assert(!prompt.contains('\n')) by {
        reveal_strlit("% ");
        assert("% "@ =~= seq!['%', ' ']);
        if prompt.contains('\n') {
            let i = choose|i: int| 0 <= i < prompt.len() && prompt[i] == '\n';
            if i >= 2 {
                assert(input[i - 2] == '\n');
                assert(input.contains('\n'));
            }
        }
    }
    let e = Seq::<char>::empty();
    assert(split_lines(e) == seq![e]);
    lemma_split_lines_append_clean(e, prompt);
    assert(e + prompt =~= prompt);
    assert(split_lines(prompt) =~= seq![prompt]);
    lemma_split_lines_push_nl(prompt);
    let head = prompt + seq!['\n'];
    assert(head =~= prompt.push('\n'));
    assert(split_lines(head) =~= seq![prompt, e]);
    lemma_block_split(head, suggs, avail);
    let f = |s: Suggestion| spec_suggestion_line(s, avail);
    assert(spec_transcript(input, suggs, width) =~= head + spec_suggestion_block(suggs, avail));
    let lines = split_lines(spec_transcript(input, suggs, width));
    assert(split_lines(head).drop_last() =~= seq![prompt]);
    assert(lines =~= seq![prompt] + suggs.map_values(f) + seq![e]);
    assert forall|i: int| 0 <= i < suggs.len() implies (#[trigger] lines[i + 1]).take(
        suggs[i].value@.len() as int,
    ) == suggs[i].value@ by {
        assert(lines[i + 1] == spec_suggestion_line(suggs[i], avail));
        let s = suggs[i];
        let clipped = spec_clipped_description(s, avail);
        if clipped.len() == 0 {
            assert(s.value@.take(s.value@.len() as int) =~= s.value@);
        } else {
            assert(spec_suggestion_line(s, avail).take(s.value@.len() as int) =~= s.value@);
        }
    }
}

proof fn lemma_max_value_len_bound(suggs: Seq<Suggestion>, i: int)
    requires
        0 <= i < suggs.len(),
    ensures
        suggs[i].value@.len() <= spec_max_value_len(suggs),
    decreases suggs.len(),
{
    if i < suggs.len() - 1 {
        lemma_max_value_len_bound(suggs.drop_last(), i);
    }
}

/// When the viewport leaves room for the longest candidate and the spacer,
/// no suggestion line exceeds the viewport width.
pub proof fn lemma_transcript_width(suggs: Seq<Suggestion>, width: u16, i: int)
    requires
        0 <= i < suggs.len(),
        spec_max_value_len(suggs) + 4 <= width,
    ensures
        spec_suggestion_line(
            suggs[i],
            spec_desc_width(width as nat, spec_max_value_len(suggs)),
        ).len() <= width,
{
    lemma_max_value_len_bound(suggs, i);
    reveal_strlit("    ");
    assert("    "@ =~= seq![' ', ' ', ' ', ' ']);
}

} // verus!
