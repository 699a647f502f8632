//! Text as sequences of characters: trimming, splitting and joining.
use vstd::prelude::*;

verus! {

/// `String::push`: appends one character at the end.
pub assume_specification[ String::push ](s: &mut String, c: char)
    ensures
        final(s)@ == old(s)@.push(c),
;

/// The characters with the Unicode property `White_Space`.
pub open spec fn is_white_space(c: char) -> bool {
    ||| '\u{9}' <= c <= '\u{d}'
    ||| c == ' '
    ||| c == '\u{85}'
    ||| c == '\u{a0}'
    ||| c == '\u{1680}'
    ||| '\u{2000}' <= c <= '\u{200a}'
    ||| c == '\u{2028}'
    ||| c == '\u{2029}'
    ||| c == '\u{202f}'
    ||| c == '\u{205f}'
    ||| c == '\u{3000}'
}

/// Whether `c` is white space.
pub fn white_space(c: char) -> (r: bool)
    ensures
        r == is_white_space(c),
{
    ('\u{9}' <= c && c <= '\u{d}') || c == ' ' || c == '\u{85}' || c == '\u{a0}' || c == '\u{1680}'
        || ('\u{2000}' <= c && c <= '\u{200a}') || c == '\u{2028}' || c == '\u{2029}'
        || c == '\u{202f}' || c == '\u{205f}' || c == '\u{3000}'
}

/// `s` without the white space it begins with.
pub open spec fn trimmed_start(s: Seq<char>) -> Seq<char>
    decreases s.len(),
{
    if s.len() > 0 && is_white_space(s[0]) {
        trimmed_start(s.skip(1))
    } else {
        s
    }
}

/// `s` without the white space it ends with.
pub open spec fn trimmed_end(s: Seq<char>) -> Seq<char>
    decreases s.len(),
{
    if s.len() > 0 && is_white_space(s.last()) {
        trimmed_end(s.drop_last())
    } else {
        s
    }
}

/// `s` without the white space around it.
pub open spec fn trimmed(s: Seq<char>) -> Seq<char> {
    trimmed_end(trimmed_start(s))
}

/// The characters of `s`, one by one.
pub fn chars_of(s: &str) -> (r: Vec<char>)
    ensures
        r@ == s@,
{
    let mut out: Vec<char> = Vec::new();
    for c in it: s.chars()
        invariant
            it.seq() == s@,
            out@ == s@.take(it.index()),
    {
        out.push(c);
    }
    out
}

/// `s` without leading white space.
pub fn trim_start(s: &str) -> (r: &str)
    ensures
        r@ == trimmed_start(s@),
{
    let cs = chars_of(s);
    let mut i: usize = 0;
    assert(s@.skip(0) == s@);
    while i < cs.len() && white_space(cs[i])
        invariant
            cs@ == s@,
            i <= cs.len(),
            trimmed_start(s@) == trimmed_start(s@.skip(i as int)),
        decreases cs.len() - i,
    {
        assert(s@.skip(i as int).skip(1) == s@.skip(i + 1));
        i = i + 1;
    }
    let r = s.substring_char(i, cs.len());
    assert(r@ == s@.skip(i as int));
    r
}

/// `s` without the white space around it.
pub fn trim(s: &str) -> (r: &str)
    ensures
        r@ == trimmed(s@),
{
    let t = trim_start(s);
    let cs = chars_of(t);
    let mut n: usize = cs.len();
    assert(t@.take(n as int) == t@);
    while n > 0 && white_space(cs[n - 1])
        invariant
            cs@ == t@,
            n <= cs.len(),
            trimmed_end(t@) == trimmed_end(t@.take(n as int)),
        decreases n,
    {
        assert(t@.take(n as int).drop_last() == t@.take(n - 1));
        n = n - 1;
    }
    let r = t.substring_char(0, n);
    assert(r@ == t@.take(n as int));
    r
}

/// `s` without the characters `c` that it ends with.
pub open spec fn without_trailing(s: Seq<char>, c: char) -> Seq<char>
    decreases s.len(),
{
    if s.len() > 0 && s.last() == c {
        without_trailing(s.drop_last(), c)
    } else {
        s
    }
}

/// `s` without the characters `c` that it ends with.
pub fn trim_end_matches(s: &str, c: char) -> (r: &str)
    ensures
        r@ == without_trailing(s@, c),
{
    let cs = chars_of(s);
    let mut n: usize = cs.len();
    assert(s@.take(n as int) == s@);
    while n > 0 && cs[n - 1] == c
        invariant
            cs@ == s@,
            n <= cs.len(),
            without_trailing(s@, c) == without_trailing(s@.take(n as int), c),
        decreases n,
    {
        assert(s@.take(n as int).drop_last() == s@.take(n - 1));
        n = n - 1;
    }
    let r = s.substring_char(0, n);
    assert(r@ == s@.take(n as int));
    r
}

/// Whether `s` begins with `c`.
pub open spec fn begins_with(s: Seq<char>, c: char) -> bool {
    s.len() > 0 && s[0] == c
}

/// Whether `s` begins with `c`.
pub fn starts_with(s: &str, c: char) -> (r: bool)
    ensures
        r == begins_with(s@, c),
{
    if s.is_empty() {
        false
    } else {
        s.get_char(0) == c
    }
}

/// Where `c` first stands in `s`; the length of `s` when it does not.
pub open spec fn position(s: Seq<char>, c: char) -> int
    decreases s.len(),
{
    if s.len() == 0 || s[0] == c {
        0
    } else {
        1 + position(s.skip(1), c)
    }
}

/// The parts of `s` between the characters `c`: one more than there are of these.
pub open spec fn parts(s: Seq<char>, c: char) -> Seq<Seq<char>>
    decreases s.len(),
{
    proof {
        lemma_position(s, c);
    }
    let n = position(s, c);
    if n < s.len() {
        seq![s.take(n)] + parts(s.skip(n + 1), c)
    } else {
        seq![s]
    }
}

/// `position` finds the first `c`: it stands there, and nowhere before.
pub proof fn lemma_position(s: Seq<char>, c: char)
    ensures
        0 <= position(s, c) <= s.len(),
        position(s, c) < s.len() ==> s[position(s, c)] == c,
        forall|i: int| 0 <= i < position(s, c) ==> s[i] != c,
    decreases s.len(),
{
    if s.len() > 0 && s[0] != c {
        lemma_position(s.skip(1), c);
        assert forall|i: int| 0 <= i < position(s, c) implies s[i] != c by {
            if i > 0 {
                assert(s.skip(1)[i - 1] == s[i]);
            }
        }
    }
}

/// The first `c` is where it stands with none before it.
pub proof fn lemma_position_at(s: Seq<char>, c: char, n: int)
    requires
        0 <= n <= s.len(),
        n < s.len() ==> s[n] == c,
        forall|i: int| 0 <= i < n ==> s[i] != c,
    ensures
        position(s, c) == n,
{
    lemma_position(s, c);
    let p = position(s, c);
    if p < n {
        assert(s[p] != c);
    } else if n < p {
        assert(s[n] != c);
    }
}

/// The parts of `s` between the characters `c`.
pub fn split(s: &str, c: char) -> (r: Vec<String>)
    ensures
        r.deep_view() == parts(s@, c),
{
    let cs = chars_of(s);
    let mut out: Vec<String> = Vec::new();
    let mut start: usize = 0;
    let mut i: usize = 0;
    assert(out.deep_view() + parts(s@.skip(0), c) == parts(s@, c)) by {
        assert(s@.skip(0) == s@);
    }
    while i < cs.len()
        invariant
            cs@ == s@,
            start <= i <= cs.len(),
            forall|k: int| start <= k < i ==> s@[k] != c,
            out.deep_view() + parts(s@.skip(start as int), c) == parts(s@, c),
        decreases cs.len() - i,
    {
        if cs[i] == c {
            let part = s.substring_char(start, i).to_string();
            let ghost before = out.deep_view();
            let ghost rest = s@.skip(start as int);
            proof {
                lemma_position_at(rest, c, i - start);
                assert(rest.take(i - start) == part@);
                assert(rest.skip(i - start + 1) == s@.skip(i + 1));
            }
            out.push(part);
            assert(out.deep_view() == before.push(part@));
            start = i + 1;
            assert(before + (seq![part@] + parts(s@.skip(i + 1), c)) == before.push(part@) + parts(
                s@.skip(i + 1),
                c,
            ));
        }
        i = i + 1;
    }
    let part = s.substring_char(start, cs.len()).to_string();
    let ghost before = out.deep_view();
    proof {
        let rest = s@.skip(start as int);
        assert(rest == part@);
        lemma_position_at(rest, c, rest.len() as int);
    }
    out.push(part);
    assert(out.deep_view() == before + seq![part@]);
    out
}

/// What stands in `s` before the first `c`; all of it when there is none.
pub open spec fn before_first(s: Seq<char>, c: char) -> Seq<char> {
    s.take(position(s, c))
}

/// What stands in `s` after the first `c`; `None` when there is none.
pub open spec fn after_first(s: Seq<char>, c: char) -> Option<Seq<char>> {
    if position(s, c) < s.len() {
        Some(s.skip(position(s, c) + 1))
    } else {
        None
    }
}

/// `s` cut at its first `c`.
pub fn cut(s: &str, c: char) -> (r: (String, Option<String>))
    ensures
        r.0@ == before_first(s@, c),
        r.1.deep_view() == after_first(s@, c),
{
    let cs = chars_of(s);
    let mut i: usize = 0;
    while i < cs.len() && cs[i] != c
        invariant
            cs@ == s@,
            i <= cs.len(),
            forall|k: int| 0 <= k < i ==> s@[k] != c,
        decreases cs.len() - i,
    {
        i = i + 1;
    }
    proof {
        lemma_position_at(s@, c, i as int);
    }
    let name = s.substring_char(0, i).to_string();
    if i < cs.len() {
        let value = s.substring_char(i + 1, cs.len()).to_string();
        assert(value@ == s@.skip(i + 1));
        (name, Some(value))
    } else {
        (name, None)
    }
}

/// The texts of `list`, each with `sep` before it.
pub open spec fn each_after(list: Seq<Seq<char>>, sep: char) -> Seq<char>
    decreases list.len(),
{
    if list.len() == 0 {
        Seq::empty()
    } else {
        seq![sep] + list[0] + each_after(list.skip(1), sep)
    }
}

/// The texts of `list` with `sep` between them.
pub open spec fn joined(list: Seq<Seq<char>>, sep: char) -> Seq<char> {
    if list.len() == 0 {
        Seq::empty()
    } else {
        list[0] + each_after(list.skip(1), sep)
    }
}

/// The texts of `list` with `sep` between them.
pub fn join(list: &Vec<String>, sep: char) -> (r: String)
    ensures
        r@ == joined(list.deep_view(), sep),
{
    let ghost texts = list.deep_view();
    let mut out = String::new();
    let mut i: usize = 0;
    while i < list.len()
        invariant
            texts == list.deep_view(),
            i <= list.len(),
            i == 0 ==> out@ == Seq::<char>::empty(),
            i > 0 ==> out@ + each_after(texts.skip(i as int), sep) == joined(texts, sep),
        decreases list.len() - i,
    {
        let ghost before = out@;
        let ghost rest = texts.skip(i as int);
        if i > 0 {
            out.push(sep);
        }
        out.append(list[i].as_str());
        proof {
            assert(list@[i as int]@ == texts[i as int]);
            assert(rest.skip(1) == texts.skip(i + 1));
            if i == 0 {
                assert(rest == texts);
                assert(out@ == texts[0]);
            } else {
                assert(rest[0] == texts[i as int]);
                assert(out@ + each_after(texts.skip(i + 1), sep) == before + each_after(rest, sep));
            }
        }
        i = i + 1;
    }
    assert(out@ + each_after(texts.skip(i as int), sep) == out@);
    out
}

/// Splitting gives back what was joined, when the separator stands in none of the texts.
pub proof fn law_split_undoes_join(list: Seq<Seq<char>>, c: char)
    requires
        list.len() > 0,
        forall|i: int, k: int| 0 <= i < list.len() && 0 <= k < list[i].len() ==> list[i][k] != c,
    ensures
        parts(joined(list, c), c) == list,
    decreases list.len(),
{
    let whole = joined(list, c);
    let head = list[0];
    let tail = list.skip(1);
    if tail.len() == 0 {
        assert(whole =~= head);
        lemma_position_at(whole, c, head.len() as int);
        assert(list =~= seq![head]);
    } else {
        let rest = joined(tail, c);
        assert(whole =~= head + (seq![c] + rest));
        assert forall|i: int| 0 <= i < head.len() implies whole[i] != c by {
            assert(whole[i] == list[0][i]);
        }
        lemma_position_at(whole, c, head.len() as int);
        assert(whole.take(head.len() as int) =~= head);
        assert(whole.skip(head.len() as int + 1) =~= rest);
        assert forall|i: int, k: int| 0 <= i < tail.len() && 0 <= k < tail[i].len() implies tail[i][k]
            != c by {
            assert(tail[i][k] == list[i + 1][k]);
        }
        law_split_undoes_join(tail, c);
        assert(list =~= seq![head] + tail);
    }
}

/// Cutting gives back the two texts that `c` was put between, when it does not stand in the first.
pub proof fn law_cut_undoes_pairing(name: Seq<char>, value: Seq<char>, c: char)
    requires
        !name.contains(c),
    ensures
        before_first(name + seq![c] + value, c) == name,
        after_first(name + seq![c] + value, c) == Some(value),
{
    let s = name + seq![c] + value;
    assert forall|i: int| 0 <= i < name.len() implies s[i] != c by {
        assert(s[i] == name[i]);
    }
    lemma_position_at(s, c, name.len() as int);
    assert(s.take(name.len() as int) =~= name);
    assert(s.skip(name.len() as int + 1) =~= value);
}

/// What trailing characters are taken off does not end with one, and one more at the end changes
/// nothing.
pub proof fn law_without_trailing(s: Seq<char>, c: char)
    ensures
        without_trailing(s, c).len() > 0 ==> without_trailing(s, c).last() != c,
        without_trailing(s, c).is_prefix_of(s),
        without_trailing(s.push(c), c) == without_trailing(s, c),
        without_trailing(without_trailing(s, c), c) == without_trailing(s, c),
    decreases s.len(),
{
    assert(s.push(c).drop_last() =~= s);
    if s.len() > 0 && s.last() == c {
        law_without_trailing(s.drop_last(), c);
    }
}

/// What is left after trimming neither begins nor ends with white space, and trimming it again changes
/// nothing.
pub proof fn law_trimmed(s: Seq<char>)
    ensures
        trimmed(s).len() > 0 ==> !is_white_space(trimmed(s)[0]) && !is_white_space(trimmed(s).last()),
        trimmed(s).len() > 0 ==> trimmed_start(s).len() > 0 && trimmed(s)[0] == trimmed_start(s)[0],
        trimmed(s).len() == 0 ==> trimmed_start(s).len() == 0,
        trimmed(trimmed(s)) == trimmed(s),
{
    lemma_trimmed_start(s);
    lemma_trimmed_end(trimmed_start(s));
}

proof fn lemma_trimmed_start(s: Seq<char>)
    ensures
        trimmed_start(s).len() > 0 ==> !is_white_space(trimmed_start(s)[0]),
    decreases s.len(),
{
    if s.len() > 0 && is_white_space(s[0]) {
        lemma_trimmed_start(s.skip(1));
    }
}

proof fn lemma_trimmed_end(s: Seq<char>)
    ensures
        trimmed_end(s).len() > 0 ==> !is_white_space(trimmed_end(s).last()),
        trimmed_end(s).is_prefix_of(s),
        s.len() > 0 && !is_white_space(s[0]) ==> trimmed_end(s).len() > 0,
    decreases s.len(),
{
    if s.len() > 0 && is_white_space(s.last()) {
        lemma_trimmed_end(s.drop_last());
    }
}

/// Trimming the end leaves alone what ends with a character that is not white space.
pub proof fn lemma_trimmed_end_after(head: Seq<char>, tail: Seq<char>)
    requires
        head.len() > 0,
        !is_white_space(head.last()),
    ensures
        trimmed_end(head + tail) == head + trimmed_end(tail),
    decreases tail.len(),
{
    if tail.len() == 0 {
        assert(head + tail =~= head);
        assert(head + trimmed_end(tail) =~= head);
    } else if is_white_space(tail.last()) {
        assert((head + tail).drop_last() =~= head + tail.drop_last());
        lemma_trimmed_end_after(head, tail.drop_last());
    }
}

/// Whether every character of `s` is white space.
pub open spec fn all_white_space(s: Seq<char>) -> bool {
    forall|i: int| 0 <= i < s.len() ==> is_white_space(#[trigger] s[i])
}

/// Trimming takes white space off the ends and nothing else: a text that is white space, then a core
/// that neither begins nor ends with white space, then white space, trims to that core.
pub proof fn law_trim_keeps_core(before: Seq<char>, core: Seq<char>, behind: Seq<char>)
    requires
        all_white_space(before),
        all_white_space(behind),
        core.len() > 0 ==> !is_white_space(core[0]) && !is_white_space(core.last()),
        core.len() == 0 ==> behind.len() == 0,
    ensures
        trimmed(before + core + behind) == core,
        trimmed_start(before + core + behind) == core + behind,
{
    let whole = before + core + behind;
    assert(whole =~= before + (core + behind));
    lemma_trimmed_start_drops(before, core + behind);
    if core.len() > 0 {
        assert((core + behind)[0] == core[0]);
        lemma_trimmed_end_after(core, behind);
        lemma_trimmed_end_of_white_space(behind);
        assert(core + trimmed_end(behind) =~= core);
    } else {
        assert(core + behind =~= core);
    }
}

/// Trimming the start takes off the white space before a text that does not begin with any.
pub proof fn lemma_trimmed_start_drops(before: Seq<char>, s: Seq<char>)
    requires
        all_white_space(before),
        s.len() > 0 ==> !is_white_space(s[0]),
    ensures
        trimmed_start(before + s) == s,
    decreases before.len(),
{
    if before.len() > 0 {
        assert(is_white_space(before[0]));
        assert((before + s)[0] == before[0]);
        assert((before + s).skip(1) =~= before.skip(1) + s);
        assert(all_white_space(before.skip(1))) by {
            assert forall|i: int| 0 <= i < before.skip(1).len() implies is_white_space(
                #[trigger] before.skip(1)[i],
            ) by {
                assert(is_white_space(before[i + 1]));
            }
        }
        lemma_trimmed_start_drops(before.skip(1), s);
    } else {
        assert(before + s =~= s);
    }
}

proof fn lemma_trimmed_end_of_white_space(s: Seq<char>)
    requires
        all_white_space(s),
    ensures
        trimmed_end(s).len() == 0,
    decreases s.len(),
{
    if s.len() > 0 {
        assert(is_white_space(s[s.len() - 1]));
        assert(all_white_space(s.drop_last())) by {
            assert forall|i: int| 0 <= i < s.drop_last().len() implies is_white_space(
                #[trigger] s.drop_last()[i],
            ) by {
                assert(is_white_space(s[i]));
            }
        }
        lemma_trimmed_end_of_white_space(s.drop_last());
    }
}

/// White space is the blank, the controls from tab to carriage return, and the spaces and separators
/// beyond ASCII that Unicode lists; no printing ASCII character is.
pub proof fn law_white_space(c: char)
    ensures
        c <= '\u{7f}' ==> (is_white_space(c) <==> c == ' ' || '\t' <= c <= '\r'),
        c > '\u{7f}' ==> (is_white_space(c) <==> seq![
            '\u{85}',
            '\u{a0}',
            '\u{1680}',
            '\u{2000}',
            '\u{2001}',
            '\u{2002}',
            '\u{2003}',
            '\u{2004}',
            '\u{2005}',
            '\u{2006}',
            '\u{2007}',
            '\u{2008}',
            '\u{2009}',
            '\u{200a}',
            '\u{2028}',
            '\u{2029}',
            '\u{202f}',
            '\u{205f}',
            '\u{3000}',
        ].contains(c)),
{
    let list = seq![
        '\u{85}',
        '\u{a0}',
        '\u{1680}',
        '\u{2000}',
        '\u{2001}',
        '\u{2002}',
        '\u{2003}',
        '\u{2004}',
        '\u{2005}',
        '\u{2006}',
        '\u{2007}',
        '\u{2008}',
        '\u{2009}',
        '\u{200a}',
        '\u{2028}',
        '\u{2029}',
        '\u{202f}',
        '\u{205f}',
        '\u{3000}',
    ];
    if c > '\u{7f}' && is_white_space(c) {
        assert(list[0] == '\u{85}' && list[1] == '\u{a0}' && list[2] == '\u{1680}');
        assert(list[14] == '\u{2028}' && list[15] == '\u{2029}' && list[16] == '\u{202f}');
        assert(list[17] == '\u{205f}' && list[18] == '\u{3000}');
        assert(list[3] == '\u{2000}' && list[4] == '\u{2001}' && list[5] == '\u{2002}');
        assert(list[6] == '\u{2003}' && list[7] == '\u{2004}' && list[8] == '\u{2005}');
        assert(list[9] == '\u{2006}' && list[10] == '\u{2007}' && list[11] == '\u{2008}');
        assert(list[12] == '\u{2009}' && list[13] == '\u{200a}');
    }
}

/// However many of one character end a text, taking them off leaves what stands before them.
pub proof fn law_without_trailing_keeps_rest(s: Seq<char>, run: Seq<char>, c: char)
    requires
        s.len() > 0 ==> s.last() != c,
        forall|i: int| 0 <= i < run.len() ==> run[i] == c,
    ensures
        without_trailing(s + run, c) == s,
    decreases run.len(),
{
    if run.len() > 0 {
        assert((s + run).drop_last() =~= s + run.drop_last());
        assert((s + run).last() == run[run.len() - 1]);
        law_without_trailing_keeps_rest(s, run.drop_last(), c);
    } else {
        assert(s + run =~= s);
    }
}

/// A text begins with a character exactly when that is its first one.
pub proof fn law_begins_with(first: char, rest: Seq<char>, c: char)
    ensures
        begins_with(seq![first] + rest, c) <==> first == c,
        !begins_with(Seq::empty(), c),
{
}

/// A text without the separator is not cut.
pub proof fn law_cut_without_separator(s: Seq<char>, c: char)
    requires
        !s.contains(c),
    ensures
        before_first(s, c) == s,
        after_first(s, c) is None,
        parts(s, c) == seq![s],
{
    assert forall|i: int| 0 <= i < s.len() implies s[i] != c by {
        assert(s.contains(s[i]));
    }
    lemma_position_at(s, c, s.len() as int);
    assert(s.take(s.len() as int) =~= s);
}

/// Joining gives back what was split, and the separator stands in none of the parts.
pub proof fn law_join_undoes_split(s: Seq<char>, c: char)
    ensures
        joined(parts(s, c), c) == s,
        parts(s, c).len() > 0,
        forall|i: int| 0 <= i < parts(s, c).len() ==> !(#[trigger] parts(s, c)[i]).contains(c),
    decreases s.len(),
{
    lemma_position(s, c);
    let n = position(s, c);
    let all = parts(s, c);
    if n < s.len() {
        let rest = s.skip(n + 1);
        let tail = parts(rest, c);
        law_join_undoes_split(rest, c);
        assert(all.skip(1) =~= tail);
        assert(each_after(tail, c) =~= seq![c] + joined(tail, c));
        assert(s =~= s.take(n) + (seq![c] + rest));
        assert forall|i: int| 0 <= i < all.len() implies !(#[trigger] all[i]).contains(c) by {
            if i > 0 {
                assert(all[i] == tail[i - 1]);
            }
        }
    } else {
        assert(all =~= seq![s]);
        assert(joined(all, c) =~= s);
        assert(!s.contains(c));
    }
}

/// One more text is joined on with the separator before it; a single one stands alone.
pub proof fn law_join_one_more(list: Seq<Seq<char>>, last: Seq<char>, c: char)
    ensures
        joined(Seq::<Seq<char>>::empty(), c) == Seq::<char>::empty(),
        joined(seq![last], c) == last,
        list.len() > 0 ==> joined(list.push(last), c) == joined(list, c) + seq![c] + last,
{
    assert(joined(seq![last], c) =~= last);
    if list.len() > 0 {
        lemma_each_after_push(list.skip(1), last, c);
        assert(list.push(last).skip(1) =~= list.skip(1).push(last));
        assert(joined(list.push(last), c) =~= joined(list, c) + seq![c] + last);
    }
}

proof fn lemma_each_after_push(list: Seq<Seq<char>>, last: Seq<char>, c: char)
    ensures
        each_after(list.push(last), c) == each_after(list, c) + seq![c] + last,
    decreases list.len(),
{
    let all = list.push(last);
    if list.len() > 0 {
        lemma_each_after_push(list.skip(1), last, c);
        assert(all.skip(1) =~= list.skip(1).push(last));
        assert(each_after(all, c) =~= each_after(list, c) + seq![c] + last);
    } else {
        assert(each_after(list, c) =~= Seq::<char>::empty());
        assert(each_after(all.skip(1), c) =~= Seq::<char>::empty());
        assert(all[0] == last);
        assert(each_after(all, c) =~= each_after(list, c) + seq![c] + last);
    }
}

} // verus!
