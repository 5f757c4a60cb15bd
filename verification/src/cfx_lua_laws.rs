//! What the translation of compound assignments makes of a line, spelt out over the
//! characters of Lua.
use crate::cfx_lua::{
    before_blanks, block_closers, chain_start, code_end, code_from, comment_after, compound_from,
    compound_of, ends_in_keyword, equals_run, expanded, expanded_from, find_from, index_start,
    is_space, keyword_at_end, lemma_compound_from, lemma_find_bound, lemma_trim_end, line_end,
    line_ending, long_level, name_start, non_code_end, operators, plain_assignment, rewritten,
    split_closers, split_rest, statement_boundary, statement_preceders, target_of, trim, trim_end,
    trim_start,
};
use vstd::prelude::*;

verus! {

// --- Lua's characters ---

/// A letter, a digit or an underscore.
pub open spec fn word_char(c: char) -> bool {
    ('a' <= c <= 'z') || ('A' <= c <= 'Z') || ('0' <= c <= '9') || c == '_'
}

/// A printable character of ASCII that is no blank.
pub open spec fn visible(c: char) -> bool {
    '!' <= c <= '~'
}

/// Spaces and tabs, or nothing.
pub open spec fn blank(s: Seq<char>) -> bool {
    forall|i: int| 0 <= i < s.len() ==> #[trigger] s[i] == ' ' || s[i] == '\t'
}

/// A name: letters, digits and underscores, no digit first.
pub open spec fn lua_name(s: Seq<char>) -> bool {
    &&& s.len() > 0
    &&& !('0' <= s[0] <= '9')
    &&& forall|i: int| 0 <= i < s.len() ==> word_char(#[trigger] s[i])
}

/// A field: a dot or a colon, and a name behind it.
pub open spec fn lua_field(s: Seq<char>) -> bool {
    &&& s.len() > 1
    &&& s[0] == '.' || s[0] == ':'
    &&& forall|i: int| 1 <= i < s.len() ==> word_char(#[trigger] s[i])
}

/// An index: brackets round something that holds neither a bracket nor a parenthesis.
pub open spec fn lua_index(s: Seq<char>) -> bool {
    &&& s.len() > 1
    &&& s[0] == '['
    &&& s.last() == ']'
    &&& forall|i: int|
        1 <= i < s.len() - 1 ==> #[trigger] s[i] != '[' && s[i] != ']' && s[i] != '(' && s[i] != ')'
}

/// A name with the first `n` of the fields and indices that follow it.
pub open spec fn lua_target(name: Seq<char>, links: Seq<Seq<char>>, n: int) -> Seq<char>
    decreases n,
{
    if n <= 0 {
        name
    } else {
        lua_target(name, links, n - 1) + links[n - 1]
    }
}

/// One of the operators that have a compound form.
pub open spec fn lua_operator(op: Seq<char>) -> bool {
    ||| op == seq!['.', '.']
    ||| op == seq!['+']
    ||| op == seq!['-']
    ||| op == seq!['*']
    ||| op == seq!['/']
    ||| op == seq!['%']
    ||| op == seq!['^']
}

/// The last character of an operator that has a compound form.
pub open spec fn operator_end(c: char) -> bool {
    c == '.' || c == '+' || c == '-' || c == '*' || c == '/' || c == '%' || c == '^'
}

/// A keyword that a statement may follow on its line.
pub open spec fn opens_statement(keyword: Seq<char>) -> bool {
    ||| keyword == seq!['t', 'h', 'e', 'n']
    ||| keyword == seq!['d', 'o']
    ||| keyword == seq!['e', 'l', 's', 'e']
    ||| keyword == seq!['r', 'e', 'p', 'e', 'a', 't']
    ||| keyword == seq!['b', 'e', 'g', 'i', 'n']
}

/// A keyword that ends a block.
pub open spec fn closes_block(keyword: Seq<char>) -> bool {
    ||| keyword == seq!['e', 'n', 'd']
    ||| keyword == seq!['e', 'l', 's', 'e']
    ||| keyword == seq!['u', 'n', 't', 'i', 'l']
}

/// `s` ends in the given word, which is no tail of a longer one.
pub open spec fn ends_in_word(s: Seq<char>, word: Seq<char>) -> bool {
    &&& s.len() >= word.len()
    &&& s.skip(s.len() - word.len()) == word
    &&& s.len() == word.len() || !word_char(s[s.len() - word.len() - 1])
}

/// A statement may begin behind `before`: at the start of the line, behind a semicolon, or
/// behind a keyword, with blanks between.
pub open spec fn statement_may_begin(
    before: Seq<char>,
    head: Seq<char>,
    opener: Seq<char>,
    gap: Seq<char>,
) -> bool {
    &&& blank(gap)
    &&& before == head + opener + gap
    &&& {
        ||| head.len() == 0 && opener.len() == 0
        ||| opener == seq![';']
        ||| gap.len() > 0 && opens_statement(opener) && (head.len() == 0 || !word_char(head.last()))
    }
}

/// No string and no comment starts at `i`.
pub open spec fn code_at(line: Seq<char>, i: int) -> bool {
    &&& line[i] != '"' && line[i] != '\''
    &&& i + 1 < line.len() ==> !(line[i] == '-' && line[i + 1] == '-') && !(line[i] == '[' && (
    line[i + 1] == '[' || line[i + 1] == '='))
}

/// There is neither a string nor a comment in the text.
pub open spec fn only_code(line: Seq<char>) -> bool {
    forall|i: int| 0 <= i < line.len() ==> #[trigger] code_at(line, i)
}

/// There is no line feed in the text.
pub open spec fn no_line_feed(line: Seq<char>) -> bool {
    forall|i: int| 0 <= i < line.len() ==> #[trigger] line[i] != '\n'
}

/// What a line can end in.
pub open spec fn ends_line(ending: Seq<char>) -> bool {
    ||| ending == Seq::<char>::empty()
    ||| ending == seq!['\n']
    ||| ending == seq!['\r', '\n']
}

/// An `=` stands at `i`, and an operator ends before it.
pub open spec fn compound_ends_at(line: Seq<char>, i: int) -> bool {
    0 < i < line.len() && line[i] == '=' && operator_end(line[i - 1])
}

/// The only `=` behind an operator stands at `equals`.
pub open spec fn only_compound(line: Seq<char>, equals: int) -> bool {
    forall|i: int| #[trigger] compound_ends_at(line, i) ==> i == equals
}

// --- what is code ---

proof fn lemma_only_code(line: Seq<char>, i: int)
    requires
        only_code(line),
        0 <= i <= line.len(),
    ensures
        code_from(line, i) == Seq::new((line.len() - i) as nat, |k: int| true),
        code_end(line, i) == Some(line.len() as int),
        i < line.len() ==> non_code_end(line, i) is None,
    decreases line.len() - i,
{
    if i < line.len() {
        lemma_only_code(line, i + 1);
        assert(code_at(line, i));
        assert(long_level(line, i) is None);
        assert(non_code_end(line, i) is None);
        assert(code_from(line, i) =~= Seq::new((line.len() - i) as nat, |k: int| true));
    } else {
        assert(code_from(line, i) =~= Seq::new(0, |k: int| true));
    }
}

proof fn lemma_line_feed(line: Seq<char>, ending: Seq<char>, i: int)
    requires
        no_line_feed(line),
        ends_line(ending),
        0 <= i,
    ensures
        line_end(line + ending, i) == (line + ending).len(),
    decreases (line + ending).len() - i,
{
    let s = line + ending;
    let n = s.len() as int;
    if i < n {
        assert(s.subrange(i, i + 1)[0] == s[i]);
        if i < line.len() {
            assert(s[i] == line[i]);
        } else {
            assert(s[i] == ending[i - line.len()]);
        }
        if s[i] == '\n' {
            assert(i == n - 1);
            assert(s.subrange(i, i + 1) =~= seq!['\n']);
        } else {
            lemma_line_feed(line, ending, i + 1);
        }
    }
}

proof fn lemma_one_line(line: Seq<char>, ending: Seq<char>)
    requires
        no_line_feed(line),
        ends_line(ending),
        only_code(line + ending),
        line.len() > 0,
    ensures
        expanded(line + ending) == match rewritten(
            line + ending,
            Seq::new((line + ending).len(), |k: int| true),
        ) {
            Some(text) => text,
            None => line + ending,
        },
{
    let s = line + ending;
    let n = s.len() as int;
    let code = Seq::new(s.len(), |k: int| true);
    lemma_only_code(s, 0);
    lemma_line_feed(line, ending, 0);
    lemma_line_feed(line, ending, n);
    assert(s.subrange(0, n) =~= s);
    assert(code.subrange(0, n) =~= code);
    assert(expanded_from(s, code, n) =~= Seq::empty());
    let out = match rewritten(s, code) {
        Some(text) => text,
        None => s,
    };
    assert(out + Seq::<char>::empty() =~= out);
}

// --- the operator ---

proof fn lemma_find_some(s: Seq<char>, needle: Seq<char>, from: int, at: int)
    requires
        0 <= from <= at,
        needle.len() > 0,
        at + needle.len() <= s.len(),
        s.subrange(at, at + needle.len()) == needle,
    ensures
        find_from(s, needle, from) matches Some(p) && from <= p <= at,
    decreases at - from,
{
    if s.subrange(from, from + needle.len()) != needle {
        lemma_find_some(s, needle, from + 1, at);
    }
}

proof fn lemma_operator_index(op: Seq<char>) -> (k: int)
    requires
        lua_operator(op),
    ensures
        0 <= k < operators().len(),
        operators()[k] == op,
        operators().len() == 7,
        forall|j: int|
            0 <= j < 7 ==> (#[trigger] operators()[j]).len() > 0 && operator_end(
                operators()[j].last(),
            ) && (operators()[j].last() == op.last() ==> j == k),
{
    let k = if op == seq!['.', '.'] {
        0int
    } else if op == seq!['+'] {
        1
    } else if op == seq!['-'] {
        2
    } else if op == seq!['*'] {
        3
    } else if op == seq!['/'] {
        4
    } else if op == seq!['%'] {
        5
    } else {
        6
    };
    k
}

proof fn lemma_compound_place(line: Seq<char>, op: Seq<char>, at: int) -> (k: int)
    requires
        lua_operator(op),
        0 <= at,
        at + op.len() < line.len(),
        line.subrange(at, at + op.len() + 1) == op.push('='),
        only_compound(line, at + op.len()),
    ensures
        0 <= k < operators().len(),
        operators()[k] == op,
        compound_of(line, Seq::new(line.len(), |i: int| true), 0) == Some((at, k)),
{
    let code = Seq::new(line.len(), |i: int| true);
    let k = lemma_operator_index(op);
    assert forall|j: int| 0 <= j <= k implies #[trigger] compound_from(
        line,
        code,
        operators()[j],
        0,
    ) == (if j == k {
        Some(at)
    } else {
        None
    }) by {
        let other = operators()[j];
        lemma_compound_from(line, code, other, 0);
        lemma_find_bound(line, other.push('='), 0);
        let end = op.len() as int;
        assert(line.subrange(at, at + end + 1)[end - 1] == line[at + end - 1]);
        assert(op.push('=')[end - 1] == op.last());
        if j == k {
            lemma_find_some(line, op.push('='), 0, at);
        }
        if let Some(p) = find_from(line, other.push('='), 0) {
            let n = other.len() as int;
            assert(line.subrange(p, p + n + 1)[n] == line[p + n]);
            assert(other.push('=')[n] == '=');
            assert(line.subrange(p, p + n + 1)[n - 1] == line[p + n - 1]);
            assert(other.push('=')[n - 1] == other.last());
            assert(compound_ends_at(line, p + n));
        }
    }
    assert(compound_from(line, code, operators()[k], 0) == Some(at));
    lemma_compound_from_index(line, code, at, k, 0);
    k
}

proof fn lemma_compound_from_index(line: Seq<char>, code: Seq<bool>, at: int, k: int, j: int)
    requires
        0 <= j <= k < operators().len(),
        forall|i: int|
            0 <= i <= k ==> #[trigger] compound_from(line, code, operators()[i], 0) == (if i == k {
                Some(at)
            } else {
                None
            }),
    ensures
        compound_of(line, code, j) == Some((at, k)),
    decreases k - j,
{
    assert(compound_from(line, code, operators()[j], 0) == (if j == k {
        Some(at)
    } else {
        None
    }));
    if j < k {
        lemma_compound_from_index(line, code, at, k, j + 1);
    }
}

// --- the target ---

proof fn lemma_before_blanks(line: Seq<char>, end: int, gap: int)
    requires
        0 < end,
        0 <= gap,
        end + gap <= line.len(),
        line[end - 1] != ' ' && line[end - 1] != '\t',
        forall|i: int| end <= i < end + gap ==> #[trigger] line[i] == ' ' || line[i] == '\t',
    ensures
        before_blanks(line, end + gap) == end,
    decreases gap,
{
    if gap > 0 {
        assert(line[end + gap - 1] == ' ' || line[end + gap - 1] == '\t');
        lemma_before_blanks(line, end, gap - 1);
    }
}

proof fn lemma_name_start(line: Seq<char>, start: int, end: int)
    requires
        0 <= start <= end <= line.len(),
        forall|i: int| start <= i < end ==> word_char(#[trigger] line[i]),
        start == 0 || !word_char(line[start - 1]),
    ensures
        name_start(line, end) == start,
    decreases end - start,
{
    if end > start {
        lemma_name_start(line, start, end - 1);
    }
}

proof fn lemma_index_start(line: Seq<char>, open: int, end: int)
    requires
        0 <= open < end <= line.len(),
        line[open] == '[',
        forall|i: int|
            open < i < end ==> #[trigger] line[i] != '[' && line[i] != ']' && line[i] != '('
                && line[i] != ')',
    ensures
        index_start(line, end, 1) == Some(open),
    decreases end - open,
{
    if end - 1 > open {
        lemma_index_start(line, open, end - 1);
    }
}

proof fn lemma_chain(
    line: Seq<char>,
    start: int,
    name: Seq<char>,
    links: Seq<Seq<char>>,
    n: int,
)
    requires
        0 <= n <= links.len(),
        lua_name(name),
        forall|i: int| 0 <= i < links.len() ==> lua_field(#[trigger] links[i]) || lua_index(links[i]),
        0 <= start,
        start + lua_target(name, links, n).len() <= line.len(),
        line.subrange(start, start + lua_target(name, links, n).len()) == lua_target(
            name,
            links,
            n,
        ),
        start == 0 || (!word_char(line[start - 1]) && line[start - 1] != '.' && line[start - 1]
            != ':'),
    ensures
        lua_target(name, links, n).len() > 0,
        chain_start(line, start + lua_target(name, links, n).len()) == Some(start),
        line[start] == name[0],
        line[start + lua_target(name, links, n).len() - 1] == ']' || word_char(
            line[start + lua_target(name, links, n).len() - 1],
        ),
    decreases n,
{
    let text = lua_target(name, links, n);
    let end = start + text.len();
    assert forall|i: int| 0 <= i < text.len() implies #[trigger] text[i] == line[start + i] by {
        assert(line.subrange(start, end)[i] == line[start + i]);
    }
    if n == 0 {
        assert forall|i: int| start <= i < end implies word_char(#[trigger] line[i]) by {
            assert(text[i - start] == name[i - start]);
        }
        lemma_name_start(line, start, end);
        assert(text[0] == line[start]);
    } else {
        let before = lua_target(name, links, n - 1);
        let link = links[n - 1];
        let mid = start + before.len();
        assert(lua_field(link) || lua_index(link));
        assert(line.subrange(start, mid) =~= before) by {
            assert forall|i: int| 0 <= i < before.len() implies line.subrange(start, mid)[i]
                == before[i] by {
                assert(text[i] == before[i]);
            }
        }
        lemma_chain(line, start, name, links, n - 1);
        assert forall|i: int| 0 <= i < link.len() implies #[trigger] line[mid + i] == link[i] by {
            assert(text[before.len() + i] == link[i]);
        }
        assert(line[mid + 0] == link[0]);
        assert(line[mid + (link.len() - 1)] == link[link.len() - 1]);
        if lua_index(link) {
            assert forall|i: int| mid < i < end - 1 implies #[trigger] line[i] != '[' && line[i]
                != ']' && line[i] != '(' && line[i] != ')' by {
                assert(line[mid + (i - mid)] == link[i - mid]);
            }
            lemma_index_start(line, mid, end - 1);
        } else {
            assert forall|i: int| mid + 1 <= i < end implies word_char(#[trigger] line[i]) by {
                assert(line[mid + (i - mid)] == link[i - mid]);
            }
            lemma_name_start(line, mid + 1, end);
        }
    }
}

// --- where the statement begins ---

/// White space, or nothing.
spec fn spaces(s: Seq<char>) -> bool {
    forall|i: int| 0 <= i < s.len() ==> is_space(#[trigger] s[i])
}

proof fn lemma_trim_blank(s: Seq<char>, gap: Seq<char>)
    requires
        spaces(gap),
        s.len() == 0 || !is_space(s.last()),
    ensures
        trim_end(s + gap) == s,
    decreases gap.len(),
{
    if gap.len() == 0 {
        assert(s + gap =~= s);
    } else {
        assert(is_space(gap.last()));
        assert((s + gap).drop_last() =~= s + gap.drop_last());
        assert(spaces(gap.drop_last()));
        lemma_trim_blank(s, gap.drop_last());
    }
}

proof fn lemma_keyword_some(s: Seq<char>, keywords: Seq<Seq<char>>, k: int, j: int)
    requires
        0 <= k <= j < keywords.len(),
        ends_in_keyword(s, keywords[j]),
    ensures
        keyword_at_end(s, keywords, k) is Some,
    decreases j - k,
{
    if !ends_in_keyword(s, keywords[k]) {
        lemma_keyword_some(s, keywords, k + 1, j);
    }
}

proof fn lemma_keyword_none(s: Seq<char>, keywords: Seq<Seq<char>>, k: int)
    requires
        forall|j: int| 0 <= j < keywords.len() ==> !ends_in_keyword(s, #[trigger] keywords[j]),
    ensures
        keyword_at_end(s, keywords, k) is None,
    decreases keywords.len() - k,
{
    if 0 <= k < keywords.len() {
        lemma_keyword_none(s, keywords, k + 1);
    }
}

proof fn lemma_boundary(before: Seq<char>, head: Seq<char>, opener: Seq<char>, gap: Seq<char>)
    requires
        statement_may_begin(before, head, opener, gap),
    ensures
        statement_boundary(before),
        before.len() == 0 || (!word_char(before.last()) && before.last() != '.' && before.last()
            != ':'),
{
    let kept = head + opener;
    if opener.len() > 0 {
        assert(kept.last() == opener.last());
        assert(!is_space(opener.last()));
    } else {
        assert(kept =~= Seq::empty());
    }
    assert(spaces(gap));
    lemma_trim_blank(kept, gap);
    if gap.len() > 0 {
        assert(before.last() == gap.last());
        assert(gap.last() == ' ' || gap.last() == '\t');
    } else if before.len() > 0 {
        assert(before.last() == kept.last());
    }
    if opens_statement(opener) && opener != seq![';'] && opener.len() > 0 {
        let j = if opener == seq!['t', 'h', 'e', 'n'] {
            0int
        } else if opener == seq!['d', 'o'] {
            1
        } else if opener == seq!['e', 'l', 's', 'e'] {
            2
        } else if opener == seq!['r', 'e', 'p', 'e', 'a', 't'] {
            3
        } else {
            4
        };
        assert(statement_preceders()[j] == opener);
        assert(kept.skip(kept.len() - opener.len()) =~= opener);
        if head.len() > 0 {
            assert(kept[kept.len() - opener.len() - 1] == head.last());
        }
        lemma_keyword_some(kept, statement_preceders(), 0, j);
    }
}

// --- the right-hand side ---

/// The first `n` of the keywords that close blocks, each behind its blanks.
pub open spec fn closing_text(gaps: Seq<Seq<char>>, closers: Seq<Seq<char>>, n: int) -> Seq<char>
    decreases n,
{
    if n <= 0 {
        Seq::empty()
    } else {
        closing_text(gaps, closers, n - 1) + gaps[n - 1] + closers[n - 1]
    }
}

/// The first `n` of the keywords, each behind one space.
pub open spec fn closers_spaced(closers: Seq<Seq<char>>, n: int) -> Seq<char>
    decreases n,
{
    if n <= 0 {
        Seq::empty()
    } else {
        closers_spaced(closers, n - 1) + seq![' '] + closers[n - 1]
    }
}

proof fn lemma_closer_index(keyword: Seq<char>) -> (k: int)
    requires
        closes_block(keyword),
    ensures
        0 <= k < 3,
        block_closers().len() == 3,
        block_closers()[k] == keyword,
        keyword.len() > 2,
        visible(keyword.last()),
{
    if keyword == seq!['e', 'n', 'd'] {
        0
    } else if keyword == seq!['e', 'l', 's', 'e'] {
        1
    } else {
        2
    }
}

proof fn lemma_which_closer(s: Seq<char>, keyword: Seq<char>)
    requires
        closes_block(keyword),
        ends_in_word(s, keyword),
    ensures
        keyword_at_end(s, block_closers(), 0) matches Some(k) && block_closers()[k] == keyword,
{
    let k = lemma_closer_index(keyword);
    let n = s.len() as int;
    let e = seq!['e', 'n', 'd'];
    let l = seq!['e', 'l', 's', 'e'];
    let u = seq!['u', 'n', 't', 'i', 'l'];
    assert(s.skip(n - keyword.len())[keyword.len() - 1] == s[n - 1]);
    assert(keyword[keyword.len() - 1] == s[n - 1]);
    if ends_in_keyword(s, e) {
        assert(s.skip(n - 3)[2] == s[n - 1]);
    }
    if ends_in_keyword(s, l) {
        assert(s.skip(n - 4)[3] == s[n - 1]);
    }
    if ends_in_keyword(s, u) {
        assert(s.skip(n - 5)[4] == s[n - 1]);
    }
    assert(block_closers()[0] == e && block_closers()[1] == l && block_closers()[2] == u);
    reveal_with_fuel(keyword_at_end, 4);
}

proof fn lemma_split(
    base: Seq<char>,
    gaps: Seq<Seq<char>>,
    closers: Seq<Seq<char>>,
    n: int,
    space: Seq<char>,
    tail: Seq<char>,
)
    requires
        0 <= n <= closers.len() == gaps.len(),
        base.len() > 0,
        visible(base.last()),
        spaces(space),
        forall|k: Seq<char>| #[trigger] closes_block(k) ==> !ends_in_word(base, k),
        forall|i: int|
            0 <= i < closers.len() ==> closes_block(#[trigger] closers[i]) && blank(gaps[i])
                && gaps[i].len() > 0,
    ensures
        ({
            let (rhs, rest) = split_closers(base + closing_text(gaps, closers, n) + space, tail);
            trim_end(rhs) == base && rest == closers_spaced(closers, n) + tail
        }),
    decreases n,
{
    let text = base + closing_text(gaps, closers, n);
    if n == 0 {
        assert(text =~= base);
        assert(!is_space(base.last()));
        lemma_trim_blank(base, space);
        assert forall|j: int| 0 <= j < block_closers().len() implies !ends_in_keyword(
            base,
            #[trigger] block_closers()[j],
        ) by {
            let k = block_closers()[j];
            assert(closes_block(k));
            if ends_in_keyword(base, k) {
                assert(ends_in_word(base, k));
            }
        }
        lemma_keyword_none(base, block_closers(), 0);
        assert(closers_spaced(closers, 0) + tail =~= tail);
    } else {
        let keyword = closers[n - 1];
        let gap = gaps[n - 1];
        let k = lemma_closer_index(keyword);
        let head = base + closing_text(gaps, closers, n - 1) + gap;
        assert(text =~= head + keyword);
        assert(text.last() == keyword.last());
        assert(!is_space(text.last()));
        lemma_trim_blank(text, space);
        assert(text.skip(text.len() - keyword.len()) =~= keyword);
        assert(text[text.len() - keyword.len() - 1] == gap.last());
        assert(gap.last() == ' ' || gap.last() == '\t');
        assert(ends_in_word(text, keyword));
        lemma_which_closer(text, keyword);
        assert(text.take(text.len() - keyword.len()) =~= head);
        let longer = seq![' '] + keyword + tail;
        assert(spaces(gap));
        lemma_split(base, gaps, closers, n - 1, gap, longer);
        assert(closers_spaced(closers, n - 1) + longer =~= closers_spaced(closers, n) + tail);
    }
}

proof fn lemma_trim_front(gap: Seq<char>, value: Seq<char>)
    requires
        blank(gap),
        value.len() > 0,
        visible(value[0]),
    ensures
        trim_start(gap + value) == value,
    decreases gap.len(),
{
    if gap.len() == 0 {
        assert(gap + value =~= value);
    } else {
        assert((gap + value)[0] == gap[0]);
        assert(gap[0] == ' ' || gap[0] == '\t');
        assert((gap + value).skip(1) =~= gap.skip(1) + value);
        assert forall|i: int| 0 <= i < gap.skip(1).len() implies #[trigger] gap.skip(1)[i] == ' '
            || gap.skip(1)[i] == '\t' by {
            assert(gap.skip(1)[i] == gap[i + 1]);
        }
        lemma_trim_front(gap.skip(1), value);
    }
}

/// What a statement `target op= value` is made of, with what stands before and behind it on
/// its line.
pub struct Assignment {
    /// What the line starts with, and the keyword or the semicolon that ends it.
    pub head: Seq<char>,
    pub opener: Seq<char>,
    pub indent: Seq<char>,
    /// The target: a name, and the fields and indices that follow it.
    pub name: Seq<char>,
    pub links: Seq<Seq<char>>,
    pub gap: Seq<char>,
    pub op: Seq<char>,
    pub lead: Seq<char>,
    pub value: Seq<char>,
    /// Whether a semicolon ends the statement, and the blanks before it.
    pub semicolon: bool,
    pub pause: Seq<char>,
    /// The keywords that close blocks behind it, each behind its blanks.
    pub gaps: Seq<Seq<char>>,
    pub closers: Seq<Seq<char>>,
    pub trail: Seq<char>,
}

impl Assignment {
    pub open spec fn before(self) -> Seq<char> {
        self.head + self.opener + self.indent
    }

    pub open spec fn target(self) -> Seq<char> {
        lua_target(self.name, self.links, self.links.len() as int)
    }

    /// The right-hand side, its semicolon counted in.
    pub open spec fn base(self) -> Seq<char> {
        if self.semicolon {
            self.lead + self.value + self.pause + seq![';']
        } else {
            self.lead + self.value
        }
    }

    /// The line as it is written.
    pub open spec fn line(self) -> Seq<char> {
        self.before() + self.target() + self.gap + self.op + seq!['='] + (self.base()
            + closing_text(self.gaps, self.closers, self.closers.len() as int) + self.trail)
    }

    /// The line in plain Lua.
    pub open spec fn plain(self) -> Seq<char> {
        self.before() + self.target() + seq![' ', '=', ' '] + self.target() + seq![' '] + self.op
            + seq![' ', '('] + self.value + seq![')'] + (if self.semicolon {
            seq![';']
        } else {
            Seq::empty()
        }) + closers_spaced(self.closers, self.closers.len() as int)
    }

    /// The parts are what they should be, and the line is code that holds no other compound
    /// operator.
    pub open spec fn well_made(self) -> bool {
        &&& statement_may_begin(self.before(), self.head, self.opener, self.indent)
        &&& lua_name(self.name)
        &&& forall|i: int|
            0 <= i < self.links.len() ==> lua_field(#[trigger] self.links[i]) || lua_index(
                self.links[i],
            )
        &&& blank(self.gap) && blank(self.lead) && blank(self.pause) && blank(self.trail)
        &&& lua_operator(self.op)
        &&& self.value.len() > 0
        &&& visible(self.value[0])
        &&& visible(self.value.last())
        &&& self.value.last() != ';'
        &&& forall|k: Seq<char>| #[trigger]
            closes_block(k) ==> !ends_in_word(self.value, k)
        &&& self.gaps.len() == self.closers.len()
        &&& forall|i: int|
            0 <= i < self.closers.len() ==> closes_block(#[trigger] self.closers[i]) && blank(
                self.gaps[i],
            ) && self.gaps[i].len() > 0
        &&& only_code(self.line())
        &&& no_line_feed(self.line())
        &&& only_compound(
            self.line(),
            (self.before() + self.target() + self.gap + self.op).len() as int,
        )
    }
}

proof fn lemma_base(a: Assignment)
    requires
        a.well_made(),
    ensures
        a.base().len() > 0,
        visible(a.base().last()),
        forall|k: Seq<char>| #[trigger] closes_block(k) ==> !ends_in_word(a.base(), k),
        !a.semicolon ==> a.base().last() != ';',
{
    let base = a.base();
    let n = base.len() as int;
    assert(a.semicolon ==> base.last() == ';');
    assert(!a.semicolon ==> base.last() == a.value.last());
    assert forall|k: Seq<char>| #[trigger] closes_block(k) implies !ends_in_word(base, k) by {
        if ends_in_word(base, k) {
            let i = lemma_closer_index(k);
            assert(base.skip(n - k.len())[k.len() - 1] == base[n - 1]);
            if !a.semicolon {
                let v = a.value;
                let off = a.lead.len() as int;
                if v.len() >= k.len() {
                    assert(v.skip(v.len() - k.len()) =~= k) by {
                        assert forall|j: int| 0 <= j < k.len() implies v.skip(v.len() - k.len())[j]
                            == k[j] by {
                            assert(base.skip(n - k.len())[j] == base[n - k.len() + j]);
                        }
                    }
                    if v.len() > k.len() {
                        assert(base[n - k.len() - 1] == v[v.len() - k.len() - 1]);
                    }
                    assert(ends_in_word(v, k));
                } else {
                    // The blanks before the value are no part of a keyword.
                    let j = k.len() - v.len() - 1;
                    assert(base.skip(n - k.len())[j] == base[off - 1]);
                    assert(a.lead[off - 1] == ' ' || a.lead[off - 1] == '\t');
                    assert(base[off - 1] == a.lead[off - 1]);
                    assert(k[j] == ' ' || k[j] == '\t');
                    lemma_no_blank(k, j);
                }
            }
        }
    }
}

proof fn lemma_no_blank(k: Seq<char>, j: int)
    requires
        closes_block(k),
        0 <= j < k.len(),
    ensures
        k[j] != ' ',
        k[j] != '\t',
{
}

proof fn lemma_right_hand_side(a: Assignment, ending: Seq<char>)
    requires
        a.well_made(),
        ends_line(ending),
    ensures
        ({
            let rest = a.base() + closing_text(a.gaps, a.closers, a.closers.len() as int) + (a.trail
                + ending);
            let (rhs, tail) = split_rest(rest);
            &&& trim(rhs) == a.value
            &&& tail == (if a.semicolon {
                seq![';']
            } else {
                Seq::empty()
            }) + closers_spaced(a.closers, a.closers.len() as int)
        }),
{
    let n = a.closers.len() as int;
    let rest = a.base() + closing_text(a.gaps, a.closers, n) + (a.trail + ending);
    lemma_base(a);
    assert(spaces(a.trail + ending)) by {
        assert forall|i: int| 0 <= i < (a.trail + ending).len() implies is_space(
            #[trigger] (a.trail + ending)[i],
        ) by {
            if i < a.trail.len() {
                assert((a.trail + ending)[i] == a.trail[i]);
            }
        }
    }
    lemma_split(a.base(), a.gaps, a.closers, n, a.trail + ending, Seq::empty());
    let spaced = closers_spaced(a.closers, n);
    assert(spaced + Seq::<char>::empty() =~= spaced);
    let (rhs, tail) = split_rest(rest);
    let first = a.lead + a.value;
    assert(first.last() == a.value.last());
    if a.semicolon {
        assert(a.base().drop_last() =~= first + a.pause);
        assert(spaces(a.pause));
        lemma_trim_blank(first, a.pause);
    } else {
        assert(Seq::<char>::empty() + spaced =~= spaced);
    }
    assert(trim_end(rhs) == first);
    lemma_trim_front(a.lead, a.value);
}

proof fn lemma_line_parts(a: Assignment, ending: Seq<char>)
    ensures
        ({
            let line = a.line() + ending;
            let start = a.before().len() as int;
            let end = start + a.target().len();
            let at = end + a.gap.len();
            &&& at + a.op.len() < a.line().len()
            &&& line.take(start) == a.before()
            &&& line.subrange(start, end) == a.target()
            &&& forall|i: int| end <= i < at ==> #[trigger] line[i] == a.gap[i - end]
            &&& line.subrange(at, at + a.op.len() + 1) == a.op.push('=')
            &&& line.subrange(at + a.op.len() + 1, line.len() as int) == a.base() + closing_text(
                a.gaps,
                a.closers,
                a.closers.len() as int,
            ) + (a.trail + ending)
            &&& (a.before() + a.target() + a.gap + a.op).len() == at + a.op.len()
            &&& start > 0 ==> line[start - 1] == a.before().last()
        }),
{
    let line = a.line() + ending;
    let before = a.before();
    let target = a.target();
    let closing = closing_text(a.gaps, a.closers, a.closers.len() as int);
    let rest = a.base() + closing + (a.trail + ending);
    let start = before.len() as int;
    let end = start + target.len();
    let at = end + a.gap.len();
    assert(line =~= before + target + a.gap + a.op + seq!['='] + rest);
    assert(line.take(start) =~= before);
    assert(line.subrange(start, end) =~= target);
    assert(line.subrange(at, at + a.op.len() + 1) =~= a.op.push('='));
    assert(line.subrange(at + a.op.len() + 1, line.len() as int) =~= rest);
}

proof fn lemma_target_place(a: Assignment, ending: Seq<char>)
    requires
        a.well_made(),
    ensures
        ({
            let start = a.before().len() as int;
            let end = start + a.target().len();
            target_of(a.line() + ending, end + a.gap.len()) == Some((start, end))
        }),
{
    let line = a.line() + ending;
    let start = a.before().len() as int;
    let end = start + a.target().len();
    lemma_line_parts(a, ending);
    lemma_boundary(a.before(), a.head, a.opener, a.indent);
    lemma_chain(line, start, a.name, a.links, a.links.len() as int);
    assert forall|i: int| end <= i < end + a.gap.len() implies #[trigger] line[i] == ' ' || line[i]
        == '\t' by {
        assert(line[i] == a.gap[i - end]);
    }
    lemma_before_blanks(line, end, a.gap.len() as int);
}

proof fn lemma_ended(a: Assignment, ending: Seq<char>)
    requires
        a.well_made(),
        ends_line(ending),
    ensures
        line_ending(a.line() + ending) == ending,
        comment_after(a.line() + ending, (a.line() + ending).len() as int) == Seq::<char>::empty(),
        only_code(a.line() + ending),
        only_compound(
            a.line() + ending,
            (a.before() + a.target() + a.gap + a.op).len() as int,
        ),
{
    let line = a.line();
    let s = line + ending;
    let n = s.len() as int;
    lemma_trim_end(s);
    lemma_last_char(a);
    assert(line[line.len() - 1] != '\n');
    assert forall|i: int| 0 <= i < s.len() implies #[trigger] code_at(s, i) by {
        if i < line.len() {
            assert(s[i] == line[i]);
            assert(code_at(line, i));
            if i + 1 < line.len() {
                assert(s[i + 1] == line[i + 1]);
            } else if i + 1 < s.len() {
                assert(s[i + 1] == ending[0]);
            }
        } else {
            assert(s[i] == ending[i - line.len()]);
        }
    }
    assert forall|i: int| #[trigger] compound_ends_at(s, i) implies i == (a.before() + a.target()
        + a.gap + a.op).len() by {
        if i < line.len() {
            assert(s[i] == line[i] && s[i - 1] == line[i - 1]);
            assert(compound_ends_at(line, i));
        } else {
            assert(s[i] == ending[i - line.len()]);
        }
    }
    if ending.len() == 2 {
        assert(s.skip(n - 2) =~= seq!['\r', '\n']);
    } else if crate::text::ends_with(s, seq!['\r', '\n']) {
        assert(s.skip(n - 2)[0] == s[n - 2] && s.skip(n - 2)[1] == s[n - 1]);
        if ending.len() == 1 {
            assert(s[n - 2] == line[line.len() - 1]);
        } else {
            assert(s[n - 1] == line[line.len() - 1]);
        }
    }
}

proof fn lemma_last_char(a: Assignment)
    requires
        a.well_made(),
    ensures
        a.line().len() > 0,
        a.line().last() != '\r',
{
    lemma_base(a);
    let n = a.closers.len() as int;
    let closing = closing_text(a.gaps, a.closers, n);
    let rest = a.base() + closing + a.trail;
    assert(a.line().last() == rest.last());
    if a.trail.len() > 0 {
        assert(rest.last() == a.trail.last());
        assert(a.trail[a.trail.len() - 1] == ' ' || a.trail[a.trail.len() - 1] == '\t');
    } else if n > 0 {
        assert(closes_block(a.closers[n - 1]));
        let k = lemma_closer_index(a.closers[n - 1]);
        assert(closing.last() == a.closers[n - 1].last());
        assert(rest.last() == closing.last());
    } else {
        assert(closing =~= Seq::empty());
        assert(rest.last() == a.base().last());
    }
}

proof fn lemma_rewritten(
    line: Seq<char>,
    code: Seq<bool>,
    start: int,
    end: int,
    at: int,
    k: int,
    value: Seq<char>,
    tail: Seq<char>,
)
    requires
        compound_of(line, code, 0) == Some((at, k)),
        target_of(line, at) == Some((start, end)),
        code_end(line, at + operators()[k].len() + 1) == Some(line.len() as int),
        statement_boundary(line.take(start)),
        ({
            let (rhs, rest) = split_rest(
                line.subrange(at + operators()[k].len() + 1, line.len() as int),
            );
            trim(rhs) == value && rest == tail
        }),
        value.len() > 0,
        comment_after(line, line.len() as int) == Seq::<char>::empty(),
    ensures
        rewritten(line, code) == Some(
            plain_assignment(
                line.take(start),
                line.subrange(start, end),
                operators()[k],
                value,
                tail,
                line_ending(line),
            ),
        ),
{
    assert(tail + Seq::<char>::empty() =~= tail);
}

proof fn lemma_plain(a: Assignment, ending: Seq<char>)
    ensures
        plain_assignment(
            a.before(),
            a.target(),
            a.op,
            a.value,
            (if a.semicolon {
                seq![';']
            } else {
                Seq::empty()
            }) + closers_spaced(a.closers, a.closers.len() as int),
            ending,
        ) == a.plain() + ending,
{
    let end = if a.semicolon {
        seq![';']
    } else {
        Seq::empty()
    };
    let spaced = closers_spaced(a.closers, a.closers.len() as int);
    let lead = a.before() + a.target() + seq![' ', '=', ' '] + a.target() + seq![' '] + a.op + seq![
        ' ',
        '(',
    ] + a.value + seq![')'];
    assert(lead + (end + spaced) =~= lead + end + spaced);
}

/// A compound assignment is spelt out: where a statement may begin, `target op= value`
/// becomes `target = target op (value)`, with what stands before it on its line, the
/// semicolon that ends it, the keywords that close blocks behind it, and the end of the
/// line. This holds of every target that is a name with fields and indices, of every
/// operator that has a compound form, behind each keyword that a statement may follow, and
/// before any number of keywords that close blocks.
pub proof fn a_compound_assignment_is_spelt_out(a: Assignment, ending: Seq<char>)
    requires
        a.well_made(),
        ends_line(ending),
    ensures
        expanded(a.line() + ending) == a.plain() + ending,
{
    let line = a.line() + ending;
    let before = a.before();
    let target = a.target();
    let start = before.len() as int;
    let end = start + target.len();
    let at = end + a.gap.len();
    let stop = line.len() as int;
    lemma_line_parts(a, ending);
    lemma_ended(a, ending);
    let k = lemma_compound_place(line, a.op, at);
    lemma_one_line(a.line(), ending);
    lemma_only_code(line, at + a.op.len() + 1);
    lemma_boundary(before, a.head, a.opener, a.indent);
    lemma_target_place(a, ending);
    lemma_right_hand_side(a, ending);
    let tail = split_rest(line.subrange(at + a.op.len() + 1, stop)).1;
    let code = Seq::new(line.len(), |i: int| true);
    lemma_rewritten(line, code, start, end, at, k, a.value, tail);
    lemma_plain(a, ending);
}

// --- what is left alone ---

/// A statement may begin at `start`: nothing but white space stands before it, or a
/// semicolon or a keyword that a statement may follow stands before the white space.
pub open spec fn statement_begins_at(line: Seq<char>, start: int, cut: int) -> bool {
    &&& 0 <= cut <= start <= line.len()
    &&& forall|i: int| cut <= i < start ==> is_space(#[trigger] line[i])
    &&& cut == 0 || line[cut - 1] == ';' || exists|keyword: Seq<char>| #[trigger]
        opens_statement(keyword) && ends_in_word(line.take(cut), keyword)
}

/// Where a target, its operator and the beginning of its statement stand in a line.
pub struct Place {
    pub cut: int,
    pub start: int,
    pub end: int,
    pub at: int,
    pub op: Seq<char>,
}

impl Place {
    /// A statement may begin at `start`; from there to `end` stands a target that starts
    /// with a name and holds no call, and behind it, after blanks, a compound operator that
    /// is code.
    pub open spec fn holds_in(self, line: Seq<char>, code: Seq<bool>) -> bool {
        &&& statement_begins_at(line, self.start, self.cut)
        &&& 0 <= self.start < self.end <= self.at
        &&& word_char(line[self.start]) && !('0' <= line[self.start] <= '9')
        &&& forall|i: int|
            self.start <= i < self.end ==> #[trigger] line[i] != '(' && line[i] != ')'
        &&& forall|i: int| self.end <= i < self.at ==> #[trigger] line[i] == ' ' || line[i] == '\t'
        &&& lua_operator(self.op)
        &&& self.at + self.op.len() < line.len()
        &&& line.subrange(self.at, self.at + self.op.len() + 1) == self.op.push('=')
        &&& code[self.at]
    }
}

proof fn lemma_blanks_between(line: Seq<char>, end: int)
    requires
        0 <= end <= line.len(),
    ensures
        forall|i: int|
            before_blanks(line, end) <= i < end ==> #[trigger] line[i] == ' ' || line[i] == '\t',
    decreases end,
{
    if end > 0 && (line[end - 1] == ' ' || line[end - 1] == '\t') {
        lemma_blanks_between(line, end - 1);
    }
}

/// Nothing is rewritten that is not sure to be a compound assignment: a line that changes
/// holds a compound operator in code, behind a target that can be written twice because it
/// holds no call, where a statement may begin. What stands before the operator stays, and
/// the target and the operator follow in plain Lua.
pub proof fn only_safe_assignments_are_touched(line: Seq<char>, code: Seq<bool>)
    ensures
        rewritten(line, code) matches Some(out) ==> exists|p: Place| #[trigger]
            p.holds_in(line, code) && {
                let before = line.take(p.start);
                let target = line.subrange(p.start, p.end);
                let lead = before + target + seq![' ', '=', ' '] + target + seq![' '] + p.op + seq![
                    ' ',
                    '(',
                ];
                out.len() > lead.len() && out.take(lead.len() as int) == lead
            },
{
    if let Some(out) = rewritten(line, code) {
        crate::cfx_lua::lemma_compound_of(line, code, 0);
        let (at, k) = compound_of(line, code, 0).unwrap();
        let op = operators()[k];
        crate::cfx_lua::target_holds_no_call(line, at);
        let (start, end) = target_of(line, at).unwrap();
        let before = line.take(start);
        let trimmed = trim_end(before);
        lemma_trim_end(before);
        let cut = trimmed.len() as int;
        assert(trimmed =~= line.take(cut));
        assert forall|i: int| cut <= i < start implies is_space(#[trigger] line[i]) by {
            assert(before[i] == line[i]);
        }
        if cut > 0 && line[cut - 1] != ';' {
            assert(trimmed.last() == line[cut - 1]);
            crate::cfx_lua::lemma_keyword_at_end(trimmed, statement_preceders(), 0);
            let j = keyword_at_end(trimmed, statement_preceders(), 0).unwrap();
            let keyword = statement_preceders()[j];
            assert(opens_statement(keyword));
            assert(ends_in_word(line.take(cut), keyword));
        }
        lemma_blanks_between(line, at);
        assert(lua_operator(op));
        let p = Place { cut, start, end, at, op };
        assert(p.holds_in(line, code));
        let target = line.subrange(start, end);
        let lead = before + target + seq![' ', '=', ' '] + target + seq![' '] + op + seq![' ', '('];
        let stop = code_end(line, at + op.len() + 1).unwrap();
        let (rhs, tail) = split_rest(line.subrange(at + op.len() + 1, stop));
        assert(out =~= lead + (trim(rhs) + seq![')'] + (tail + comment_after(line, stop))
            + line_ending(line)));
        assert(out.take(lead.len() as int) =~= lead);
    }
}

// --- strings and comments ---

proof fn lemma_code_before(first: Seq<char>, rest: Seq<char>, i: int)
    requires
        only_code(first),
        0 <= i <= first.len(),
        first.len() == 0 || rest.len() == 0 || (first.last() != '-' && first.last() != '['),
    ensures
        code_from(first + rest, i) == Seq::new((first.len() - i) as nat, |k: int| true) + code_from(
            rest,
            0,
        ),
    decreases first.len() - i,
{
    let s = first + rest;
    let n = first.len() as int;
    if i == n {
        crate::cfx_lua::lemma_code_moved(first, rest, 0);
        assert(Seq::new(0, |k: int| true) + code_from(rest, 0) =~= code_from(rest, 0));
    } else {
        lemma_code_before(first, rest, i + 1);
        assert(code_at(first, i));
        assert(s[i] == first[i]);
        if i + 1 < n {
            assert(s[i + 1] == first[i + 1]);
        } else {
            assert(first.last() == first[i]);
        }
        assert(long_level(s, i) is None);
        assert(non_code_end(s, i) is None);
        assert(seq![true] + (Seq::new((n - (i + 1)) as nat, |k: int| true) + code_from(rest, 0))
            =~= Seq::new((n - i) as nat, |k: int| true) + code_from(rest, 0));
    }
}

proof fn lemma_string_end(s: Seq<char>, i: int, end: int, quote: char)
    requires
        0 <= i <= end < s.len(),
        s[end] == quote,
        quote != '\\',
        forall|j: int| i <= j < end ==> #[trigger] s[j] != quote && s[j] != '\\',
    ensures
        crate::cfx_lua::string_end(s, i, quote) == end + 1,
    decreases end - i,
{
    if i < end {
        lemma_string_end(s, i + 1, end, quote);
    }
}

/// What stands between quotes is no code, and the code goes on behind them: nothing in a
/// string is taken for an assignment.
pub proof fn a_quoted_string_is_no_code(
    first: Seq<char>,
    quote: char,
    inner: Seq<char>,
    rest: Seq<char>,
)
    requires
        quote == '"' || quote == '\'',
        only_code(first),
        first.len() == 0 || (first.last() != '-' && first.last() != '['),
        forall|i: int| 0 <= i < inner.len() ==> #[trigger] inner[i] != quote && inner[i] != '\\',
    ensures
        code_from(first + (seq![quote] + inner + seq![quote] + rest), 0) == Seq::new(
            first.len(),
            |k: int| true,
        ) + (Seq::new(inner.len() + 2, |k: int| false) + code_from(rest, 0)),
{
    let text = seq![quote] + inner + seq![quote];
    let s = text + rest;
    assert(s =~= seq![quote] + inner + seq![quote] + rest);
    lemma_code_before(first, s, 0);
    let end = inner.len() as int + 1;
    assert forall|j: int| 1 <= j < end implies #[trigger] s[j] != quote && s[j] != '\\' by {
        assert(s[j] == inner[j - 1]);
    }
    assert(s[0] == quote && s[end] == quote);
    lemma_string_end(s, 1, end, quote);
    assert(long_level(s, 0) is None);
    assert(non_code_end(s, 0) == Some(end + 1));
    crate::cfx_lua::lemma_code_moved(text, rest, 0);
    assert(text.len() == end + 1);
    assert(code_from(s, end + 1) == code_from(rest, 0));
}

/// What stands behind two hyphens is no code, up to the end of the line.
pub proof fn a_comment_is_no_code(first: Seq<char>, comment: Seq<char>, rest: Seq<char>)
    requires
        only_code(first),
        first.len() == 0 || (first.last() != '-' && first.last() != '['),
        no_line_feed(comment),
        comment.len() == 0 || comment[0] != '[',
    ensures
        code_from(first + (seq!['-', '-'] + comment + (seq!['\n'] + rest)), 0) == Seq::new(
            first.len(),
            |k: int| true,
        ) + (Seq::new(comment.len() + 2, |k: int| false) + code_from(seq!['\n'] + rest, 0)),
{
    let text = seq!['-', '-'] + comment;
    let more = seq!['\n'] + rest;
    let s = text + more;
    lemma_code_before(first, s, 0);
    let n = text.len() as int;
    assert(s[0] == '-' && s[1] == '-');
    assert(long_level(s, 0) is None);
    assert(long_level(s, 2) is None) by {
        if comment.len() > 0 {
            assert(s[2] == comment[0]);
        } else {
            assert(s[2] == '\n');
        }
    }
    assert forall|j: int| 0 <= j < n implies #[trigger] s[j] != '\n' by {
        if j >= 2 {
            assert(s[j] == comment[j - 2]);
        }
    }
    assert(s[n] == '\n');
    lemma_first_line_feed(s, 0, n);
    assert(non_code_end(s, 0) == Some(n));
    crate::cfx_lua::lemma_code_moved(text, more, 0);
    assert(code_from(s, n) == code_from(more, 0));
}

proof fn lemma_first_line_feed(s: Seq<char>, i: int, n: int)
    requires
        0 <= i <= n < s.len(),
        s[n] == '\n',
        forall|j: int| 0 <= j < n ==> #[trigger] s[j] != '\n',
    ensures
        find_from(s, seq!['\n'], i) == Some(n),
    decreases n - i,
{
    assert(s.subrange(i, i + 1)[0] == s[i]);
    if i < n {
        lemma_first_line_feed(s, i + 1, n);
    } else {
        assert(s.subrange(i, i + 1) =~= seq!['\n']);
    }
}

/// `level` equals signs.
pub open spec fn equals_signs(level: nat) -> Seq<char> {
    Seq::new(level, |i: int| '=')
}

proof fn lemma_equals_run(s: Seq<char>, i: int, level: nat)
    requires
        0 <= i,
        i + level < s.len(),
        forall|j: int| i <= j < i + level ==> #[trigger] s[j] == '=',
        s[i + level] != '=',
    ensures
        equals_run(s, i) == level,
    decreases level,
{
    if level > 0 {
        lemma_equals_run(s, i + 1, (level - 1) as nat);
    }
}

proof fn lemma_first_close(s: Seq<char>, close: Seq<char>, i: int, n: int)
    requires
        0 <= i <= n,
        close.len() > 0,
        n + close.len() <= s.len(),
        s.subrange(n, n + close.len()) == close,
        forall|j: int| i <= j < n ==> #[trigger] s.subrange(j, j + close.len()) != close,
    ensures
        find_from(s, close, i) == Some(n),
    decreases n - i,
{
    if i < n {
        assert(s.subrange(i, i + close.len()) != close);
        lemma_first_close(s, close, i + 1, n);
    }
}

/// What stands in long brackets of any level is no code, whether as a string or behind two
/// hyphens as a comment, up to the first bracket of that level that closes; the code goes
/// on behind it.
pub proof fn long_brackets_are_no_code(
    first: Seq<char>,
    comment: bool,
    level: nat,
    inner: Seq<char>,
    rest: Seq<char>,
)
    requires
        only_code(first),
        first.len() == 0 || (first.last() != '-' && first.last() != '['),
        ({
            let close = seq![']'] + equals_signs(level) + seq![']'];
            forall|j: int|
                0 <= j < inner.len() ==> #[trigger] (inner + close).subrange(j, j + level + 2)
                    != close
        }),
    ensures
        ({
            let open = seq!['['] + equals_signs(level) + seq!['['];
            let close = seq![']'] + equals_signs(level) + seq![']'];
            let text = (if comment {
                seq!['-', '-']
            } else {
                Seq::empty()
            }) + open + inner + close;
            code_from(first + (text + rest), 0) == Seq::new(first.len(), |k: int| true) + (Seq::new(
                text.len(),
                |k: int| false,
            ) + code_from(rest, 0))
        }),
{
    let open = seq!['['] + equals_signs(level) + seq!['['];
    let close = seq![']'] + equals_signs(level) + seq![']'];
    let lead = if comment {
        seq!['-', '-']
    } else {
        Seq::empty()
    };
    let text = lead + open + inner + close;
    let s = text + rest;
    let k = lead.len() as int;
    let n = text.len() as int;
    lemma_code_before(first, s, 0);
    lemma_long_end(lead, level, inner, rest);
    if comment {
        assert(s[0] == '-' && s[1] == '-');
        assert(long_level(s, 0) is None);
    }
    assert(non_code_end(s, 0) == Some(n));
    crate::cfx_lua::lemma_code_moved(text, rest, 0);
    assert(code_from(s, n) == code_from(rest, 0));
}

proof fn lemma_long_end(lead: Seq<char>, level: nat, inner: Seq<char>, rest: Seq<char>)
    requires
        ({
            let close = seq![']'] + equals_signs(level) + seq![']'];
            forall|j: int|
                0 <= j < inner.len() ==> #[trigger] (inner + close).subrange(j, j + level + 2)
                    != close
        }),
    ensures
        ({
            let open = seq!['['] + equals_signs(level) + seq!['['];
            let close = seq![']'] + equals_signs(level) + seq![']'];
            let text = lead + open + inner + close;
            &&& long_level(text + rest, lead.len() as int) == Some(level)
            &&& crate::cfx_lua::after_close(text + rest, lead.len() as int, level) == text.len()
        }),
{
    let open = seq!['['] + equals_signs(level) + seq!['['];
    let close = seq![']'] + equals_signs(level) + seq![']'];
    let text = lead + open + inner + close;
    let s = text + rest;
    let k = lead.len() as int;
    assert(open.len() == level + 2 && close.len() == level + 2);
    assert forall|j: int| k <= j < k + open.len() implies #[trigger] s[j] == open[j - k] by {}
    assert(s[k] == '[');
    assert(s[k + level + 1] == '[');
    lemma_equals_run(s, k + 1, level);
    assert(close =~= crate::cfx_lua::close_bracket(level));
    let at = k + open.len() + inner.len();
    assert(s.subrange(at, at + close.len()) =~= close);
    assert forall|j: int| k <= j < at implies #[trigger] s.subrange(j, j + close.len()) != close by {
        if j < k + open.len() {
            assert(s.subrange(j, j + close.len())[0] == s[j]);
            assert(close[0] == ']');
        } else {
            let i = j - k - open.len();
            assert(s.subrange(j, j + close.len()) =~= (inner + close).subrange(i, i + level + 2));
        }
    }
    lemma_first_close(s, close, k, at);
}

} // verus!
