//! CitizenFX's Lua is not stock Lua 5.4.
//!
//! A manifest saying `lua54 'yes'` gets CfxLua, which adds compound assignment
//! (`x += 1`, `s ..= "!"`) to the grammar. The reference Lua rejects it as a syntax
//! error, so it is translated at the source level before a chunk is loaded:
//!
//! ```lua
//! money += amount        -->  money = money + (amount)
//! t.list[i] ..= "x"      -->  t.list[i] = t.list[i] .. ("x")
//! ```
//!
//! # What it deliberately will not touch
//!
//! Rewriting duplicates the target, so the target has to be safe to evaluate twice.
//! `a[next(t)] += 1` would call `next` twice and mean something else, so a target
//! containing a call is left alone and Lua reports the syntax error it always did.
//! Anything the scanner is not sure of is left alone for the same reason: a missed
//! translation is a clear error at load, while a wrong one is a silent behaviour
//! change.
//!
//! Line numbers survive, since every rewrite stays on its own line, so a stack trace
//! still points at the line the author wrote.
use crate::text::{chars_of, ends_with, string_of};
use vstd::prelude::*;

verus! {

// --- characters ---

/// Unicode white space.
pub open spec fn is_space(c: char) -> bool {
    let n = c as u32;
    ||| 9 <= n <= 13
    ||| n == 0x20
    ||| n == 0x85
    ||| n == 0xA0
    ||| n == 0x1680
    ||| 0x2000 <= n <= 0x200A
    ||| n == 0x2028
    ||| n == 0x2029
    ||| n == 0x202F
    ||| n == 0x205F
    ||| n == 0x3000
}

/// A character that names are made of.
pub open spec fn is_name_char(c: char) -> bool {
    ||| 'a' <= c <= 'z'
    ||| 'A' <= c <= 'Z'
    ||| '0' <= c <= '9'
    ||| c == '_'
}

fn space(c: char) -> (yes: bool)
    ensures
        yes == is_space(c),
{
    let n: u32 = c as u32;
    (9 <= n && n <= 13) || n == 0x20 || n == 0x85 || n == 0xA0 || n == 0x1680 || (0x2000 <= n && n
        <= 0x200A) || n == 0x2028 || n == 0x2029 || n == 0x202F || n == 0x205F || n == 0x3000
}

fn name_char(c: char) -> (yes: bool)
    ensures
        yes == is_name_char(c),
{
    ('a' <= c && c <= 'z') || ('A' <= c && c <= 'Z') || ('0' <= c && c <= '9') || c == '_'
}

/// `s` without the white space at its end.
pub open spec fn trim_end(s: Seq<char>) -> Seq<char>
    decreases s.len(),
{
    if s.len() > 0 && is_space(s.last()) {
        trim_end(s.drop_last())
    } else {
        s
    }
}

/// `s` without the white space at its start.
pub open spec fn trim_start(s: Seq<char>) -> Seq<char>
    decreases s.len(),
{
    if s.len() > 0 && is_space(s[0]) {
        trim_start(s.skip(1))
    } else {
        s
    }
}

/// `s` without the white space at both ends.
pub open spec fn trim(s: Seq<char>) -> Seq<char> {
    trim_start(trim_end(s))
}

/// The first position from `from` on where `needle` stands in `s`.
pub open spec fn find_from(s: Seq<char>, needle: Seq<char>, from: int) -> Option<int>
    decreases s.len() - from,
{
    if from < 0 || from + needle.len() > s.len() || from >= s.len() {
        None
    } else if s.subrange(from, from + needle.len()) == needle {
        Some(from)
    } else {
        find_from(s, needle, from + 1)
    }
}

// --- what is code ---

/// How many `=` stand from `i` on.
pub open spec fn equals_run(s: Seq<char>, i: int) -> nat
    decreases s.len() - i,
{
    if 0 <= i < s.len() && s[i] == '=' {
        1 + equals_run(s, i + 1)
    } else {
        0
    }
}

/// The level of a long bracket `[[`, `[=[`, `[==[`... that opens at `i`.
pub open spec fn long_level(s: Seq<char>, i: int) -> Option<nat> {
    if 0 <= i < s.len() && s[i] == '[' {
        let n = equals_run(s, i + 1);
        if i + 1 + n < s.len() && s[i + 1 + n as int] == '[' {
            Some(n)
        } else {
            None
        }
    } else {
        None
    }
}

/// The bracket that closes a long bracket of the given level.
pub open spec fn close_bracket(level: nat) -> Seq<char> {
    seq![']'] + Seq::new(level, |i: int| '=') + seq![']']
}

/// Where a long bracket of the given level that opens at `i` ends.
pub open spec fn after_close(s: Seq<char>, i: int, level: nat) -> int {
    match find_from(s, close_bracket(level), i) {
        Some(p) => p + level + 2,
        None => s.len() as int,
    }
}

/// Where a quoted string whose content starts at `i` ends. A backslash escapes the
/// character behind it, also a quote.
pub open spec fn string_end(s: Seq<char>, i: int, quote: char) -> int
    decreases s.len() - i + 1,
{
    if i >= s.len() {
        s.len() as int
    } else if s[i] == quote {
        i + 1
    } else if s[i] == '\\' {
        string_end(s, i + 2, quote)
    } else {
        string_end(s, i + 1, quote)
    }
}

/// Where the string or comment that starts at `i` ends, if one starts there.
pub open spec fn non_code_end(s: Seq<char>, i: int) -> Option<int> {
    if long_level(s, i) is Some {
        Some(after_close(s, i, long_level(s, i).unwrap()))
    } else if s[i] == '-' && i + 1 < s.len() && s[i + 1] == '-' {
        if long_level(s, i + 2) is Some {
            Some(after_close(s, i + 2, long_level(s, i + 2).unwrap()))
        } else {
            match find_from(s, seq!['\n'], i) {
                Some(p) => Some(p),
                None => Some(s.len() as int),
            }
        }
    } else if s[i] == '"' || s[i] == '\'' {
        Some(string_end(s, i + 1, s[i]))
    } else {
        None
    }
}

/// From `i` on, which characters are code: neither in a string nor in a comment.
pub open spec fn code_from(s: Seq<char>, i: int) -> Seq<bool>
    decreases s.len() - i,
{
    if i >= s.len() {
        Seq::empty()
    } else {
        match non_code_end(s, i) {
            Some(end) => if i < end <= s.len() {
                Seq::new((end - i) as nat, |k: int| false) + code_from(s, end)
            } else {
                Seq::empty()
            },
            None => seq![true] + code_from(s, i + 1),
        }
    }
}

pub(crate) proof fn lemma_find_bound(s: Seq<char>, needle: Seq<char>, from: int)
    ensures
        find_from(s, needle, from) matches Some(p) ==> from <= p && p + needle.len() <= s.len()
            && s.subrange(p, p + needle.len()) == needle,
    decreases s.len() - from,
{
    if !(from < 0 || from + needle.len() > s.len() || from >= s.len()) {
        lemma_find_bound(s, needle, from + 1);
    }
}

proof fn lemma_string_end(s: Seq<char>, i: int, quote: char)
    requires
        0 <= i <= s.len(),
    ensures
        i <= string_end(s, i, quote) <= s.len(),
    decreases s.len() - i,
{
    if i < s.len() && s[i] != quote {
        if s[i] == '\\' {
            if i + 2 <= s.len() {
                lemma_string_end(s, i + 2, quote);
            } else {
                assert(string_end(s, i + 2, quote) == s.len());
            }
        } else {
            lemma_string_end(s, i + 1, quote);
        }
    }
}

proof fn lemma_after_close(s: Seq<char>, i: int, level: nat)
    requires
        0 <= i < s.len(),
    ensures
        i < after_close(s, i, level) <= s.len(),
{
    lemma_find_bound(s, close_bracket(level), i);
}

/// A string or comment takes at least one character.
proof fn lemma_non_code_end(s: Seq<char>, i: int)
    requires
        0 <= i < s.len(),
    ensures
        non_code_end(s, i) matches Some(end) ==> i < end <= s.len(),
{
    if long_level(s, i) is Some {
        lemma_after_close(s, i, long_level(s, i).unwrap());
    } else if s[i] == '-' && i + 1 < s.len() && s[i + 1] == '-' {
        if long_level(s, i + 2) is Some {
            lemma_after_close(s, i + 2, long_level(s, i + 2).unwrap());
        } else {
            lemma_find_bound(s, seq!['\n'], i);
            if let Some(p) = find_from(s, seq!['\n'], i) {
                assert(s.subrange(p, p + 1)[0] == '\n');
            }
        }
    } else if s[i] == '"' || s[i] == '\'' {
        lemma_string_end(s, i + 1, s[i]);
    }
}

proof fn lemma_code_len(s: Seq<char>, i: int)
    requires
        0 <= i <= s.len(),
    ensures
        code_from(s, i).len() == s.len() - i,
    decreases s.len() - i,
{
    if i < s.len() {
        lemma_non_code_end(s, i);
        match non_code_end(s, i) {
            Some(end) => lemma_code_len(s, end),
            None => lemma_code_len(s, i + 1),
        }
    }
}

/// Whether `needle` stands in `s` at `at`.
fn stands_at(s: &Vec<char>, needle: &Vec<char>, at: usize) -> (yes: bool)
    requires
        at + needle@.len() <= s@.len(),
    ensures
        yes == (s@.subrange(at as int, at + needle@.len()) == needle@),
{
    let len: usize = s.len();
    let mut k: usize = 0;
    while k < needle.len()
        invariant
            k <= needle@.len(),
            at + needle@.len() <= s@.len(),
            len == s@.len(),
            forall|j: int| 0 <= j < k ==> s@[at + j] == needle@[j],
        decreases needle@.len() - k,
    {
        if s[at + k] != needle[k] {
            assert(s@.subrange(at as int, at + needle@.len())[k as int] != needle@[k as int]);
            return false;
        }
        k = k + 1;
    }
    assert(s@.subrange(at as int, at + needle@.len()) =~= needle@);
    true
}

fn find(s: &Vec<char>, needle: &Vec<char>, from: usize) -> (at: Option<usize>)
    requires
        from <= s@.len(),
    ensures
        match find_from(s@, needle@, from as int) {
            Some(p) => at == Some(p as usize) && from <= p <= s@.len(),
            None => at is None,
        },
{
    let mut i: usize = from;
    while i < s.len() && needle.len() <= s.len() - i
        invariant
            from <= i <= s@.len(),
            find_from(s@, needle@, from as int) == find_from(s@, needle@, i as int),
        decreases s@.len() - i,
    {
        if stands_at(s, needle, i) {
            return Some(i);
        }
        i = i + 1;
    }
    None
}

/// `[[`, `[=[`, `[==[`... at `i`, and its level.
fn long_bracket_at(s: &Vec<char>, i: usize) -> (level: Option<usize>)
    ensures
        match long_level(s@, i as int) {
            Some(n) => level == Some(n as usize) && n <= s@.len() && i < s@.len(),
            None => level is None,
        },
{
    if i >= s.len() || s[i] != '[' {
        return None;
    }
    let mut j: usize = i + 1;
    while j < s.len() && s[j] == '='
        invariant
            i < j <= s@.len(),
            equals_run(s@, i + 1) == (j - (i + 1)) + equals_run(s@, j as int),
        decreases s@.len() - j,
    {
        j = j + 1;
    }
    if j < s.len() && s[j] == '[' {
        Some(j - (i + 1))
    } else {
        None
    }
}

fn closing(level: usize) -> (close: Vec<char>)
    ensures
        close@ == close_bracket(level as nat),
{
    let mut close: Vec<char> = Vec::new();
    close.push(']');
    let mut k: usize = 0;
    while k < level
        invariant
            k <= level,
            close@ == seq![']'] + Seq::new(k as nat, |i: int| '='),
        decreases level - k,
    {
        close.push('=');
        k = k + 1;
        assert(close@ =~= seq![']'] + Seq::new(k as nat, |i: int| '='));
    }
    close.push(']');
    assert(close@ =~= close_bracket(level as nat));
    close
}

fn skip_long_bracket(s: &Vec<char>, i: usize, level: usize) -> (end: usize)
    requires
        i < s@.len(),
        level <= s@.len(),
    ensures
        end == after_close(s@, i as int, level as nat),
{
    let close = closing(level);
    let len: usize = s.len();
    proof {
        lemma_find_bound(s@, close@, i as int);
    }
    match find(s, &close, i) {
        Some(p) => p + close.len(),
        None => len,
    }
}

fn skip_string(s: &Vec<char>, i: usize, quote: char) -> (end: usize)
    requires
        i <= s@.len(),
    ensures
        end == string_end(s@, i as int, quote),
{
    let mut j: usize = i;
    while j < s.len() && s[j] != quote
        invariant
            i <= j <= s@.len(),
            string_end(s@, i as int, quote) == string_end(s@, j as int, quote),
        decreases s@.len() - j,
    {
        if s[j] == '\\' {
            if s.len() - j < 2 {
                assert(string_end(s@, j + 2, quote) == s@.len());
                return s.len();
            }
            j = j + 2;
        } else {
            j = j + 1;
        }
    }
    if j < s.len() {
        j + 1
    } else {
        s.len()
    }
}

/// Where the string or comment that starts at `i` ends.
fn skip_non_code(s: &Vec<char>, i: usize) -> (end: Option<usize>)
    requires
        i < s@.len(),
    ensures
        match non_code_end(s@, i as int) {
            Some(e) => end == Some(e as usize) && i < e <= s@.len(),
            None => end is None,
        },
{
    let len: usize = s.len();
    proof {
        lemma_non_code_end(s@, i as int);
    }
    if let Some(level) = long_bracket_at(s, i) {
        return Some(skip_long_bracket(s, i, level));
    }
    if s[i] == '-' && i + 1 < len && s[i + 1] == '-' {
        if i + 2 < len {
            if let Some(level) = long_bracket_at(s, i + 2) {
                return Some(skip_long_bracket(s, i + 2, level));
            }
        }
        let mut newline: Vec<char> = Vec::new();
        newline.push('\n');
        assert(newline@ =~= seq!['\n']);
        return match find(s, &newline, i) {
            Some(p) => Some(p),
            None => Some(s.len()),
        };
    }
    if s[i] == '"' || s[i] == '\'' {
        return Some(skip_string(s, i + 1, s[i]));
    }
    None
}

/// Per character: this is code, not a string or a comment.
///
/// Compound assignment has to be found in code only: `print("a += b")` is a string,
/// and `-- x += 1` is a comment. Both would otherwise be rewritten.
fn code_mask(s: &Vec<char>) -> (mask: Vec<bool>)
    ensures
        mask@ == code_from(s@, 0),
        mask@.len() == s@.len(),
{
    let mut mask: Vec<bool> = Vec::new();
    let mut i: usize = 0;
    assert(mask@ + code_from(s@, 0) =~= code_from(s@, 0));
    while i < s.len()
        invariant
            i <= s@.len(),
            mask@.len() == i,
            mask@ + code_from(s@, i as int) == code_from(s@, 0),
        decreases s@.len() - i,
    {
        let ghost before = mask@;
        match skip_non_code(s, i) {
            Some(end) => {
                let ghost start = i as int;
                while i < end
                    invariant
                        start <= i <= end <= s@.len(),
                        mask@ == before + Seq::new((i - start) as nat, |k: int| false),
                    decreases end - i,
                {
                    mask.push(false);
                    i = i + 1;
                    assert(mask@ =~= before + Seq::new((i - start) as nat, |k: int| false));
                }
                assert(mask@ + code_from(s@, end as int) =~= before + code_from(s@, start));
            },
            None => {
                mask.push(true);
                assert(mask@ + code_from(s@, i + 1) =~= before + code_from(s@, i as int));
                i = i + 1;
            },
        }
    }
    assert(mask@ + code_from(s@, i as int) =~= mask@);
    proof {
        lemma_code_len(s@, 0);
    }
    mask
}

// --- one line ---

/// The operators that take a compound form, in the order in which a line is searched
/// for them.
pub open spec fn operators() -> Seq<Seq<char>> {
    seq![seq!['.', '.'], seq!['+'], seq!['-'], seq!['*'], seq!['/'], seq!['%'], seq!['^']]
}

/// Keywords that a statement may legally follow on the same line.
pub open spec fn statement_preceders() -> Seq<Seq<char>> {
    seq![
        seq!['t', 'h', 'e', 'n'],
        seq!['d', 'o'],
        seq!['e', 'l', 's', 'e'],
        seq!['r', 'e', 'p', 'e', 'a', 't'],
        seq!['b', 'e', 'g', 'i', 'n'],
    ]
}

/// Keywords that close a block, so they end the right-hand side rather than belonging
/// to it.
pub open spec fn block_closers() -> Seq<Seq<char>> {
    seq![seq!['e', 'n', 'd'], seq!['e', 'l', 's', 'e'], seq!['u', 'n', 't', 'i', 'l']]
}

/// The first position from `from` on where `op=` stands in code.
pub open spec fn compound_from(
    line: Seq<char>,
    code: Seq<bool>,
    op: Seq<char>,
    from: int,
) -> Option<int>
    decreases line.len() - from,
{
    match find_from(line, op.push('='), from) {
        Some(at) => if !(from <= at < line.len()) {
            None
        } else if code[at] {
            Some(at)
        } else {
            compound_from(line, code, op, at + 1)
        },
        None => None,
    }
}

/// The compound operator of a line: where it stands, and which of `operators` it is.
pub open spec fn compound_of(line: Seq<char>, code: Seq<bool>, k: int) -> Option<(int, int)>
    decreases operators().len() - k,
{
    if 0 <= k < operators().len() {
        match compound_from(line, code, operators()[k], 0) {
            Some(at) => Some((at, k)),
            None => compound_of(line, code, k + 1),
        }
    } else {
        None
    }
}

/// Where the blanks before `end` start.
pub open spec fn before_blanks(line: Seq<char>, end: int) -> int
    decreases end,
{
    if end > 0 && (line[end - 1] == ' ' || line[end - 1] == '\t') {
        before_blanks(line, end - 1)
    } else {
        end
    }
}

/// Where the name that ends at `end` starts.
pub open spec fn name_start(line: Seq<char>, end: int) -> int
    decreases end,
{
    if end > 0 && is_name_char(line[end - 1]) {
        name_start(line, end - 1)
    } else {
        end
    }
}

/// Where the index `[ ... ]` opens that is still `depth` brackets deep at `end`. Nothing
/// where it never opens, or holds a parenthesis: a call inside it would run twice.
pub open spec fn index_start(line: Seq<char>, end: int, depth: int) -> Option<int>
    decreases end,
{
    if end <= 0 {
        None
    } else {
        let c = line[end - 1];
        if c == ']' {
            index_start(line, end - 1, depth + 1)
        } else if c == '[' {
            if depth == 1 {
                Some(end - 1)
            } else {
                index_start(line, end - 1, depth - 1)
            }
        } else if c == '(' || c == ')' {
            None
        } else {
            index_start(line, end - 1, depth)
        }
    }
}

/// Where the chain of names and indices that ends at `end` starts: `a.b[2].c`.
pub open spec fn chain_start(line: Seq<char>, end: int) -> Option<int>
    decreases end,
{
    if end > 0 && line[end - 1] == ']' {
        match index_start(line, end, 0) {
            Some(open) => if 0 <= open < end {
                chain_start(line, open)
            } else {
                None
            },
            None => None,
        }
    } else {
        let start = name_start(line, end);
        if !(0 <= start < end) {
            None
        } else if start > 0 && (line[start - 1] == '.' || line[start - 1] == ':') {
            chain_start(line, start - 1)
        } else {
            Some(start)
        }
    }
}

/// The assignable expression immediately before `at`, from where it starts to where it
/// ends, if it is one that can safely be duplicated.
pub open spec fn target_of(line: Seq<char>, at: int) -> Option<(int, int)> {
    let end = before_blanks(line, at);
    match chain_start(line, end) {
        Some(start) => if '0' <= line[start] <= '9' {
            None
        } else {
            Some((start, end))
        },
        None => None,
    }
}

/// Whether `s` ends in a keyword that is no tail of a longer name.
pub open spec fn ends_in_keyword(s: Seq<char>, keyword: Seq<char>) -> bool {
    ends_with(s, keyword) && (s.len() == keyword.len() || !is_name_char(
        s[s.len() - keyword.len() - 1],
    ))
}

/// The first of `keywords` from `k` on that `s` ends in.
pub open spec fn keyword_at_end(s: Seq<char>, keywords: Seq<Seq<char>>, k: int) -> Option<int>
    decreases keywords.len() - k,
{
    if 0 <= k < keywords.len() {
        if ends_in_keyword(s, keywords[k]) {
            Some(k)
        } else {
            keyword_at_end(s, keywords, k + 1)
        }
    } else {
        None
    }
}

/// Whether a statement may begin after `before`.
pub open spec fn statement_boundary(before: Seq<char>) -> bool {
    let trimmed = trim_end(before);
    ||| trimmed.len() == 0
    ||| trimmed.last() == ';'
    ||| keyword_at_end(trimmed, statement_preceders(), 0) is Some
}

/// The rest of a line parted into the right-hand side and the keywords that close
/// blocks behind it.
pub open spec fn split_closers(rest: Seq<char>, tail: Seq<char>) -> (Seq<char>, Seq<char>)
    decreases rest.len(),
{
    let trimmed = trim_end(rest);
    match keyword_at_end(trimmed, block_closers(), 0) {
        Some(k) => {
            let keyword = block_closers()[k];
            let head = trimmed.take(trimmed.len() - keyword.len());
            if head.len() < rest.len() {
                split_closers(head, seq![' '] + keyword + tail)
            } else {
                (rest, tail)
            }
        },
        None => (rest, tail),
    }
}

/// As `split_closers`, with a semicolon before the keywords counted among them.
pub open spec fn split_rest(rest: Seq<char>) -> (Seq<char>, Seq<char>) {
    let (rhs, tail) = split_closers(rest, Seq::empty());
    let trimmed = trim_end(rhs);
    if trimmed.len() > 0 && trimmed.last() == ';' {
        (trimmed.drop_last(), seq![';'] + tail)
    } else {
        (rhs, tail)
    }
}

/// What a line ends in: a line feed, perhaps with a carriage return, or nothing.
pub open spec fn line_ending(line: Seq<char>) -> Seq<char> {
    if ends_with(line, seq!['\r', '\n']) {
        seq!['\r', '\n']
    } else if line.len() > 0 && line.last() == '\n' {
        seq!['\n']
    } else {
        Seq::empty()
    }
}

/// Where the code from `i` on ends: at the comment that the line ends in, or else at the
/// end of the line. Nothing where a string goes on in the next line.
pub open spec fn code_end(line: Seq<char>, i: int) -> Option<int>
    decreases line.len() - i,
{
    if i >= line.len() {
        Some(line.len() as int)
    } else {
        match non_code_end(line, i) {
            Some(end) => if line[i] == '-' && end >= trim_end(line).len() {
                Some(i)
            } else if line[i] != '-' && end > line.len() - line_ending(line).len() {
                None
            } else if i < end <= line.len() {
                code_end(line, end)
            } else {
                None
            },
            None => code_end(line, i + 1),
        }
    }
}

/// What follows the code that ends at `end`, a blank before it: a comment or nothing.
pub open spec fn comment_after(line: Seq<char>, end: int) -> Seq<char> {
    if end < trim_end(line).len() {
        seq![' '] + trim_end(line).skip(end)
    } else {
        Seq::empty()
    }
}

/// `target op= rhs` spelt out.
pub open spec fn plain_assignment(
    before: Seq<char>,
    target: Seq<char>,
    op: Seq<char>,
    rhs: Seq<char>,
    tail: Seq<char>,
    ending: Seq<char>,
) -> Seq<char> {
    before + target + seq![' ', '=', ' '] + target + seq![' '] + op + seq![' ', '('] + rhs + seq![
        ')',
    ] + tail + ending
}

/// A line with its compound assignment spelt out, or nothing where there is nothing to
/// do.
pub open spec fn rewritten(line: Seq<char>, code: Seq<bool>) -> Option<Seq<char>> {
    match compound_of(line, code, 0) {
        None => None,
        Some((at, k)) => {
            let op = operators()[k];
            match target_of(line, at) {
                None => None,
                Some((start, end)) => match code_end(line, at + op.len() + 1) {
                    None => None,
                    Some(stop) => {
                        let (rhs, tail) = split_rest(line.subrange(at + op.len() + 1, stop));
                        if !statement_boundary(line.take(start)) || trim(rhs).len() == 0 {
                            None
                        } else {
                            Some(
                                plain_assignment(
                                    line.take(start),
                                    line.subrange(start, end),
                                    op,
                                    trim(rhs),
                                    tail + comment_after(line, stop),
                                    line_ending(line),
                                ),
                            )
                        }
                    },
                },
            }
        },
    }
}

fn operator(k: usize) -> (op: Vec<char>)
    requires
        k < operators().len(),
    ensures
        op@ == operators()[k as int],
{
    let op: Vec<char> = match k {
        0 => vec!['.', '.'],
        1 => vec!['+'],
        2 => vec!['-'],
        3 => vec!['*'],
        4 => vec!['/'],
        5 => vec!['%'],
        _ => vec!['^'],
    };
    assert(op@ =~= operators()[k as int]);
    op
}

fn statement_preceder(k: usize) -> (keyword: Vec<char>)
    requires
        k < statement_preceders().len(),
    ensures
        keyword@ == statement_preceders()[k as int],
{
    let keyword: Vec<char> = match k {
        0 => vec!['t', 'h', 'e', 'n'],
        1 => vec!['d', 'o'],
        2 => vec!['e', 'l', 's', 'e'],
        3 => vec!['r', 'e', 'p', 'e', 'a', 't'],
        _ => vec!['b', 'e', 'g', 'i', 'n'],
    };
    assert(keyword@ =~= statement_preceders()[k as int]);
    keyword
}

fn block_closer(k: usize) -> (keyword: Vec<char>)
    requires
        k < block_closers().len(),
    ensures
        keyword@ == block_closers()[k as int],
{
    let keyword: Vec<char> = match k {
        0 => vec!['e', 'n', 'd'],
        1 => vec!['e', 'l', 's', 'e'],
        _ => vec!['u', 'n', 't', 'i', 'l'],
    };
    assert(keyword@ =~= block_closers()[k as int]);
    keyword
}

pub(crate) proof fn lemma_trim_end(s: Seq<char>)
    ensures
        trim_end(s).len() <= s.len(),
        trim_end(s) == s.take(trim_end(s).len() as int),
        forall|i: int| trim_end(s).len() <= i < s.len() ==> is_space(#[trigger] s[i]),
    decreases s.len(),
{
    if s.len() > 0 && is_space(s.last()) {
        lemma_trim_end(s.drop_last());
        let n = trim_end(s).len();
        assert(s.drop_last().take(n as int) =~= s.take(n as int));
        assert forall|i: int| n <= i < s.len() implies is_space(#[trigger] s[i]) by {
            if i < s.len() - 1 {
                assert(s.drop_last()[i] == s[i]);
            }
        }
    } else {
        assert(s.take(s.len() as int) =~= s);
    }
}

/// The characters of `s` from `from` to `to`.
fn part(s: &Vec<char>, from: usize, to: usize) -> (chars: Vec<char>)
    requires
        from <= to <= s@.len(),
    ensures
        chars@ == s@.subrange(from as int, to as int),
{
    let mut chars: Vec<char> = Vec::new();
    let mut i: usize = from;
    while i < to
        invariant
            from <= i <= to <= s@.len(),
            chars@ == s@.subrange(from as int, i as int),
        decreases to - i,
    {
        chars.push(s[i]);
        i = i + 1;
        assert(chars@ =~= s@.subrange(from as int, i as int));
    }
    chars
}

fn trimmed_end(s: &Vec<char>) -> (chars: Vec<char>)
    ensures
        chars@ == trim_end(s@),
{
    let mut n: usize = s.len();
    assert(s@.take(n as int) =~= s@);
    while n > 0 && space(s[n - 1])
        invariant
            n <= s@.len(),
            trim_end(s@.take(n as int)) == trim_end(s@),
        decreases n,
    {
        assert(s@.take(n as int).drop_last() =~= s@.take(n - 1));
        assert(s@.take(n as int).last() == s@[n - 1]);
        n = n - 1;
    }
    let chars = part(s, 0, n);
    assert(chars@ =~= s@.take(n as int));
    chars
}

pub(crate) fn trimmed(s: &Vec<char>) -> (chars: Vec<char>)
    ensures
        chars@ == trim(s@),
{
    let head = trimmed_end(s);
    let mut n: usize = 0;
    assert(head@.skip(0) =~= head@);
    while n < head.len() && space(head[n])
        invariant
            n <= head@.len(),
            trim_start(head@.skip(n as int)) == trim_start(head@),
        decreases head@.len() - n,
    {
        assert(head@.skip(n as int).skip(1) =~= head@.skip(n + 1));
        n = n + 1;
    }
    let chars = part(&head, n, head.len());
    assert(chars@ =~= head@.skip(n as int));
    chars
}

/// Appends `more`.
fn extend(s: &mut Vec<char>, more: &Vec<char>)
    ensures
        final(s)@ == old(s)@ + more@,
{
    let ghost before = s@;
    let mut i: usize = 0;
    assert(before + more@.take(0) =~= before);
    while i < more.len()
        invariant
            i <= more@.len(),
            s@ == before + more@.take(i as int),
        decreases more@.len() - i,
    {
        s.push(more[i]);
        i = i + 1;
        assert(s@ =~= before + more@.take(i as int));
    }
    assert(more@.take(i as int) =~= more@);
}

/// Where the compound form of `op` stands in code.
fn compound_at(line: &Vec<char>, code: &Vec<bool>, op: &Vec<char>) -> (at: Option<usize>)
    requires
        code@.len() == line@.len(),
    ensures
        match compound_from(line@, code@, op@, 0) {
            Some(p) => at == Some(p as usize) && 0 <= p && p + op@.len() < line@.len(),
            None => at is None,
        },
{
    let mut needle: Vec<char> = Vec::new();
    extend(&mut needle, op);
    needle.push('=');
    assert(needle@ =~= op@.push('='));
    let len: usize = line.len();
    let mut from: usize = 0;
    loop
        invariant
            from <= line@.len() == len,
            code@.len() == line@.len(),
            needle@ == op@.push('='),
            compound_from(line@, code@, op@, from as int) == compound_from(line@, code@, op@, 0),
        decreases line@.len() - from,
    {
        proof {
            lemma_find_bound(line@, needle@, from as int);
        }
        match find(line, &needle, from) {
            Some(at) => {
                if code[at] {
                    return Some(at);
                }
                from = at + 1;
            },
            None => {
                return None;
            },
        }
    }
}

fn find_compound(line: &Vec<char>, code: &Vec<bool>) -> (found: Option<(usize, usize)>)
    requires
        code@.len() == line@.len(),
    ensures
        match compound_of(line@, code@, 0) {
            Some((at, k)) => found == Some((at as usize, k as usize)) && 0 <= k < operators().len()
                && 0 <= at && at + operators()[k].len() < line@.len(),
            None => found is None,
        },
{
    let mut k: usize = 0;
    while k < 7
        invariant
            k <= 7 == operators().len(),
            code@.len() == line@.len(),
            compound_of(line@, code@, k as int) == compound_of(line@, code@, 0),
        decreases 7 - k,
    {
        let op = operator(k);
        if let Some(at) = compound_at(line, code, &op) {
            return Some((at, k));
        }
        k = k + 1;
    }
    None
}

proof fn lemma_before_blanks(line: Seq<char>, end: int)
    requires
        0 <= end,
    ensures
        0 <= before_blanks(line, end) <= end,
    decreases end,
{
    if end > 0 && (line[end - 1] == ' ' || line[end - 1] == '\t') {
        lemma_before_blanks(line, end - 1);
    }
}

proof fn lemma_name_start(line: Seq<char>, end: int)
    requires
        0 <= end,
    ensures
        0 <= name_start(line, end) <= end,
        forall|i: int| name_start(line, end) <= i < end ==> is_name_char(#[trigger] line[i]),
    decreases end,
{
    if end > 0 && is_name_char(line[end - 1]) {
        lemma_name_start(line, end - 1);
    }
}

proof fn lemma_index_start(line: Seq<char>, end: int, depth: int)
    ensures
        index_start(line, end, depth) matches Some(open) ==> 0 <= open < end && forall|i: int|
            open <= i < end ==> #[trigger] line[i] != '(' && line[i] != ')',
    decreases end,
{
    if end > 0 {
        let c = line[end - 1];
        let deeper = if c == ']' {
            depth + 1
        } else if c == '[' {
            depth - 1
        } else {
            depth
        };
        lemma_index_start(line, end - 1, deeper);
    }
}

/// A target is a name first of all, and holds no call.
proof fn lemma_chain_start(line: Seq<char>, end: int)
    requires
        0 <= end <= line.len(),
    ensures
        chain_start(line, end) matches Some(start) ==> 0 <= start < end && is_name_char(line[start])
            && forall|i: int| start <= i < end ==> #[trigger] line[i] != '(' && line[i] != ')',
    decreases end,
{
    if end > 0 && line[end - 1] == ']' {
        lemma_index_start(line, end, 0);
        if let Some(open) = index_start(line, end, 0) {
            lemma_chain_start(line, open);
        }
    } else {
        let start = name_start(line, end);
        lemma_name_start(line, end);
        if start < end && start > 0 && (line[start - 1] == '.' || line[start - 1] == ':') {
            lemma_chain_start(line, start - 1);
        }
    }
}

/// Where the index that ends at `end` opens.
fn skip_index(line: &Vec<char>, end: usize) -> (open: Option<usize>)
    requires
        0 < end <= line@.len(),
        line@[end - 1] == ']',
    ensures
        match index_start(line@, end as int, 0) {
            Some(p) => open == Some(p as usize) && 0 <= p < end,
            None => open is None,
        },
{
    let len: usize = line.len();
    let mut start: usize = end - 1;
    let mut depth: usize = 1;
    while start > 0
        invariant
            start < end <= line@.len() == len,
            1 <= depth <= end - start,
            index_start(line@, start as int, depth as int) == index_start(line@, end as int, 0),
        decreases start,
    {
        let c = line[start - 1];
        if c == ']' {
            depth = depth + 1;
        } else if c == '[' {
            if depth == 1 {
                return Some(start - 1);
            }
            depth = depth - 1;
        } else if c == '(' || c == ')' {
            return None;
        }
        start = start - 1;
    }
    None
}

/// Where the target that ends at `end` starts.
fn skip_chain(line: &Vec<char>, end: usize) -> (found: Option<usize>)
    requires
        end <= line@.len(),
    ensures
        match chain_start(line@, end as int) {
            Some(p) => found == Some(p as usize) && 0 <= p < end,
            None => found is None,
        },
{
    let mut start: usize = end;
    loop
        invariant
            start <= end <= line@.len(),
            chain_start(line@, start as int) == chain_start(line@, end as int),
        decreases start,
    {
        proof {
            lemma_chain_start(line@, start as int);
            lemma_name_start(line@, start as int);
        }
        if start > 0 && line[start - 1] == ']' {
            match skip_index(line, start) {
                Some(open) => {
                    start = open;
                },
                None => {
                    return None;
                },
            }
        } else {
            let name_end: usize = start;
            while start > 0 && name_char(line[start - 1])
                invariant
                    start <= name_end <= line@.len(),
                    name_start(line@, start as int) == name_start(line@, name_end as int),
                decreases start,
            {
                start = start - 1;
            }
            if start == name_end {
                return None;
            }
            if start > 0 && (line[start - 1] == '.' || line[start - 1] == ':') {
                start = start - 1;
            } else {
                return Some(start);
            }
        }
    }
}

/// The assignable expression immediately before `at`, from where it starts to where it
/// ends, if it is one this can safely duplicate.
///
/// Both ends matter: whitespace may sit between the target and the operator.
fn assignment_target(line: &Vec<char>, at: usize) -> (target: Option<(usize, usize)>)
    requires
        at <= line@.len(),
    ensures
        match target_of(line@, at as int) {
            Some((start, end)) => target == Some((start as usize, end as usize)) && 0 <= start < end
                <= at,
            None => target is None,
        },
{
    let mut end: usize = at;
    proof {
        lemma_before_blanks(line@, at as int);
    }
    while end > 0 && (line[end - 1] == ' ' || line[end - 1] == '\t')
        invariant
            end <= at <= line@.len(),
            before_blanks(line@, end as int) == before_blanks(line@, at as int),
        decreases end,
    {
        end = end - 1;
    }
    match skip_chain(line, end) {
        Some(start) => {
            if '0' <= line[start] && line[start] <= '9' {
                None
            } else {
                Some((start, end))
            }
        },
        None => None,
    }
}

/// Whether `s` ends in the keyword, standing on its own.
fn has_keyword(s: &Vec<char>, keyword: &Vec<char>) -> (yes: bool)
    ensures
        yes == ends_in_keyword(s@, keyword@),
{
    if s.len() < keyword.len() {
        return false;
    }
    let from: usize = s.len() - keyword.len();
    assert(s@.subrange(from as int, from + keyword@.len()) =~= s@.skip(from as int));
    if !stands_at(s, keyword, from) {
        return false;
    }
    from == 0 || !name_char(s[from - 1])
}

/// Whether a statement may begin after this text.
fn is_statement_boundary(before: &Vec<char>) -> (yes: bool)
    ensures
        yes == statement_boundary(before@),
{
    let trimmed = trimmed_end(before);
    if trimmed.len() == 0 || trimmed[trimmed.len() - 1] == ';' {
        return true;
    }
    let mut k: usize = 0;
    while k < 5
        invariant
            k <= 5 == statement_preceders().len(),
            trimmed@ == trim_end(before@),
            keyword_at_end(trimmed@, statement_preceders(), k as int) == keyword_at_end(
                trimmed@,
                statement_preceders(),
                0,
            ),
        decreases 5 - k,
    {
        let keyword = statement_preceder(k);
        if has_keyword(&trimmed, &keyword) {
            return true;
        }
        k = k + 1;
    }
    false
}

/// The block closer that `s` ends in.
fn closer_at_end(s: &Vec<char>) -> (found: Option<usize>)
    ensures
        match keyword_at_end(s@, block_closers(), 0) {
            Some(k) => found == Some(k as usize) && 0 <= k < block_closers().len()
                && block_closers()[k].len() <= s@.len(),
            None => found is None,
        },
{
    let mut k: usize = 0;
    while k < 3
        invariant
            k <= 3 == block_closers().len(),
            keyword_at_end(s@, block_closers(), k as int) == keyword_at_end(s@, block_closers(), 0),
        decreases 3 - k,
    {
        let keyword = block_closer(k);
        if has_keyword(s, &keyword) {
            return Some(k);
        }
        k = k + 1;
    }
    None
}

/// The right-hand side, minus anything that closes a block: `if x then a += 1 end` must
/// not read `end` as part of the sum.
fn split_tail(rest: &Vec<char>) -> (parts: (Vec<char>, Vec<char>))
    ensures
        (parts.0@, parts.1@) == split_rest(rest@),
{
    let mut rhs = part(rest, 0, rest.len());
    assert(rhs@ =~= rest@);
    let mut tail: Vec<char> = Vec::new();
    assert(tail@ =~= Seq::<char>::empty());
    loop
        invariant_except_break
            split_closers(rhs@, tail@) == split_closers(rest@, Seq::empty()),
        ensures
            (rhs@, tail@) == split_closers(rest@, Seq::empty()),
        decreases rhs@.len(),
    {
        let trimmed = trimmed_end(&rhs);
        proof {
            lemma_trim_end(rhs@);
        }
        match closer_at_end(&trimmed) {
            Some(k) => {
                let keyword = block_closer(k);
                let mut longer: Vec<char> = Vec::new();
                longer.push(' ');
                extend(&mut longer, &keyword);
                extend(&mut longer, &tail);
                assert(longer@ =~= seq![' '] + keyword@ + tail@);
                let head = part(&trimmed, 0, trimmed.len() - keyword.len());
                assert(head@ =~= trimmed@.take(trimmed@.len() - keyword@.len()));
                tail = longer;
                rhs = head;
            },
            None => {
                break ;
            },
        }
    }
    let trimmed = trimmed_end(&rhs);
    if trimmed.len() > 0 && trimmed[trimmed.len() - 1] == ';' {
        let mut longer: Vec<char> = Vec::new();
        longer.push(';');
        extend(&mut longer, &tail);
        assert(longer@ =~= seq![';'] + tail@);
        let head = part(&trimmed, 0, trimmed.len() - 1);
        assert(head@ =~= trimmed@.drop_last());
        return (head, longer);
    }
    (rhs, tail)
}

fn ending_of(line: &Vec<char>) -> (ending: Vec<char>)
    ensures
        ending@ == line_ending(line@),
{
    let n: usize = line.len();
    if n >= 2 && line[n - 2] == '\r' && line[n - 1] == '\n' {
        assert(line@.skip(n - 2) =~= seq!['\r', '\n']);
        let ending: Vec<char> = vec!['\r', '\n'];
        assert(ending@ =~= seq!['\r', '\n']);
        return ending;
    }
    assert(!ends_with(line@, seq!['\r', '\n'])) by {
        if ends_with(line@, seq!['\r', '\n']) {
            assert(line@.skip(n - 2)[0] == line@[n - 2]);
            assert(line@.skip(n - 2)[1] == line@[n - 1]);
        }
    }
    if n > 0 && line[n - 1] == '\n' {
        let ending: Vec<char> = vec!['\n'];
        assert(ending@ =~= seq!['\n']);
        return ending;
    }
    let ending: Vec<char> = Vec::new();
    assert(ending@ =~= Seq::<char>::empty());
    ending
}

proof fn lemma_code_end(line: Seq<char>, i: int)
    requires
        0 <= i <= line.len(),
    ensures
        code_end(line, i) matches Some(end) ==> i <= end <= line.len(),
    decreases line.len() - i,
{
    if i < line.len() {
        lemma_non_code_end(line, i);
        match non_code_end(line, i) {
            Some(end) => lemma_code_end(line, end),
            None => lemma_code_end(line, i + 1),
        }
    }
}

/// Where the code from `from` on ends.
fn find_code_end(line: &Vec<char>, from: usize) -> (end: Option<usize>)
    requires
        from <= line@.len(),
    ensures
        match code_end(line@, from as int) {
            Some(e) => end == Some(e as usize) && from <= e <= line@.len(),
            None => end is None,
        },
{
    proof {
        lemma_code_end(line@, from as int);
        lemma_trim_end(line@);
    }
    let kept: usize = trimmed_end(line).len();
    let content: usize = line.len() - ending_of(line).len();
    let mut i: usize = from;
    while i < line.len()
        invariant
            from <= i <= line@.len(),
            kept == trim_end(line@).len(),
            content == line@.len() - line_ending(line@).len(),
            code_end(line@, i as int) == code_end(line@, from as int),
        decreases line@.len() - i,
    {
        match skip_non_code(line, i) {
            Some(end) => {
                if line[i] == '-' {
                    if end >= kept {
                        return Some(i);
                    }
                } else if end > content {
                    return None;
                }
                i = end;
            },
            None => {
                i = i + 1;
            },
        }
    }
    Some(i)
}

/// The comment behind the code that ends at `end`, a blank before it.
fn comment_of(line: &Vec<char>, end: usize) -> (comment: Vec<char>)
    requires
        end <= line@.len(),
    ensures
        comment@ == comment_after(line@, end as int),
{
    let kept = trimmed_end(line);
    let mut comment: Vec<char> = Vec::new();
    if end < kept.len() {
        comment.push(' ');
        let text = part(&kept, end, kept.len());
        extend(&mut comment, &text);
    }
    assert(comment@ =~= comment_after(line@, end as int));
    comment
}

/// Rewrite one line, or `None` when there is nothing to do.
fn rewrite_line(line: &Vec<char>, code: &Vec<bool>) -> (out: Option<Vec<char>>)
    requires
        code@.len() == line@.len(),
    ensures
        match rewritten(line@, code@) {
            Some(text) => out matches Some(chars) && chars@ == text,
            None => out is None,
        },
{
    let len: usize = line.len();
    let (at, k) = match find_compound(line, code) {
        Some(found) => found,
        None => {
            return None;
        },
    };
    let op = operator(k);
    assert(at + op@.len() < len);
    let (start, end) = match assignment_target(line, at) {
        Some(found) => found,
        None => {
            return None;
        },
    };
    let before = part(line, 0, start);
    assert(before@ =~= line@.take(start as int));
    if !is_statement_boundary(&before) {
        return None;
    }
    let stop: usize = match find_code_end(line, at + op.len() + 1) {
        Some(stop) => stop,
        None => {
            return None;
        },
    };
    let rest = part(line, at + op.len() + 1, stop);
    let (rhs, tail) = split_tail(&rest);
    let value = trimmed(&rhs);
    if value.len() == 0 {
        return None;
    }
    let target = part(line, start, end);
    let mut close: Vec<char> = tail;
    extend(&mut close, &comment_of(line, stop));
    let ending = ending_of(line);
    let mut out: Vec<char> = before;
    extend(&mut out, &target);
    out.push(' ');
    out.push('=');
    out.push(' ');
    extend(&mut out, &target);
    out.push(' ');
    extend(&mut out, &op);
    out.push(' ');
    out.push('(');
    extend(&mut out, &value);
    out.push(')');
    extend(&mut out, &close);
    extend(&mut out, &ending);
    assert(out@ =~= plain_assignment(
        line@.take(start as int),
        target@,
        op@,
        value@,
        close@,
        ending@,
    ));
    Some(out)
}

// --- the whole source ---

/// Where the line that starts at `i` ends, its line feed counted in.
pub open spec fn line_end(s: Seq<char>, i: int) -> int {
    match find_from(s, seq!['\n'], i) {
        Some(p) => p + 1,
        None => s.len() as int,
    }
}

/// The source from `i` on with each line rewritten where it can be.
pub open spec fn expanded_from(s: Seq<char>, code: Seq<bool>, i: int) -> Seq<char>
    decreases s.len() - i,
{
    let end = line_end(s, i);
    if 0 <= i < end <= s.len() {
        let line = s.subrange(i, end);
        let out = match rewritten(line, code.subrange(i, end)) {
            Some(text) => text,
            None => line,
        };
        out + expanded_from(s, code, end)
    } else {
        Seq::empty()
    }
}

/// A source in plain Lua: every compound assignment that can safely be spelt out is.
pub open spec fn expanded(s: Seq<char>) -> Seq<char> {
    expanded_from(s, code_from(s, 0), 0)
}

/// Rewrite CfxLua compound assignments into plain Lua.
///
/// Returns the source unchanged when it contains none, which is the common case.
pub fn expand_compound_assignment(source: &str) -> (out: String)
    ensures
        out@ == expanded(source@),
{
    let chars = chars_of(source);
    let code = code_mask(&chars);
    let newline: Vec<char> = vec!['\n'];
    assert(newline@ =~= seq!['\n']);
    let len: usize = chars.len();
    let mut out: Vec<char> = Vec::new();
    let mut start: usize = 0;
    assert(out@ + expanded_from(chars@, code@, 0) =~= expanded(source@));
    while start < len
        invariant
            start <= len == chars@.len() == code@.len(),
            newline@ == seq!['\n'],
            out@ + expanded_from(chars@, code@, start as int) == expanded(source@),
        decreases len - start,
    {
        proof {
            lemma_find_bound(chars@, seq!['\n'], start as int);
        }
        let end: usize = match find(&chars, &newline, start) {
            Some(p) => p + 1,
            None => len,
        };
        assert(end == line_end(chars@, start as int));
        let line = part(&chars, start, end);
        let mut mask: Vec<bool> = Vec::new();
        let mut i: usize = start;
        while i < end
            invariant
                start <= i <= end <= code@.len(),
                mask@ == code@.subrange(start as int, i as int),
            decreases end - i,
        {
            mask.push(code[i]);
            i = i + 1;
            assert(mask@ =~= code@.subrange(start as int, i as int));
        }
        let ghost before = out@;
        match rewrite_line(&line, &mask) {
            Some(text) => {
                extend(&mut out, &text);
            },
            None => {
                extend(&mut out, &line);
            },
        }
        assert(out@ + expanded_from(chars@, code@, end as int) =~= before + expanded_from(
            chars@,
            code@,
            start as int,
        ));
        start = end;
    }
    assert(out@ + expanded_from(chars@, code@, start as int) =~= out@);
    string_of(&out)
}

// --- laws ---

/// How many line feeds `s` holds.
pub open spec fn newlines(s: Seq<char>) -> nat
    decreases s.len(),
{
    if s.len() == 0 {
        0
    } else {
        newlines(s.drop_last()) + if s.last() == '\n' {
            1nat
        } else {
            0nat
        }
    }
}

/// `s` is at most one line: a line feed stands nowhere but at its end.
pub open spec fn one_line(s: Seq<char>) -> bool {
    forall|i: int| 0 <= i < s.len() - 1 ==> #[trigger] s[i] != '\n'
}

spec fn no_newline(s: Seq<char>) -> bool {
    forall|i: int| 0 <= i < s.len() ==> #[trigger] s[i] != '\n'
}

proof fn lemma_newlines_none(s: Seq<char>)
    requires
        no_newline(s),
    ensures
        newlines(s) == 0,
    decreases s.len(),
{
    if s.len() > 0 {
        assert(no_newline(s.drop_last()));
        lemma_newlines_none(s.drop_last());
    }
}

proof fn lemma_newlines_join(a: Seq<char>, b: Seq<char>)
    ensures
        newlines(a + b) == newlines(a) + newlines(b),
    decreases b.len(),
{
    if b.len() == 0 {
        assert(a + b =~= a);
    } else {
        lemma_newlines_join(a, b.drop_last());
        assert((a + b).drop_last() =~= a + b.drop_last());
    }
}

proof fn lemma_trimmed_line(s: Seq<char>)
    requires
        one_line(s),
    ensures
        no_newline(trim_end(s)),
        no_newline(trim(s)),
{
    lemma_trim_end(s);
    let t = trim_end(s);
    assert forall|i: int| 0 <= i < t.len() implies #[trigger] t[i] != '\n' by {
        assert(t[i] == s[i]);
        if i == s.len() - 1 {
            lemma_trim_end(s.drop_last());
            assert(!is_space(s.last()));
        }
    }
    lemma_trim_start(t);
}

proof fn lemma_trim_start(s: Seq<char>)
    requires
        no_newline(s),
    ensures
        no_newline(trim_start(s)),
    decreases s.len(),
{
    if s.len() > 0 && is_space(s[0]) {
        lemma_trim_start(s.skip(1));
    }
}

proof fn lemma_split_line(rest: Seq<char>, tail: Seq<char>)
    requires
        one_line(rest),
        no_newline(tail),
    ensures
        one_line(split_closers(rest, tail).0),
        no_newline(split_closers(rest, tail).1),
    decreases rest.len(),
{
    let trimmed = trim_end(rest);
    lemma_trimmed_line(rest);
    if let Some(k) = keyword_at_end(trimmed, block_closers(), 0) {
        lemma_keyword_at_end(trimmed, block_closers(), 0);
        let keyword = block_closers()[k];
        let head = trimmed.take(trimmed.len() - keyword.len());
        if head.len() < rest.len() {
            lemma_split_line(head, seq![' '] + keyword + tail);
        }
    }
}

pub(crate) proof fn lemma_keyword_at_end(s: Seq<char>, keywords: Seq<Seq<char>>, k: int)
    ensures
        keyword_at_end(s, keywords, k) matches Some(found) ==> 0 <= found < keywords.len()
            && ends_in_keyword(s, keywords[found]),
    decreases keywords.len() - k,
{
    if 0 <= k < keywords.len() {
        lemma_keyword_at_end(s, keywords, k + 1);
    }
}

pub(crate) proof fn lemma_compound_from(line: Seq<char>, code: Seq<bool>, op: Seq<char>, from: int)
    ensures
        compound_from(line, code, op, from) matches Some(at) ==> from <= at && at + op.len()
            < line.len() && code[at] && line.subrange(at, at + op.len() + 1) == op.push('='),
    decreases line.len() - from,
{
    lemma_find_bound(line, op.push('='), from);
    if let Some(at) = find_from(line, op.push('='), from) {
        if from <= at < line.len() && !code[at] {
            lemma_compound_from(line, code, op, at + 1);
        }
    }
}

pub(crate) proof fn lemma_compound_of(line: Seq<char>, code: Seq<bool>, k: int)
    ensures
        compound_of(line, code, k) matches Some((at, found)) ==> 0 <= found < operators().len() && 0
            <= at && at + operators()[found].len() < line.len() && code[at] && line.subrange(
            at,
            at + operators()[found].len() + 1,
        ) == operators()[found].push('='),
    decreases operators().len() - k,
{
    if 0 <= k < operators().len() {
        lemma_compound_from(line, code, operators()[k], 0);
        lemma_compound_of(line, code, k + 1);
    }
}

/// A target that is written twice starts with a name, not a digit, and holds no call:
/// nothing in it runs twice.
pub proof fn target_holds_no_call(line: Seq<char>, at: int)
    requires
        0 <= at <= line.len(),
    ensures
        target_of(line, at) matches Some((start, end)) ==> 0 <= start < end <= at && is_name_char(
            line[start],
        ) && !('0' <= line[start] <= '9') && forall|i: int|
            start <= i < end ==> #[trigger] line[i] != '(' && line[i] != ')',
{
    lemma_before_blanks(line, at);
    lemma_chain_start(line, before_blanks(line, at));
}

/// A rewritten line is still one line, with as many line feeds as before.
pub proof fn rewrite_stays_on_its_line(line: Seq<char>, code: Seq<bool>)
    requires
        one_line(line),
    ensures
        rewritten(line, code) matches Some(out) ==> one_line(out) && newlines(out) == newlines(
            line,
        ),
{
    if let Some(out) = rewritten(line, code) {
        lemma_compound_of(line, code, 0);
        let (at, k) = compound_of(line, code, 0).unwrap();
        let op = operators()[k];
        target_holds_no_call(line, at);
        let (start, end) = target_of(line, at).unwrap();
        let before = line.take(start);
        let target = line.subrange(start, end);
        lemma_code_end(line, at + op.len() + 1);
        let stop = code_end(line, at + op.len() + 1).unwrap();
        let rest = line.subrange(at + op.len() + 1, stop);
        assert(one_line(rest)) by {
            assert forall|i: int| 0 <= i < rest.len() - 1 implies #[trigger] rest[i] != '\n' by {
                assert(rest[i] == line[at + op.len() + 1 + i]);
            }
        }
        lemma_split_line(rest, Seq::empty());
        let closed = split_closers(rest, Seq::empty());
        lemma_trimmed_line(closed.0);
        let (rhs, tail) = split_rest(rest);
        assert(one_line(rhs));
        assert(no_newline(tail));
        lemma_trimmed_line(rhs);
        lemma_trimmed_line(line);
        let comment = comment_after(line, stop);
        assert(no_newline(comment));
        let ending = line_ending(line);
        let body = before + target + seq![' ', '=', ' '] + target + seq![' '] + op + seq![
            ' ',
            '(',
        ] + trim(rhs) + seq![')'] + (tail + comment);
        assert(no_newline(before));
        assert(no_newline(target));
        assert(no_newline(op));
        assert(no_newline(body));
        assert(out =~= body + ending);
        lemma_newlines_none(body);
        lemma_newlines_join(body, ending);
        lemma_ending(line);
    }
}

proof fn lemma_ending(line: Seq<char>)
    requires
        one_line(line),
    ensures
        newlines(line_ending(line)) == newlines(line),
        one_line(line_ending(line)),
{
    let ending = line_ending(line);
    reveal_with_fuel(newlines, 3);
    if line.len() > 0 {
        assert(no_newline(line.drop_last()));
        lemma_newlines_none(line.drop_last());
    }
    if ends_with(line, seq!['\r', '\n']) {
        assert(line.skip(line.len() - 2)[1] == line.last());
        assert(seq!['\r', '\n'].drop_last() =~= seq!['\r']);
    }
}

proof fn lemma_line(s: Seq<char>, i: int)
    requires
        0 <= i < s.len(),
    ensures
        i < line_end(s, i) <= s.len(),
        one_line(s.subrange(i, line_end(s, i))),
{
    lemma_find_bound(s, seq!['\n'], i);
    lemma_find_first(s, i);
    let end = line_end(s, i);
    let line = s.subrange(i, end);
    assert forall|j: int| 0 <= j < line.len() - 1 implies #[trigger] line[j] != '\n' by {
        assert(line[j] == s[i + j]);
    }
}

proof fn lemma_find_first(s: Seq<char>, from: int)
    requires
        0 <= from,
    ensures
        forall|j: int| from <= j < line_end(s, from) - 1 ==> #[trigger] s[j] != '\n',
        find_from(s, seq!['\n'], from) is None ==> forall|j: int|
            from <= j < s.len() ==> #[trigger] s[j] != '\n',
    decreases s.len() - from,
{
    if from < s.len() {
        if s[from] == '\n' {
            assert(s.subrange(from, from + 1) =~= seq!['\n']);
        } else {
            assert(s.subrange(from, from + 1)[0] == s[from]);
            lemma_find_first(s, from + 1);
        }
    }
}

/// Line numbers survive: the translated source holds as many line feeds as the source,
/// so what stood on a line still does.
pub proof fn line_numbers_survive(source: Seq<char>)
    ensures
        newlines(expanded(source)) == newlines(source),
{
    lemma_code_len(source, 0);
    lemma_expanded_newlines(source, code_from(source, 0), 0);
    assert(source.skip(0) =~= source);
}

proof fn lemma_expanded_newlines(s: Seq<char>, code: Seq<bool>, i: int)
    requires
        0 <= i <= s.len(),
        code.len() == s.len(),
    ensures
        newlines(expanded_from(s, code, i)) == newlines(s.skip(i)),
    decreases s.len() - i,
{
    if i < s.len() {
        lemma_line(s, i);
        let end = line_end(s, i);
        let line = s.subrange(i, end);
        rewrite_stays_on_its_line(line, code.subrange(i, end));
        lemma_expanded_newlines(s, code, end);
        let out = match rewritten(line, code.subrange(i, end)) {
            Some(text) => text,
            None => line,
        };
        lemma_newlines_join(out, expanded_from(s, code, end));
        lemma_newlines_join(line, s.skip(end));
        assert(line + s.skip(end) =~= s.skip(i));
    } else {
        lemma_find_bound(s, seq!['\n'], i);
        assert(s.skip(i) =~= Seq::<char>::empty());
    }
}

/// A source without a compound operator in its code is left as it is.
pub proof fn plain_lua_is_unchanged(source: Seq<char>)
    requires
        forall|at: int, k: int|
            #![trigger code_from(source, 0)[at], operators()[k]]
            0 <= at < source.len() && 0 <= k < operators().len() && code_from(source, 0)[at] ==> !(at
                + operators()[k].len() < source.len() && source.subrange(
                at,
                at + operators()[k].len() + 1,
            ) == operators()[k].push('=')),
    ensures
        expanded(source) == source,
{
    lemma_code_len(source, 0);
    lemma_unchanged(source, code_from(source, 0), 0);
    assert(source.skip(0) =~= source);
}

proof fn lemma_unchanged(s: Seq<char>, code: Seq<bool>, i: int)
    requires
        0 <= i <= s.len(),
        code.len() == s.len(),
        forall|at: int, k: int|
            #![trigger code[at], operators()[k]]
            0 <= at < s.len() && 0 <= k < operators().len() && code[at] ==> !(at
                + operators()[k].len() < s.len() && s.subrange(at, at + operators()[k].len() + 1)
                == operators()[k].push('=')),
    ensures
        expanded_from(s, code, i) == s.skip(i),
    decreases s.len() - i,
{
    if i < s.len() {
        lemma_line(s, i);
        let end = line_end(s, i);
        let line = s.subrange(i, end);
        let mask = code.subrange(i, end);
        lemma_compound_of(line, mask, 0);
        if let Some((at, k)) = compound_of(line, mask, 0) {
            let n = operators()[k].len();
            assert(mask[at] == code[i + at]);
            assert(line.subrange(at, at + n + 1) =~= s.subrange(i + at, i + at + n + 1));
        }
        lemma_unchanged(s, code, end);
        assert(line + s.skip(end) =~= s.skip(i));
    } else {
        lemma_find_bound(s, seq!['\n'], i);
        assert(s.skip(i) =~= Seq::<char>::empty());
    }
}

/// Sources can be translated piece by piece: where the first ends with a line feed and
/// holds nothing that could open a string or a long comment, the translation of both
/// together is that of the first followed by that of the second.
pub proof fn translation_parts_at_a_line(first: Seq<char>, second: Seq<char>)
    requires
        first.len() > 0,
        first.last() == '\n',
        forall|i: int|
            0 <= i < first.len() ==> #[trigger] first[i] != '"' && first[i] != '\'' && first[i]
                != '[',
    ensures
        expanded(first + second) == expanded(first) + expanded(second),
{
    lemma_code_joins(first, second, 0);
    lemma_code_len(first, 0);
    lemma_code_len(second, 0);
    lemma_expanded_joins(first, second, code_from(first, 0), code_from(second, 0), 0);
}

proof fn lemma_find_moved(a: Seq<char>, b: Seq<char>, needle: Seq<char>, i: int)
    requires
        0 <= i,
    ensures
        find_from(a + b, needle, a.len() + i) == match find_from(b, needle, i) {
            Some(p) => Some(a.len() + p),
            None => None,
        },
    decreases b.len() - i,
{
    if i + needle.len() <= b.len() && i < b.len() {
        let n = a.len() as int;
        assert((a + b).subrange(n + i, n + i + needle.len()) =~= b.subrange(i, i + needle.len()));
        lemma_find_moved(a, b, needle, i + 1);
    }
}

proof fn lemma_level_moved(a: Seq<char>, b: Seq<char>, i: int)
    requires
        0 <= i,
    ensures
        equals_run(a + b, a.len() + i) == equals_run(b, i),
        long_level(a + b, a.len() + i) == long_level(b, i),
    decreases b.len() - i,
{
    if i < b.len() {
        lemma_level_moved(a, b, i + 1);
    }
}

proof fn lemma_string_moved(a: Seq<char>, b: Seq<char>, i: int, quote: char)
    requires
        0 <= i,
    ensures
        string_end(a + b, a.len() + i, quote) == a.len() + string_end(b, i, quote),
    decreases b.len() - i + 1,
{
    if i < b.len() {
        lemma_string_moved(a, b, i + 1, quote);
        lemma_string_moved(a, b, i + 2, quote);
    }
}

proof fn lemma_non_code_moved(a: Seq<char>, b: Seq<char>, i: int)
    requires
        0 <= i < b.len(),
    ensures
        non_code_end(a + b, a.len() + i) == match non_code_end(b, i) {
            Some(end) => Some(a.len() + end),
            None => None,
        },
{
    lemma_level_moved(a, b, i);
    lemma_level_moved(a, b, i + 2);
    lemma_find_moved(a, b, seq!['\n'], i);
    lemma_string_moved(a, b, i + 1, b[i]);
    if let Some(level) = long_level(b, i) {
        lemma_find_moved(a, b, close_bracket(level), i);
    }
    if let Some(level) = long_level(b, i + 2) {
        lemma_find_moved(a, b, close_bracket(level), i + 2);
    }
}

/// What is code in the second of two sources does not depend on the first, where that
/// leaves nothing open.
pub(crate) proof fn lemma_code_moved(a: Seq<char>, b: Seq<char>, i: int)
    requires
        0 <= i <= b.len(),
    ensures
        code_from(a + b, a.len() + i) == code_from(b, i),
    decreases b.len() - i,
{
    if i < b.len() {
        lemma_non_code_moved(a, b, i);
        lemma_non_code_end(b, i);
        match non_code_end(b, i) {
            Some(end) => {
                lemma_code_moved(a, b, end);
            },
            None => {
                lemma_code_moved(a, b, i + 1);
            },
        }
    }
}

/// The first line feed from `i` on is that of the first of two sources.
proof fn lemma_find_joins(a: Seq<char>, b: Seq<char>, i: int)
    requires
        0 <= i < a.len(),
        a.last() == '\n',
    ensures
        find_from(a + b, seq!['\n'], i) == find_from(a, seq!['\n'], i),
        find_from(a, seq!['\n'], i) is Some,
        i <= find_from(a, seq!['\n'], i).unwrap() < a.len(),
    decreases a.len() - i,
{
    assert((a + b).subrange(i, i + 1) =~= a.subrange(i, i + 1));
    if a[i] == '\n' {
        assert(a.subrange(i, i + 1) =~= seq!['\n']);
    } else {
        assert(a.subrange(i, i + 1)[0] == a[i]);
        lemma_find_joins(a, b, i + 1);
    }
}

proof fn lemma_code_joins(a: Seq<char>, b: Seq<char>, i: int)
    requires
        0 <= i <= a.len(),
        a.len() > 0,
        a.last() == '\n',
        forall|j: int|
            0 <= j < a.len() ==> #[trigger] a[j] != '"' && a[j] != '\'' && a[j] != '[',
    ensures
        code_from(a + b, i) == code_from(a, i) + code_from(b, 0),
    decreases a.len() - i,
{
    let s = a + b;
    if i == a.len() {
        lemma_code_moved(a, b, 0);
        assert(code_from(a, i) + code_from(b, 0) =~= code_from(b, 0));
    } else {
        lemma_find_joins(a, b, i);
        assert(s[i] == a[i]);
        if a[i] == '-' && a[i + 1] == '-' {
            assert(s[i + 1] == '-');
            assert(s[i + 2] == a[i + 2]);
            let p = find_from(a, seq!['\n'], i).unwrap();
            assert(p > i) by {
                lemma_find_bound(a, seq!['\n'], i);
                assert(a.subrange(p, p + 1)[0] == '\n');
            }
            lemma_code_joins(a, b, p);
            let comment = Seq::new((p - i) as nat, |k: int| false);
            assert(comment + (code_from(a, p) + code_from(b, 0)) =~= (comment + code_from(a, p))
                + code_from(b, 0));
        } else {
            if a[i] == '-' {
                assert(s[i + 1] == a[i + 1]);
            }
            lemma_code_joins(a, b, i + 1);
            assert(seq![true] + (code_from(a, i + 1) + code_from(b, 0)) =~= (seq![true]
                + code_from(a, i + 1)) + code_from(b, 0));
        }
    }
}

proof fn lemma_expanded_moved(
    a: Seq<char>,
    b: Seq<char>,
    code_a: Seq<bool>,
    code_b: Seq<bool>,
    i: int,
)
    requires
        0 <= i <= b.len(),
        code_a.len() == a.len(),
        code_b.len() == b.len(),
    ensures
        expanded_from(a + b, code_a + code_b, a.len() + i) == expanded_from(b, code_b, i),
    decreases b.len() - i,
{
    let n = a.len() as int;
    lemma_find_moved(a, b, seq!['\n'], i);
    if i < b.len() {
        lemma_line(b, i);
        let end = line_end(b, i);
        assert((a + b).subrange(n + i, n + end) =~= b.subrange(i, end));
        assert((code_a + code_b).subrange(n + i, n + end) =~= code_b.subrange(i, end));
        lemma_expanded_moved(a, b, code_a, code_b, end);
    } else {
        lemma_find_bound(b, seq!['\n'], i);
    }
}

proof fn lemma_expanded_joins(
    a: Seq<char>,
    b: Seq<char>,
    code_a: Seq<bool>,
    code_b: Seq<bool>,
    i: int,
)
    requires
        0 <= i <= a.len(),
        a.len() > 0,
        a.last() == '\n',
        code_a.len() == a.len(),
        code_b.len() == b.len(),
    ensures
        expanded_from(a + b, code_a + code_b, i) == expanded_from(a, code_a, i) + expanded_from(
            b,
            code_b,
            0,
        ),
    decreases a.len() - i,
{
    if i == a.len() {
        lemma_expanded_moved(a, b, code_a, code_b, 0);
        lemma_find_bound(a, seq!['\n'], i);
        assert(expanded_from(a, code_a, i) =~= Seq::empty());
        assert(Seq::<char>::empty() + expanded_from(b, code_b, 0) =~= expanded_from(b, code_b, 0));
    } else {
        lemma_find_joins(a, b, i);
        let end = line_end(a, i);
        let line = a.subrange(i, end);
        let mask = code_a.subrange(i, end);
        assert((a + b).subrange(i, end) =~= line);
        assert((code_a + code_b).subrange(i, end) =~= mask);
        lemma_expanded_joins(a, b, code_a, code_b, end);
        let out = match rewritten(line, mask) {
            Some(text) => text,
            None => line,
        };
        assert(out + (expanded_from(a, code_a, end) + expanded_from(b, code_b, 0)) =~= (out
            + expanded_from(a, code_a, end)) + expanded_from(b, code_b, 0));
    }
}

} // verus!
