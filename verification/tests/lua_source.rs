//! Compound assignment in resource scripts.
use baston::cfx_lua::expand_compound_assignment;

fn expand(src: &str) -> String {
    expand_compound_assignment(src)
}

/// The line that took the server down on the first cfx-server-data boot.
#[test]
fn the_line_from_cfx_server_datas_money_resource() {
    assert_eq!(expand("    curMoney += amount"), "    curMoney = curMoney + (amount)");
}

#[test]
fn every_operator_cfx_adds() {
    assert_eq!(expand("a += 1"), "a = a + (1)");
    assert_eq!(expand("a -= 1"), "a = a - (1)");
    assert_eq!(expand("a *= 2"), "a = a * (2)");
    assert_eq!(expand("a /= 2"), "a = a / (2)");
    assert_eq!(expand("a %= 2"), "a = a % (2)");
    assert_eq!(expand("a ^= 2"), "a = a ^ (2)");
    assert_eq!(expand("s ..= \"x\""), "s = s .. (\"x\")");
}

/// The right-hand side is parenthesised, or precedence would change it:
/// `a = a * 1 + 2` is not `a = a * (1 + 2)`.
#[test]
fn the_right_hand_side_keeps_its_meaning() {
    assert_eq!(expand("a *= 1 + 2"), "a = a * (1 + 2)");
}

#[test]
fn targets_with_fields_and_indices() {
    assert_eq!(expand("t.n += 1"), "t.n = t.n + (1)");
    assert_eq!(expand("t[i] += 1"), "t[i] = t[i] + (1)");
    assert_eq!(expand("a.b[2].c += 1"), "a.b[2].c = a.b[2].c + (1)");
    assert_eq!(expand("t[a[i]] += 1"), "t[a[i]] = t[a[i]] + (1)");
}

/// Duplicating the target means evaluating it twice. A call in there would
/// run twice, so it is left for Lua to reject rather than quietly changed.
#[test]
fn a_target_containing_a_call_is_left_alone() {
    assert_eq!(expand("t[next(x)] += 1"), "t[next(x)] += 1");
    assert_eq!(expand("f().n += 1"), "f().n += 1");
}

#[test]
fn strings_and_comments_are_not_code() {
    assert_eq!(expand("print('a += b')"), "print('a += b')");
    assert_eq!(expand("-- a += b"), "-- a += b");
    assert_eq!(expand("x = [[ a += b ]]"), "x = [[ a += b ]]");
    assert_eq!(expand("--[[ a += b ]]"), "--[[ a += b ]]");
    assert_eq!(expand("x = [==[ a += b ]==]"), "x = [==[ a += b ]==]");
}

#[test]
fn a_quote_escaped_inside_a_string_does_not_end_it() {
    assert_eq!(expand("x = 'it\\'s a += b'"), "x = 'it\\'s a += b'");
}

/// Comparison operators end in `=` too and must survive untouched.
#[test]
fn comparisons_are_not_assignments() {
    for src in ["if a >= b then", "if a <= b then", "if a == b then", "if a ~= b then"] {
        assert_eq!(expand(src), src);
    }
}

#[test]
fn a_statement_after_then_or_a_semicolon() {
    assert_eq!(expand("if x then a += 1 end"), "if x then a = a + (1) end");
    assert_eq!(expand("b = 1; a += 2"), "b = 1; a = a + (2)");
}

/// `then` must be the keyword, not the tail of an identifier.
#[test]
fn a_name_ending_in_a_keyword_is_not_a_boundary() {
    assert_eq!(expand("blacken a += 1"), "blacken a += 1");
}

#[test]
fn line_numbers_are_preserved() {
    let src = "local a = 1\na += 1\nprint(a)\n";
    let out = expand(src);
    assert_eq!(out.lines().count(), 3);
    assert_eq!(out.lines().nth(1).unwrap(), "a = a + (1)");
}

#[test]
fn windows_line_endings_survive() {
    assert_eq!(expand("a += 1\r\nb = 2\r\n"), "a = a + (1)\r\nb = 2\r\n");
}

#[test]
fn plain_lua_is_returned_unchanged() {
    let src = "local function f(x)\n  return x + 1\nend\n";
    assert_eq!(expand(src), src);
}

#[test]
fn a_trailing_semicolon_stays_at_the_end() {
    assert_eq!(expand("a += 1;"), "a = a + (1);");
}

/// A comment behind the statement stays behind it: it must not swallow the parenthesis.
#[test]
fn a_comment_behind_the_statement_stays_behind_it() {
    assert_eq!(expand("a += 1 -- one more"), "a = a + (1) -- one more");
    assert_eq!(expand("a += 1-- one\r\nb = 2"), "a = a + (1) -- one\r\nb = 2");
    assert_eq!(expand("if x then a += 1 end -- done\n"), "if x then a = a + (1) end -- done\n");
    assert_eq!(expand("s ..= '--' -- dashes"), "s = s .. ('--') -- dashes");
    assert_eq!(expand("a += 1 --[[ two\nlines ]]"), "a = a + (1) --[[ two\nlines ]]");
    assert_eq!(expand("a += --[[ x ]] 1"), "a = a + (--[[ x ]] 1)");
    assert_eq!(expand("a += -- nothing"), "a += -- nothing");

    let lua = mlua::Lua::new();
    lua.load(expand("a = 1\na += 2 * 3 -- six more\na -= 1;-- one less\n")).exec().unwrap();
    assert_eq!(lua.globals().get::<i64>("a").unwrap(), 6);
}

/// A string that goes on in the next line cannot be parenthesised on this one.
#[test]
fn a_string_over_several_lines_is_left_alone() {
    assert_eq!(expand("s ..= [[one\ntwo]]\n"), "s ..= [[one\ntwo]]\n");
    assert_eq!(expand("s ..= [[one]]\n"), "s = s .. ([[one]])\n");
}

#[test]
fn sources_can_be_translated_piece_by_piece() {
    let first = "a += 1 -- x\n-- b += 2\nreturn\n";
    for second in ["c -= 1\n", "d += 'x' .. [[y]]", "", "--[[ e += 1\n]] f += 1"] {
        assert_eq!(expand(&format!("{first}{second}")), expand(first) + &expand(second));
    }
}

/// The translated script runs in a real Lua state, and means what was written.
#[test]
fn a_script_written_in_cfx_lua_runs() {
    let lua = mlua::Lua::new();
    let code = expand(
        r#"
            local total = 0
            local wallet = { cash = 10 }
            local log = "start"

            local function add(amount)
                total += amount
                wallet.cash += amount
                log ..= "|" .. tostring(amount)
            end

            add(5)
            add(7)
            result = { total = total, cash = wallet.cash, log = log }
            "#,
    );
    lua.load(&code).exec().expect("CfxLua compound assignment must load");

    let result: mlua::Table = lua.globals().get("result").unwrap();
    assert_eq!(result.get::<i64>("total").unwrap(), 12);
    assert_eq!(result.get::<i64>("cash").unwrap(), 22);
    assert_eq!(result.get::<String>("log").unwrap(), "start|5|7");
}

/// The translation must not reach into strings, or a resource printing the
/// syntax would have its own output rewritten.
#[test]
fn compound_assignment_inside_a_string_is_left_as_text() {
    let lua = mlua::Lua::new();
    lua.load(expand(r#"literal = "a += b""#)).exec().unwrap();
    assert_eq!(lua.globals().get::<String>("literal").unwrap(), "a += b");
}
