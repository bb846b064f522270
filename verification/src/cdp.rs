//! The code the runtime hands to the JavaScript engine for the DevTools
//! protocol (evaluating expressions, calling functions, keeping and
//! releasing remote objects, settling async ops), and the decisions taken on
//! what comes back.
//!
//! The engine itself, and the evaluation of the code built here, are the
//! caller's.

use vstd::prelude::*;
use crate::textmap::{entry_value, TextMap};
use crate::text::{
    chars_of, dec, is_ws, push_chars, push_dec, push_str, replace_all, replace_all_exec, same_text, starts_with, starts_with_exec,
    string_from, string_of, trim, trimmed_string,
};

verus! {

// ---------------------------------------------------------------------------
// Code templates
// ---------------------------------------------------------------------------

/// The views of a list of texts.
pub open spec fn strs_view(v: Seq<&str>) -> Seq<Seq<char>> {
    v.map_values(|s: &str| s@)
}

/// A template filled in: the first piece, then each value followed by the
/// next piece.
pub open spec fn fill(pieces: Seq<Seq<char>>, values: Seq<Seq<char>>) -> Seq<char>
    decreases values.len(),
{
    if values.len() == 0 || pieces.len() == 0 {
        if pieces.len() > 0 {
            pieces[0]
        } else {
            Seq::empty()
        }
    } else {
        fill(pieces.drop_last(), values.drop_last()) + values.last() + pieces.last()
    }
}

/// Fills in the template `pieces` with `values` (one piece more than values).
fn fill_exec(pieces: &Vec<&str>, values: &Vec<&str>) -> (r: String)
    requires
        strs_view(pieces@).len() == strs_view(values@).len() + 1,
    ensures
        r@ == fill(strs_view(pieces@), strs_view(values@)),
{
    assert(pieces@.len() == strs_view(pieces@).len());
    assert(values@.len() == strs_view(values@).len());
    let mut out = string_from(pieces[0]);
    let mut i: usize = 0;
    while i < values.len()
        invariant
            pieces.len() == values.len() + 1,
            i <= values.len(),
            out@ == fill(strs_view(pieces@.subrange(0, i + 1)), strs_view(values@.subrange(0, i as int))),
        decreases values.len() - i,
    {
        proof {
            let p = strs_view(pieces@.subrange(0, i + 2));
            let v = strs_view(values@.subrange(0, i + 1));
            assert(p.drop_last() =~= strs_view(pieces@.subrange(0, i + 1)));
            assert(v.drop_last() =~= strs_view(values@.subrange(0, i as int)));
            assert(p.last() == pieces@[i + 1]@);
            assert(v.last() == values@[i as int]@);
            if i == 0 {
                assert(strs_view(values@.subrange(0, 0)).len() == 0);
            }
        }
        push_str(&mut out, values[i]);
        push_str(&mut out, pieces[i + 1]);
        i = i + 1;
    }
    proof {
        assert(pieces@.subrange(0, pieces@.len() as int) =~= pieces@);
        assert(values@.subrange(0, values@.len() as int) =~= values@);
        if values.len() == 0 {
            assert(strs_view(pieces@.subrange(0, 1))[0] == pieces@[0]@);
        }
    }
    out
}

/// The pieces of the code that resolves a finished async op's promise.
pub open spec fn resolve_lits() -> Seq<Seq<char>> {
    seq!["(function() {\n                                if (globalThis.__obscura_search_resolvers && globalThis.__obscura_search_resolvers["@, "]) {\n                                    var r = globalThis.__obscura_search_resolvers["@, "]; delete globalThis.__obscura_search_resolvers["@, "];\n                                    r.resolve("@, ");\n                                } else if (globalThis.__obscura_fetch_resolvers && globalThis.__obscura_fetch_resolvers["@, "]) {\n                                    var r = globalThis.__obscura_fetch_resolvers["@, "]; delete globalThis.__obscura_fetch_resolvers["@, "];\n                                    r.resolve("@, ");\n                                }\n                            })()"@]
}

fn resolve_lits_exec() -> (r: Vec<&'static str>)
    ensures
        strs_view(r@) == resolve_lits(),
{
    let r = vec!["(function() {\n                                if (globalThis.__obscura_search_resolvers && globalThis.__obscura_search_resolvers[", "]) {\n                                    var r = globalThis.__obscura_search_resolvers[", "]; delete globalThis.__obscura_search_resolvers[", "];\n                                    r.resolve(", ");\n                                } else if (globalThis.__obscura_fetch_resolvers && globalThis.__obscura_fetch_resolvers[", "]) {\n                                    var r = globalThis.__obscura_fetch_resolvers[", "]; delete globalThis.__obscura_fetch_resolvers[", "];\n                                    r.resolve(", ");\n                                }\n                            })()"];
    assert(strs_view(r@) =~= resolve_lits());
    r
}

/// The pieces of the code that rejects a failed async op's promise.
pub open spec fn reject_lits() -> Seq<Seq<char>> {
    seq!["(function() {\n                                if (globalThis.__obscura_search_resolvers && globalThis.__obscura_search_resolvers["@, "]) {\n                                    var r = globalThis.__obscura_search_resolvers["@, "]; delete globalThis.__obscura_search_resolvers["@, "];\n                                    r.reject(new Error('"@, "'));\n                                } else if (globalThis.__obscura_fetch_resolvers && globalThis.__obscura_fetch_resolvers["@, "]) {\n                                    var r = globalThis.__obscura_fetch_resolvers["@, "]; delete globalThis.__obscura_fetch_resolvers["@, "];\n                                    r.reject(new Error('"@, "'));\n                                }\n                            })()"@]
}

fn reject_lits_exec() -> (r: Vec<&'static str>)
    ensures
        strs_view(r@) == reject_lits(),
{
    let r = vec!["(function() {\n                                if (globalThis.__obscura_search_resolvers && globalThis.__obscura_search_resolvers[", "]) {\n                                    var r = globalThis.__obscura_search_resolvers[", "]; delete globalThis.__obscura_search_resolvers[", "];\n                                    r.reject(new Error('", "'));\n                                } else if (globalThis.__obscura_fetch_resolvers && globalThis.__obscura_fetch_resolvers[", "]) {\n                                    var r = globalThis.__obscura_fetch_resolvers[", "]; delete globalThis.__obscura_fetch_resolvers[", "];\n                                    r.reject(new Error('", "'));\n                                }\n                            })()"];
    assert(strs_view(r@) =~= reject_lits());
    r
}

/// The pieces of the code that evaluates an expression and awaits it.
pub open spec fn await_eval_lits() -> Seq<Seq<char>> {
    seq!["(async function() {\ntry {\nvar __result = await (\n"@, "\n);\nglobalThis.__obscura_objects['"@, "'] = __result;\nglobalThis.__obscura_await_meta = "@, ";\nglobalThis.__obscura_await_rejected = false;\n} catch(e) {\nglobalThis.__obscura_objects['"@, "'] = e;\nglobalThis.__obscura_await_meta = "@, ";\nglobalThis.__obscura_await_rejected = true;\n}\nglobalThis.__obscura_done_"@, " = true;\n})()"@]
}

fn await_eval_lits_exec() -> (r: Vec<&'static str>)
    ensures
        strs_view(r@) == await_eval_lits(),
{
    let r = vec!["(async function() {\ntry {\nvar __result = await (\n", "\n);\nglobalThis.__obscura_objects['", "'] = __result;\nglobalThis.__obscura_await_meta = ", ";\nglobalThis.__obscura_await_rejected = false;\n} catch(e) {\nglobalThis.__obscura_objects['", "'] = e;\nglobalThis.__obscura_await_meta = ", ";\nglobalThis.__obscura_await_rejected = true;\n}\nglobalThis.__obscura_done_", " = true;\n})()"];
    assert(strs_view(r@) =~= await_eval_lits());
    r
}

/// The pieces of the code that evaluates an expression without awaiting it.
pub open spec fn sync_eval_lits() -> Seq<Seq<char>> {
    seq!["(function() {\nvar __result;\ntry { __result = (\n"@, "\n); } catch(e) { __result = undefined; }\nglobalThis.__obscura_objects['"@, "'] = __result;\nreturn "@, ";\n})()"@]
}

fn sync_eval_lits_exec() -> (r: Vec<&'static str>)
    ensures
        strs_view(r@) == sync_eval_lits(),
{
    let r = vec!["(function() {\nvar __result;\ntry { __result = (\n", "\n); } catch(e) { __result = undefined; }\nglobalThis.__obscura_objects['", "'] = __result;\nreturn ", ";\n})()"];
    assert(strs_view(r@) =~= sync_eval_lits());
    r
}

/// The pieces of the code that calls a function and awaits its result.
pub open spec fn call_await_lits() -> Seq<Seq<char>> {
    seq!["(async function() {\n"@, "\nvar __fn = ("@, ");\nvar __this = ("@, ");\nvar __result;\ntry {\n__result = await __fn.call(__this, "@, ");\nglobalThis.__obscura_objects['"@, "'] = __result;\nglobalThis.__obscura_await_meta = "@, ";\n} catch(e) {\n__result = e;\nglobalThis.__obscura_objects['"@, "'] = e;\nglobalThis.__obscura_await_meta = "@, ";\n} finally {\nglobalThis.__obscura_done_"@, " = true;\n}\n})()"@]
}

fn call_await_lits_exec() -> (r: Vec<&'static str>)
    ensures
        strs_view(r@) == call_await_lits(),
{
    let r = vec!["(async function() {\n", "\nvar __fn = (", ");\nvar __this = (", ");\nvar __result;\ntry {\n__result = await __fn.call(__this, ", ");\nglobalThis.__obscura_objects['", "'] = __result;\nglobalThis.__obscura_await_meta = ", ";\n} catch(e) {\n__result = e;\nglobalThis.__obscura_objects['", "'] = e;\nglobalThis.__obscura_await_meta = ", ";\n} finally {\nglobalThis.__obscura_done_", " = true;\n}\n})()"];
    assert(strs_view(r@) =~= call_await_lits());
    r
}

/// The pieces of the code that calls a function and returns its result by value.
pub open spec fn call_value_lits() -> Seq<Seq<char>> {
    seq!["(function() {\n"@, "\nvar __fn = ("@, ");\nvar __this = ("@, ");\nreturn __fn.call(__this, "@, ");\n})()"@]
}

fn call_value_lits_exec() -> (r: Vec<&'static str>)
    ensures
        strs_view(r@) == call_value_lits(),
{
    let r = vec!["(function() {\n", "\nvar __fn = (", ");\nvar __this = (", ");\nreturn __fn.call(__this, ", ");\n})()"];
    assert(strs_view(r@) =~= call_value_lits());
    r
}

/// The pieces of the code that calls a function and keeps its result.
pub open spec fn call_meta_lits() -> Seq<Seq<char>> {
    seq!["(function() {\n"@, "\nvar __fn = ("@, ");\nvar __this = ("@, ");\nvar __result = __fn.call(__this, "@, ");\nglobalThis.__obscura_objects['"@, "'] = __result;\nreturn "@, ";\n})()"@]
}

fn call_meta_lits_exec() -> (r: Vec<&'static str>)
    ensures
        strs_view(r@) == call_meta_lits(),
{
    let r = vec!["(function() {\n", "\nvar __fn = (", ");\nvar __this = (", ");\nvar __result = __fn.call(__this, ", ");\nglobalThis.__obscura_objects['", "'] = __result;\nreturn ", ";\n})()"];
    assert(strs_view(r@) =~= call_meta_lits());
    r
}

/// The pieces of the code that keeps an expression's value and describes it.
pub open spec fn store_meta_lits() -> Seq<Seq<char>> {
    seq!["(function() {\nvar __result = (\n"@, "\n);\nglobalThis.__obscura_objects['"@, "'] = __result;\nreturn "@, ";\n})()"@]
}

fn store_meta_lits_exec() -> (r: Vec<&'static str>)
    ensures
        strs_view(r@) == store_meta_lits(),
{
    let r = vec!["(function() {\nvar __result = (\n", "\n);\nglobalThis.__obscura_objects['", "'] = __result;\nreturn ", ";\n})()"];
    assert(strs_view(r@) =~= store_meta_lits());
    r
}

/// The pieces of the code that describes a value as a remote object.
pub open spec fn meta_lits() -> Seq<Seq<char>> {
    seq!["(function(v) {\n                var t = typeof v;\n                var st = null, cn = '', desc = '';\n                if (v === null) { t = 'object'; st = 'null'; }\n                else if (v === undefined) { t = 'undefined'; }\n                else if (Array.isArray(v)) {\n                    st = 'array'; cn = 'Array';\n                    desc = 'Array(' + v.length + ')';\n                }\n                else if (t === 'object' && typeof v._nid === 'number') {\n                    st = 'node';\n                    cn = v.constructor ? v.constructor.name : 'Node';\n                    if (v.nodeType === 9) cn = 'HTMLDocument';\n                    else if (v.nodeType === 1) cn = 'HTML' + (v.tagName || 'Element').charAt(0) + (v.tagName || 'Element').slice(1).toLowerCase() + 'Element';\n                    desc = v.tagName ? v.tagName.toLowerCase() : (v.nodeName || 'node');\n                }\n                else if (t === 'function') {\n                    cn = 'Function';\n                    desc = v.name ? 'function ' + v.name + '()' : 'function()';\n                }\n                else if (t === 'object') {\n                    cn = (v.constructor && v.constructor.name) || 'Object';\n                    desc = cn;\n                }\n                else { desc = String(v); }\n                return JSON.stringify({type:t,subtype:st,className:cn,description:desc});\n            })("@, ")"@]
}

fn meta_lits_exec() -> (r: Vec<&'static str>)
    ensures
        strs_view(r@) == meta_lits(),
{
    let r = vec!["(function(v) {\n                var t = typeof v;\n                var st = null, cn = '', desc = '';\n                if (v === null) { t = 'object'; st = 'null'; }\n                else if (v === undefined) { t = 'undefined'; }\n                else if (Array.isArray(v)) {\n                    st = 'array'; cn = 'Array';\n                    desc = 'Array(' + v.length + ')';\n                }\n                else if (t === 'object' && typeof v._nid === 'number') {\n                    st = 'node';\n                    cn = v.constructor ? v.constructor.name : 'Node';\n                    if (v.nodeType === 9) cn = 'HTMLDocument';\n                    else if (v.nodeType === 1) cn = 'HTML' + (v.tagName || 'Element').charAt(0) + (v.tagName || 'Element').slice(1).toLowerCase() + 'Element';\n                    desc = v.tagName ? v.tagName.toLowerCase() : (v.nodeName || 'node');\n                }\n                else if (t === 'function') {\n                    cn = 'Function';\n                    desc = v.name ? 'function ' + v.name + '()' : 'function()';\n                }\n                else if (t === 'object') {\n                    cn = (v.constructor && v.constructor.name) || 'Object';\n                    desc = cn;\n                }\n                else { desc = String(v); }\n                return JSON.stringify({type:t,subtype:st,className:cn,description:desc});\n            })(", ")"];
    assert(strs_view(r@) =~= meta_lits());
    r
}

// ---------------------------------------------------------------------------
// Object ids and expressions
// ---------------------------------------------------------------------------

/// The decimal text of `n`.
fn dec_string(n: u64) -> (r: String)
    ensures
        r@ == dec(n as nat),
{
    let mut s = String::new();
    push_dec(&mut s, n);
    s
}

/// The remote object id for the `counter`-th kept object.
pub open spec fn oid_text(counter: nat) -> Seq<char> {
    "{\"injectedScriptId\":1,\"id\":"@ + dec(counter) + "}"@
}

/// The remote object id for the `counter`-th kept object.
pub fn make_oid(counter: u64) -> (r: String)
    ensures
        r@ == oid_text(counter as nat),
{
    let mut s = string_from("{\"injectedScriptId\":1,\"id\":");
    push_dec(&mut s, counter);
    push_str(&mut s, "}");
    s
}

/// Distinct counters give distinct object ids.
pub proof fn law_oid_injective(a: nat, b: nat)
    ensures
        a != b ==> oid_text(a) != oid_text(b),
{
    reveal_strlit("{\"injectedScriptId\":1,\"id\":");
    reveal_strlit("}");
    if oid_text(a) == oid_text(b) {
        let p = "{\"injectedScriptId\":1,\"id\":"@;
        let da = dec(a);
        let db = dec(b);
        assert(oid_text(a).subrange(p.len() as int, oid_text(a).len() - 1) =~= da);
        assert(oid_text(b).subrange(p.len() as int, oid_text(b).len() - 1) =~= db);
        crate::text::lemma_dec_injective(a, b);
    }
}

/// The expression that reads a kept object back.
pub open spec fn retrieval_text(oid: Seq<char>) -> Seq<char> {
    "globalThis.__obscura_objects['"@ + oid + "']"@
}

/// The expression that reads the object kept under `oid`.
pub fn retrieval_expr(oid: &str) -> (r: String)
    ensures
        r@ == retrieval_text(oid@),
{
    let mut s = string_from("globalThis.__obscura_objects['");
    push_str(&mut s, oid);
    push_str(&mut s, "']");
    s
}

/// The code that describes the value of the variable `var` as a remote
/// object: a JSON text with its type, subtype, class name and description.
pub open spec fn meta_extract_code(var: Seq<char>) -> Seq<char> {
    fill(meta_lits(), seq![var])
}

/// The description code for the variable `var_name`.
pub fn meta_extract_js(var_name: &str) -> (r: String)
    ensures
        r@ == meta_extract_code(var_name@),
{
    let pieces = meta_lits_exec();
    let values = vec![var_name];
    assert(strs_view(values@) =~= seq![var_name@]);
    fill_exec(&pieces, &values)
}

/// The code that evaluates `code` and gives its value as JSON text (`null`
/// where it is undefined).
pub open spec fn eval_json_text(code: Seq<char>) -> Seq<char> {
    "(function() { var __r = ("@ + code
        + "); return typeof __r === 'undefined' ? 'null' : JSON.stringify(__r); })()"@
}

/// The JSON-returning wrapper around `code`.
pub fn eval_json_code(code: &str) -> (r: String)
    ensures
        r@ == eval_json_text(code@),
{
    let mut s = string_from("(function() { var __r = (");
    push_str(&mut s, code);
    push_str(&mut s, "); return typeof __r === 'undefined' ? 'null' : JSON.stringify(__r); })()");
    s
}

/// Whether a char ends a statement or is white space.
pub open spec fn is_semi_or_ws(c: char) -> bool {
    c == ';' || is_ws(c)
}

/// `s` without its trailing `;` and white space.
pub open spec fn trim_end_semis(s: Seq<char>) -> Seq<char>
    decreases s.len(),
{
    if s.len() > 0 && is_semi_or_ws(s.last()) {
        trim_end_semis(s.drop_last())
    } else {
        s
    }
}

/// The length of `s[..to]` without its trailing `;` and white space.
fn trim_end_semis_len(s: &Vec<char>, to: usize) -> (r: usize)
    requires
        to <= s.len(),
    ensures
        r <= to,
        s@.subrange(0, r as int) == trim_end_semis(s@.subrange(0, to as int)),
{
    let mut e = to;
    while e > 0 && (s[e - 1] == ';' || crate::text::is_ws_exec(s[e - 1]))
        invariant
            e <= to <= s.len(),
            trim_end_semis(s@.subrange(0, to as int)) == trim_end_semis(s@.subrange(0, e as int)),
        decreases e,
    {
        let ghost p = s@.subrange(0, e as int);
        assert(p.drop_last() =~= s@.subrange(0, e - 1));
        assert(p.last() == s@[e - 1]);
        e = e - 1;
    }
    proof {
        let p = s@.subrange(0, e as int);
        if e > 0 {
            assert(p.last() == s@[e - 1]);
        }
    }
    e
}

/// The expression with surrounding white space and trailing `;` removed.
pub open spec fn cleaned_text(e: Seq<char>) -> Seq<char> {
    trim_end_semis(trim(e))
}

/// `expression` trimmed, without trailing `;` and white space.
pub fn cleaned_expression(expression: &str) -> (r: String)
    ensures
        r@ == cleaned_text(expression@),
{
    let cs = chars_of(expression);
    let t = trimmed_string(&cs, 0, cs.len());
    assert(cs@.subrange(0, cs@.len() as int) =~= cs@);
    let tc = chars_of(t.as_str());
    let n = trim_end_semis_len(&tc, tc.len());
    assert(tc@.subrange(0, tc@.len() as int) =~= tc@);
    string_of(&tc, 0, n)
}

/// Code that starts with a statement keyword, which cannot stand as an
/// expression.
pub open spec fn is_statement_code(t: Seq<char>) -> bool {
    starts_with(t, "var "@) || starts_with(t, "let "@) || starts_with(t, "const "@) || starts_with(t, "if "@)
        || starts_with(t, "for "@) || starts_with(t, "while "@) || starts_with(t, "return "@)
}

/// The code that evaluates `e` for its value, `null` where it throws: a
/// statement block runs as it is (its value is what it returns), an
/// expression is returned.
pub open spec fn wrapped_expression(e: Seq<char>) -> Seq<char> {
    if is_statement_code(trim(e)) {
        "(function() { try {\n"@ + e + "\n} catch(e) { return null; } })()"@
    } else {
        "(function() { try { return (\n"@ + trim_end_semis(trim(e)) + "\n); } catch(e) { return null; } })()"@
    }
}

/// Law: code whose trimmed text starts with `var `, `let `, `const `,
/// `if `, `for `, `while ` or `return ` runs as a statement block, as it
/// was given, and is never put inside `return (...)`; any other code is
/// returned as an expression, trimmed and without trailing `;`.
pub proof fn law_statements_run_as_blocks(e: Seq<char>)
    ensures
        (starts_with(trim(e), "var "@) || starts_with(trim(e), "let "@) || starts_with(trim(e), "const "@)
            || starts_with(trim(e), "if "@) || starts_with(trim(e), "for "@) || starts_with(trim(e), "while "@)
            || starts_with(trim(e), "return "@)) ==> wrapped_expression(e) == "(function() { try {\n"@ + e
            + "\n} catch(e) { return null; } })()"@,
        !(starts_with(trim(e), "var "@) || starts_with(trim(e), "let "@) || starts_with(trim(e), "const "@)
            || starts_with(trim(e), "if "@) || starts_with(trim(e), "for "@) || starts_with(trim(e), "while "@)
            || starts_with(trim(e), "return "@)) ==> wrapped_expression(e) == "(function() { try { return (\n"@
            + trim_end_semis(trim(e)) + "\n); } catch(e) { return null; } })()"@,
{
}

/// Whether `t` starts with the text `p`.
fn starts_with_text(t: &Vec<char>, p: &str) -> (r: bool)
    ensures
        r == starts_with(t@, p@),
{
    let pc = chars_of(p);
    starts_with_exec(t, &pc)
}

/// Wraps `expression` for evaluation (see `wrapped_expression`).
pub fn wrap_expression(expression: &str) -> (r: String)
    ensures
        r@ == wrapped_expression(expression@),
{
    let cs = chars_of(expression);
    let t = trimmed_string(&cs, 0, cs.len());
    assert(cs@.subrange(0, cs@.len() as int) =~= cs@);
    let tc = chars_of(t.as_str());
    let statement = starts_with_text(&tc, "var ") || starts_with_text(&tc, "let ") || starts_with_text(&tc, "const ")
        || starts_with_text(&tc, "if ") || starts_with_text(&tc, "for ") || starts_with_text(&tc, "while ")
        || starts_with_text(&tc, "return ");
    if statement {
        let mut s = string_from("(function() { try {\n");
        push_str(&mut s, expression);
        push_str(&mut s, "\n} catch(e) { return null; } })()");
        s
    } else {
        let n = trim_end_semis_len(&tc, tc.len());
        assert(tc@.subrange(0, tc@.len() as int) =~= tc@);
        let cleaned = string_of(&tc, 0, n);
        let mut s = string_from("(function() { try { return (\n");
        push_str(&mut s, cleaned.as_str());
        push_str(&mut s, "\n); } catch(e) { return null; } })()");
        s
    }
}

// ---------------------------------------------------------------------------
// Evaluation and calls
// ---------------------------------------------------------------------------

/// The code that evaluates `expr`, awaits it, keeps the outcome under `oid`
/// (the value, or the error it was rejected with), describes it, and marks
/// the `done`-th evaluation finished.
pub open spec fn await_eval_text(expr: Seq<char>, oid: Seq<char>, done: nat) -> Seq<char> {
    fill(
        await_eval_lits(),
        seq![expr, oid, meta_extract_code("__result"@), oid, meta_extract_code("e"@), dec(done)],
    )
}

/// The awaiting evaluation code (see `await_eval_text`).
pub fn await_eval_code(expr: &str, oid: &str, done: u64) -> (r: String)
    ensures
        r@ == await_eval_text(expr@, oid@, done as nat),
{
    let pieces = await_eval_lits_exec();
    let m = meta_extract_js("__result");
    let em = meta_extract_js("e");
    let d = dec_string(done);
    let values = vec![expr, oid, m.as_str(), oid, em.as_str(), d.as_str()];
    assert(strs_view(values@) =~= seq![expr@, oid@, m@, oid@, em@, d@]);
    fill_exec(&pieces, &values)
}

/// The code that evaluates `expr` (undefined where it throws), keeps the
/// value under `oid` and gives its description.
pub open spec fn sync_eval_text(expr: Seq<char>, oid: Seq<char>) -> Seq<char> {
    fill(sync_eval_lits(), seq![expr, oid, meta_extract_code("__result"@)])
}

/// The evaluation code that does not await (see `sync_eval_text`).
pub fn sync_eval_code(expr: &str, oid: &str) -> (r: String)
    ensures
        r@ == sync_eval_text(expr@, oid@),
{
    let pieces = sync_eval_lits_exec();
    let m = meta_extract_js("__result");
    let values = vec![expr, oid, m.as_str()];
    assert(strs_view(values@) =~= seq![expr@, oid@, m@]);
    fill_exec(&pieces, &values)
}

/// The test that the `done`-th awaited evaluation has finished.
pub open spec fn done_sentinel_text(done: nat) -> Seq<char> {
    "globalThis.__obscura_done_"@ + dec(done) + " === true"@
}

/// The finished test for the `done`-th awaited evaluation.
pub fn done_sentinel(done: u64) -> (r: String)
    ensures
        r@ == done_sentinel_text(done as nat),
{
    let mut s = string_from("globalThis.__obscura_done_");
    push_dec(&mut s, done);
    push_str(&mut s, " === true");
    s
}

/// The code that reads the message of the error kept under `oid` (or the
/// error itself as text).
pub open spec fn rejection_text(oid: Seq<char>) -> Seq<char> {
    "String(globalThis.__obscura_objects['"@ + oid + "'] && (globalThis.__obscura_objects['"@ + oid
        + "'].message || globalThis.__obscura_objects['"@ + oid + "']))"@
}

/// The code that reads a rejection's message.
pub fn rejection_code(oid: &str) -> (r: String)
    ensures
        r@ == rejection_text(oid@),
{
    let mut s = string_from("String(globalThis.__obscura_objects['");
    push_str(&mut s, oid);
    push_str(&mut s, "'] && (globalThis.__obscura_objects['");
    push_str(&mut s, oid);
    push_str(&mut s, "'].message || globalThis.__obscura_objects['");
    push_str(&mut s, oid);
    push_str(&mut s, "']))");
    s
}

/// The error for an awaited promise that was rejected with `message`.
pub fn rejection_error(message: &str) -> (r: String)
    ensures
        r@ == "Promise rejected: "@ + message@,
{
    let mut s = string_from("Promise rejected: ");
    push_str(&mut s, message);
    s
}

/// The code that calls `fn_decl` on `this_expr` with `args` (after the
/// argument `setup`), awaits it, keeps the outcome under `oid`, describes
/// it, and marks the `done`-th call finished.
pub open spec fn call_await_text(
    setup: Seq<char>,
    fn_decl: Seq<char>,
    this_expr: Seq<char>,
    args: Seq<char>,
    oid: Seq<char>,
    done: nat,
) -> Seq<char> {
    let m = meta_extract_code("__result"@);
    fill(call_await_lits(), seq![setup, fn_decl, this_expr, args, oid, m, oid, m, dec(done)])
}

/// The awaiting call code (see `call_await_text`).
pub fn call_await_code(setup: &str, fn_decl: &str, this_expr: &str, args: &str, oid: &str, done: u64) -> (r: String)
    ensures
        r@ == call_await_text(setup@, fn_decl@, this_expr@, args@, oid@, done as nat),
{
    let pieces = call_await_lits_exec();
    let m = meta_extract_js("__result");
    let d = dec_string(done);
    let values = vec![setup, fn_decl, this_expr, args, oid, m.as_str(), oid, m.as_str(), d.as_str()];
    assert(strs_view(values@) =~= seq![setup@, fn_decl@, this_expr@, args@, oid@, m@, oid@, m@, d@]);
    fill_exec(&pieces, &values)
}

/// The code that calls the function and returns its result.
pub open spec fn call_value_text(setup: Seq<char>, fn_decl: Seq<char>, this_expr: Seq<char>, args: Seq<char>) -> Seq<char> {
    fill(call_value_lits(), seq![setup, fn_decl, this_expr, args])
}

/// The call code that returns the result by value.
pub fn call_value_code(setup: &str, fn_decl: &str, this_expr: &str, args: &str) -> (r: String)
    ensures
        r@ == call_value_text(setup@, fn_decl@, this_expr@, args@),
{
    let pieces = call_value_lits_exec();
    let values = vec![setup, fn_decl, this_expr, args];
    assert(strs_view(values@) =~= seq![setup@, fn_decl@, this_expr@, args@]);
    fill_exec(&pieces, &values)
}

/// The code that calls the function, keeps the result under `oid` and
/// gives its description.
pub open spec fn call_meta_text(setup: Seq<char>, fn_decl: Seq<char>, this_expr: Seq<char>, args: Seq<char>, oid: Seq<char>) -> Seq<char> {
    fill(call_meta_lits(), seq![setup, fn_decl, this_expr, args, oid, meta_extract_code("__result"@)])
}

/// The call code that keeps the result.
pub fn call_meta_code(setup: &str, fn_decl: &str, this_expr: &str, args: &str, oid: &str) -> (r: String)
    ensures
        r@ == call_meta_text(setup@, fn_decl@, this_expr@, args@, oid@),
{
    let pieces = call_meta_lits_exec();
    let m = meta_extract_js("__result");
    let values = vec![setup, fn_decl, this_expr, args, oid, m.as_str()];
    assert(strs_view(values@) =~= seq![setup@, fn_decl@, this_expr@, args@, oid@, m@]);
    fill_exec(&pieces, &values)
}

/// The code that keeps the value of `expr` under `oid`.
pub open spec fn store_text(oid: Seq<char>, expr: Seq<char>) -> Seq<char> {
    "globalThis.__obscura_objects['"@ + oid + "'] = ("@ + expr + ");"@
}

/// The code that keeps an expression's value.
pub fn store_code(oid: &str, expr: &str) -> (r: String)
    ensures
        r@ == store_text(oid@, expr@),
{
    let mut s = string_from("globalThis.__obscura_objects['");
    push_str(&mut s, oid);
    push_str(&mut s, "'] = (");
    push_str(&mut s, expr);
    push_str(&mut s, ");");
    s
}

/// Law: an object is kept where it is read back. The code that keeps
/// `expr` under `oid` assigns to exactly the expression that retrieves
/// `oid`, and the rejection code reads the message of that same object.
pub proof fn law_store_reads_back(oid: Seq<char>, expr: Seq<char>)
    ensures
        store_text(oid, expr) == retrieval_text(oid) + " = ("@ + expr + ");"@,
        rejection_text(oid) == "String("@ + retrieval_text(oid) + " && ("@ + retrieval_text(oid) + ".message || "@
            + retrieval_text(oid) + "))"@,
{
    reveal_strlit("globalThis.__obscura_objects['");
    reveal_strlit("']");
    reveal_strlit("'] = (");
    reveal_strlit(" = (");
    reveal_strlit("String(globalThis.__obscura_objects['");
    reveal_strlit("String(");
    reveal_strlit("'] && (globalThis.__obscura_objects['");
    reveal_strlit(" && (");
    reveal_strlit("'].message || globalThis.__obscura_objects['");
    reveal_strlit(".message || ");
    reveal_strlit("']))");
    reveal_strlit("))");
    reveal_strlit(");");
    let g = "globalThis.__obscura_objects['"@;
    assert(store_text(oid, expr) =~= retrieval_text(oid) + " = ("@ + expr + ");"@);
    assert(rejection_text(oid) =~= "String("@ + retrieval_text(oid) + " && ("@ + retrieval_text(oid) + ".message || "@
        + retrieval_text(oid) + "))"@);
}

/// The code that keeps the value of `expr` under `oid` and describes it.
pub open spec fn store_meta_text(expr: Seq<char>, oid: Seq<char>) -> Seq<char> {
    fill(store_meta_lits(), seq![expr, oid, meta_extract_code("__result"@)])
}

/// The code that keeps and describes an expression's value.
pub fn store_meta_code(expr: &str, oid: &str) -> (r: String)
    ensures
        r@ == store_meta_text(expr@, oid@),
{
    let pieces = store_meta_lits_exec();
    let m = meta_extract_js("__result");
    let values = vec![expr, oid, m.as_str()];
    assert(strs_view(values@) =~= seq![expr@, oid@, m@]);
    fill_exec(&pieces, &values)
}

/// The code that drops a kept object.
pub fn release_code(retrieval: &str) -> (r: String)
    ensures
        r@ == "delete "@ + retrieval@,
{
    let mut s = string_from("delete ");
    push_str(&mut s, retrieval);
    s
}

/// The code that drops every kept object.
pub fn release_group_code() -> (r: String)
    ensures
        r@ == "globalThis.__obscura_objects = {};"@,
{
    string_from("globalThis.__obscura_objects = {};")
}

// ---------------------------------------------------------------------------
// Settling async ops and page settings
// ---------------------------------------------------------------------------

/// `s` with `\` doubled and `'` escaped, for a single-quoted JS string.
pub open spec fn single_quote_escaped(s: Seq<char>) -> Seq<char> {
    replace_all(replace_all(s, "\\"@, "\\\\"@), "'"@, "\\'"@)
}

/// Escapes `s` for a single-quoted JS string.
pub fn escape_single_quoted(s: &str) -> (r: String)
    ensures
        r@ == single_quote_escaped(s@),
{
    let cs = chars_of(s);
    let bs = chars_of("\\");
    let bs2 = chars_of("\\\\");
    let q = chars_of("'");
    let eq = chars_of("\\'");
    proof {
        reveal_strlit("\\");
        reveal_strlit("'");
    }
    let t = replace_all_exec(&cs, &bs, &bs2);
    let u = replace_all_exec(&t, &q, &eq);
    let mut out = String::new();
    push_chars(&mut out, &u);
    out
}

/// `s` with `'` escaped (backslashes left as they are).
pub open spec fn quote_escaped(s: Seq<char>) -> Seq<char> {
    replace_all(s, "'"@, "\\'"@)
}

/// Escapes the quotes of `s`.
fn escape_quotes(s: &str) -> (r: String)
    ensures
        r@ == quote_escaped(s@),
{
    let cs = chars_of(s);
    let q = chars_of("'");
    let eq = chars_of("\\'");
    proof {
        reveal_strlit("'");
    }
    let u = replace_all_exec(&cs, &q, &eq);
    let mut out = String::new();
    push_chars(&mut out, &u);
    out
}

/// The code that resolves the promise of async op `id` with the JSON `val`.
pub open spec fn resolve_text(id: nat, val: Seq<char>) -> Seq<char> {
    let d = dec(id);
    fill(resolve_lits(), seq![d, d, d, val, d, d, d, val])
}

/// The code that resolves a finished op's promise.
pub fn resolve_code(id: u64, val: &str) -> (r: String)
    ensures
        r@ == resolve_text(id as nat, val@),
{
    let pieces = resolve_lits_exec();
    let d = dec_string(id);
    let ds = d.as_str();
    let values = vec![ds, ds, ds, val, ds, ds, ds, val];
    assert(strs_view(values@) =~= seq![d@, d@, d@, val@, d@, d@, d@, val@]);
    fill_exec(&pieces, &values)
}

/// The code that rejects the promise of async op `id` with an error whose
/// message is `err`.
pub open spec fn reject_text(id: nat, err: Seq<char>) -> Seq<char> {
    let d = dec(id);
    let e = single_quote_escaped(err);
    fill(reject_lits(), seq![d, d, d, e, d, d, d, e])
}

/// The code that rejects a failed op's promise.
pub fn reject_code(id: u64, err: &str) -> (r: String)
    ensures
        r@ == reject_text(id as nat, err@),
{
    let pieces = reject_lits_exec();
    let d = dec_string(id);
    let e = escape_single_quoted(err);
    let ds = d.as_str();
    let es = e.as_str();
    let values = vec![ds, ds, ds, es, ds, ds, ds, es];
    assert(strs_view(values@) =~= seq![d@, d@, d@, e@, d@, d@, d@, e@]);
    fill_exec(&pieces, &values)
}

/// The code that settles async op `id` with its outcome.
pub fn settle_code(id: u64, result: &Result<String, String>) -> (r: String)
    ensures
        r@ == match result {
            Ok(v) => resolve_text(id as nat, v@),
            Err(e) => reject_text(id as nat, e@),
        },
{
    match result {
        Ok(v) => resolve_code(id, v.as_str()),
        Err(e) => reject_code(id, e.as_str()),
    }
}

/// The code that sets the page's user agent.
pub fn user_agent_script(ua: &str) -> (r: String)
    ensures
        r@ == "globalThis.__obscura_ua = '"@ + single_quote_escaped(ua@) + "';"@,
{
    let mut s = string_from("globalThis.__obscura_ua = '");
    let e = escape_single_quoted(ua);
    push_str(&mut s, e.as_str());
    push_str(&mut s, "';");
    s
}

/// The code that sets the page's platform and its client-hint platform and
/// version (quotes escaped, backslashes kept).
pub fn platform_script(platform: &str, ua_platform: &str, ua_platform_version: &str) -> (r: String)
    ensures
        r@ == "globalThis.__obscura_platform='"@ + quote_escaped(platform@) + "';globalThis.__obscura_ua_platform='"@
            + quote_escaped(ua_platform@) + "';globalThis.__obscura_ua_platform_version='"@ + quote_escaped(
            ua_platform_version@,
        ) + "';"@,
{
    let mut s = string_from("globalThis.__obscura_platform='");
    let p = escape_quotes(platform);
    push_str(&mut s, p.as_str());
    push_str(&mut s, "';globalThis.__obscura_ua_platform='");
    let u = escape_quotes(ua_platform);
    push_str(&mut s, u.as_str());
    push_str(&mut s, "';globalThis.__obscura_ua_platform_version='");
    let v = escape_quotes(ua_platform_version);
    push_str(&mut s, v.as_str());
    push_str(&mut s, "';");
    s
}

/// The code that turns stealth mode on or off.
pub fn stealth_script(enabled: bool) -> (r: String)
    ensures
        r@ == if enabled {
            "globalThis.__obscura_stealth = true;"@
        } else {
            "globalThis.__obscura_stealth = false;"@
        },
{
    if enabled {
        string_from("globalThis.__obscura_stealth = true;")
    } else {
        string_from("globalThis.__obscura_stealth = false;")
    }
}

// ---------------------------------------------------------------------------
// Kept objects
// ---------------------------------------------------------------------------

/// The objects kept for the protocol client: each object id with the
/// expression that reads the object back, and the count of ids given out.
pub struct ObjectStore {
    entries: TextMap,
    counter: u64,
}

impl ObjectStore {
    /// The expression kept for `oid`, if any.
    pub closed spec fn lookup(&self, oid: Seq<char>) -> Option<Seq<char>> {
        entry_value(self.entries@, oid)
    }

    /// How many object ids were given out.
    pub closed spec fn issued(&self) -> nat {
        self.counter as nat
    }

    /// The store is well-formed.
    pub closed spec fn wf(&self) -> bool {
        self.entries.wf()
    }

    /// An empty store.
    pub fn new() -> (st: ObjectStore)
        ensures
            st.wf(),
            st.issued() == 0,
            forall|oid: Seq<char>| #[trigger] st.lookup(oid) is None,
    {
        ObjectStore { entries: TextMap::new(), counter: 0 }
    }

    /// How many object ids were given out.
    pub fn counter(&self) -> (r: u64)
        ensures
            r == self.issued(),
    {
        self.counter
    }

    /// Gives out the next object id.
    pub fn next_oid(&mut self) -> (oid: String)
        requires
            old(self).issued() < u64::MAX,
        ensures
            final(self).wf() == old(self).wf(),
            final(self).issued() == old(self).issued() + 1,
            oid@ == oid_text(final(self).issued()),
            forall|k: Seq<char>| #[trigger] final(self).lookup(k) == old(self).lookup(k),
    {
        self.counter = self.counter + 1;
        make_oid(self.counter)
    }

    /// Keeps `retrieval` as the way to read the object `oid`.
    pub fn insert(&mut self, oid: &str, retrieval: &str)
        requires
            old(self).wf(),
        ensures
            final(self).wf(),
            final(self).issued() == old(self).issued(),
            final(self).lookup(oid@) == Some(retrieval@),
            forall|k: Seq<char>| k != oid@ ==> #[trigger] final(self).lookup(k) == old(self).lookup(k),
    {
        proof {
            crate::textmap::lemma_put_entry(self.entries@, oid@, retrieval@);
        }
        self.entries.put(oid, retrieval);
    }

    /// The expression kept for `oid`.
    pub fn get(&self, oid: &str) -> (r: Option<String>)
        requires
            self.wf(),
        ensures
            match r {
                Some(e) => self.lookup(oid@) == Some(e@),
                None => self.lookup(oid@) is None,
            },
    {
        self.entries.get(oid)
    }

    /// Forgets `oid`.
    pub fn remove(&mut self, oid: &str)
        requires
            old(self).wf(),
        ensures
            final(self).wf(),
            final(self).issued() == old(self).issued(),
            final(self).lookup(oid@) is None,
            forall|k: Seq<char>| k != oid@ ==> #[trigger] final(self).lookup(k) == old(self).lookup(k),
    {
        self.entries.remove(oid);
    }

    /// Forgets every object.
    pub fn clear(&mut self)
        ensures
            final(self).wf(),
            final(self).issued() == old(self).issued(),
            forall|k: Seq<char>| #[trigger] final(self).lookup(k) is None,
    {
        self.entries.clear();
    }

    /// Keeps the object just stored under `oid` (read back by
    /// `retrieval_expr(oid)`).
    pub fn keep(&mut self, oid: &str)
        requires
            old(self).wf(),
        ensures
            final(self).wf(),
            final(self).issued() == old(self).issued(),
            final(self).lookup(oid@) == Some(retrieval_text(oid@)),
            forall|k: Seq<char>| k != oid@ ==> #[trigger] final(self).lookup(k) == old(self).lookup(k),
    {
        let r = retrieval_expr(oid);
        self.insert(oid, r.as_str());
    }

    /// Releasing `oid`: the code that drops the object where it is kept, and
    /// the store forgets it.
    pub fn release(&mut self, oid: &str) -> (code: Option<String>)
        requires
            old(self).wf(),
        ensures
            final(self).wf(),
            final(self).issued() == old(self).issued(),
            final(self).lookup(oid@) is None,
            forall|k: Seq<char>| k != oid@ ==> #[trigger] final(self).lookup(k) == old(self).lookup(k),
            match code {
                Some(c) => exists|e: Seq<char>| old(self).lookup(oid@) == Some(e) && c@ == "delete "@ + e,
                None => old(self).lookup(oid@) is None,
            },
    {
        let code = match self.get(oid) {
            Some(e) => Some(release_code(e.as_str())),
            None => None,
        };
        self.remove(oid);
        code
    }

    /// The expression for `this` in a call on `object_id`: the kept object's
    /// expression; for an id `node-N` the node `N` from the page's node
    /// cache; otherwise (or without an id) the global object.
    pub fn resolve_this(&self, object_id: Option<&str>) -> (r: String)
        requires
            self.wf(),
        ensures
            r@ == this_text(self.lookup_opt(object_id), object_id_view(object_id)),
    {
        match object_id {
            Some(oid) => match self.get(oid) {
                Some(e) => e,
                None => {
                    let cs = chars_of(oid);
                    let p = chars_of("node-");
                    proof {
                        reveal_strlit("node-");
                    }
                    if starts_with_exec(&cs, &p) {
                        let nid = string_of(&cs, 5, cs.len());
                        let mut s = string_from("(function() { var nid = ");
                        push_str(&mut s, nid.as_str());
                        push_str(
                            &mut s,
                            "; var cache = globalThis._cache || new Map(); if (cache.has(nid)) return cache.get(nid); return null; })()",
                        );
                        s
                    } else {
                        string_from("globalThis")
                    }
                },
            },
            None => string_from("globalThis"),
        }
    }

    /// The kept expression for an optional id.
    pub open spec fn lookup_opt(&self, object_id: Option<&str>) -> Option<Seq<char>> {
        match object_id {
            Some(oid) => self.lookup(oid@),
            None => None,
        }
    }
}

/// The views of an optional id.
pub open spec fn object_id_view(o: Option<&str>) -> Option<Seq<char>> {
    match o {
        Some(s) => Some(s@),
        None => None,
    }
}

/// The expression for `this` (see `ObjectStore::resolve_this`), given what
/// the store keeps for the id.
pub open spec fn this_text(kept: Option<Seq<char>>, object_id: Option<Seq<char>>) -> Seq<char> {
    match kept {
        Some(e) => e,
        None => match object_id {
            Some(oid) => if starts_with(oid, "node-"@) {
                "(function() { var nid = "@ + oid.subrange(5, oid.len() as int)
                    + "; var cache = globalThis._cache || new Map(); if (cache.has(nid)) return cache.get(nid); return null; })()"@
            } else {
                "globalThis"@
            },
            None => "globalThis"@,
        },
    }
}

/// Law: what `this` is for a call. A kept object is used as it was kept;
/// an id `node-N` that is not kept names the cached DOM node `N`; any other
/// id, or no id, means the global object.
pub proof fn law_this_text(kept: Option<Seq<char>>, object_id: Option<Seq<char>>)
    ensures
        kept is Some ==> this_text(kept, object_id) == kept.unwrap(),
        kept is None && object_id is None ==> this_text(kept, object_id) == "globalThis"@,
        kept is None && object_id is Some && !starts_with(object_id.unwrap(), "node-"@)
            ==> this_text(kept, object_id) == "globalThis"@,
        kept is None && object_id is Some && starts_with(object_id.unwrap(), "node-"@)
            ==> this_text(kept, object_id) == "(function() { var nid = "@ + object_id.unwrap().subrange(
            5,
            object_id.unwrap().len() as int,
        ) + "; var cache = globalThis._cache || new Map(); if (cache.has(nid)) return cache.get(nid); return null; })()"@,
{
}

// ---------------------------------------------------------------------------
// Call arguments
// ---------------------------------------------------------------------------

/// A call argument as the protocol gives it.
pub enum CdpArgument {
    /// `value`: the argument's value, as JSON text.
    Value(String),
    /// `objectId`: a kept object.
    ObjectId(String),
    /// `unserializableValue`: a JS literal such as `NaN` or `-0`.
    Unserializable(String),
    /// None of these.
    Missing,
}

/// The variable name of the `i`-th argument.
pub open spec fn arg_name(i: nat) -> Seq<char> {
    "__arg"@ + dec(i)
}

/// The setup line for the `i`-th argument, given what the store keeps.
pub open spec fn arg_setup_line(st: ObjectStore, i: nat, a: CdpArgument) -> Seq<char> {
    let rhs = match a {
        CdpArgument::Value(j) => j@,
        CdpArgument::ObjectId(oid) => match st.lookup(oid@) {
            Some(e) => e,
            None => "undefined"@,
        },
        CdpArgument::Unserializable(u) => u@,
        CdpArgument::Missing => "undefined"@,
    };
    "var "@ + arg_name(i) + " = "@ + rhs + ";"@
}

/// The setup lines joined with newlines, and the argument names joined
/// with `, `.
pub open spec fn args_text(st: ObjectStore, args: Seq<CdpArgument>) -> (Seq<char>, Seq<char>)
    decreases args.len(),
{
    if args.len() == 0 {
        (Seq::empty(), Seq::empty())
    } else {
        let (s, n) = args_text(st, args.drop_last());
        let i = (args.len() - 1) as nat;
        let line = arg_setup_line(st, i, args.last());
        if args.len() == 1 {
            (line, arg_name(i))
        } else {
            (s + "\n"@ + line, n + ", "@ + arg_name(i))
        }
    }
}

/// The setup code and the argument list for a call with `arguments`.
pub fn build_args(store: &ObjectStore, arguments: &Vec<CdpArgument>) -> (r: (String, String))
    requires
        store.wf(),
        arguments.len() < u64::MAX,
    ensures
        (r.0@, r.1@) == args_text(*store, arguments@),
{
    let mut setup = String::new();
    let mut names = String::new();
    let mut i: usize = 0;
    while i < arguments.len()
        invariant
            store.wf(),
            i <= arguments.len() < u64::MAX,
            (setup@, names@) == args_text(*store, arguments@.subrange(0, i as int)),
        decreases arguments.len() - i,
    {
        proof {
            let p = arguments@.subrange(0, i + 1);
            assert(p.drop_last() =~= arguments@.subrange(0, i as int));
            assert(p.last() == arguments@[i as int]);
        }
        let mut name = string_from("__arg");
        push_dec(&mut name, i as u64);
        let mut line = string_from("var ");
        push_str(&mut line, name.as_str());
        push_str(&mut line, " = ");
        match &arguments[i] {
            CdpArgument::Value(j) => push_str(&mut line, j.as_str()),
            CdpArgument::ObjectId(oid) => match store.get(oid.as_str()) {
                Some(e) => push_str(&mut line, e.as_str()),
                None => push_str(&mut line, "undefined"),
            },
            CdpArgument::Unserializable(u) => push_str(&mut line, u.as_str()),
            CdpArgument::Missing => push_str(&mut line, "undefined"),
        }
        push_str(&mut line, ";");
        if i > 0 {
            push_str(&mut setup, "\n");
            push_str(&mut names, ", ");
        }
        push_str(&mut setup, line.as_str());
        push_str(&mut names, name.as_str());
        i = i + 1;
    }
    assert(arguments@.subrange(0, arguments@.len() as int) =~= arguments@);
    (setup, names)
}

// ---------------------------------------------------------------------------
// Remote objects
// ---------------------------------------------------------------------------

/// A value that came back from the engine as JSON.
pub enum JsonValue {
    Null,
    Bool(bool),
    /// A number, as `serde_json` writes it.
    Number(String),
    Str(String),
    /// An array or object, as `serde_json` writes it.
    Other(String),
}

/// The JSON text of a value, as `serde_json` writes it.
pub open spec fn json_text(v: JsonValue) -> Seq<char> {
    match v {
        JsonValue::Null => "null"@,
        JsonValue::Bool(b) => if b {
            "true"@
        } else {
            "false"@
        },
        JsonValue::Number(n) => n@,
        JsonValue::Str(s) => crate::text::json_quote(s@),
        JsonValue::Other(t) => t@,
    }
}

/// What the protocol client learns of a value: its type, subtype, class
/// name, description, the id it is kept under, and its value as JSON text
/// where it is sent by value.
pub struct RemoteObjectInfo {
    pub js_type: String,
    pub subtype: Option<String>,
    pub class_name: String,
    pub description: String,
    pub object_id: Option<String>,
    pub value: Option<String>,
}

/// The views of an optional text.
pub open spec fn opt_text(o: Option<String>) -> Option<Seq<char>> {
    match o {
        Some(s) => Some(s@),
        None => None,
    }
}

impl View for RemoteObjectInfo {
    type V = (Seq<char>, Option<Seq<char>>, Seq<char>, Seq<char>, Option<Seq<char>>, Option<Seq<char>>);

    open spec fn view(&self) -> Self::V {
        (
            self.js_type@,
            opt_text(self.subtype),
            self.class_name@,
            self.description@,
            opt_text(self.object_id),
            opt_text(self.value),
        )
    }
}

/// The remote object for a value returned by value: `null` is an object
/// of subtype `null`; booleans, numbers and strings keep their type with the
/// value's text as description; arrays and objects are objects of class
/// `Object` described by their JSON.
pub open spec fn info_from_json_view(v: JsonValue) -> (Seq<char>, Option<Seq<char>>, Seq<char>, Seq<char>, Option<Seq<char>>, Option<Seq<char>>) {
    match v {
        JsonValue::Null => ("object"@, Some("null"@), Seq::empty(), "null"@, None, Some("null"@)),
        JsonValue::Bool(b) => ("boolean"@, None, Seq::empty(), json_text(v), None, Some(json_text(v))),
        JsonValue::Number(n) => ("number"@, None, Seq::empty(), n@, None, Some(n@)),
        JsonValue::Str(s) => ("string"@, None, Seq::empty(), s@, None, Some(json_text(v))),
        JsonValue::Other(t) => ("object"@, None, "Object"@, t@, None, Some(t@)),
    }
}

/// Law: how a value returned by value is described. `null` is an object
/// of subtype `null`; a boolean, number or string has type `boolean`,
/// `number` or `string`, no class, and is described by its own text; an
/// array or object is an object of class `Object` described by its JSON.
/// No value returned by value is kept under an id, and each carries its
/// JSON text as its value.
pub proof fn law_json_value_types(v: JsonValue)
    ensures
        info_from_json_view(v).4 is None,
        info_from_json_view(v).5 == Some(json_text(v)),
        v is Null ==> info_from_json_view(v).0 == "object"@ && info_from_json_view(v).1 == Some("null"@),
        v is Bool ==> info_from_json_view(v).0 == "boolean"@ && info_from_json_view(v).1 is None
            && info_from_json_view(v).3 == (if v->Bool_0 { "true"@ } else { "false"@ }),
        v is Number ==> info_from_json_view(v).0 == "number"@ && info_from_json_view(v).3 == v->Number_0@,
        v is Str ==> info_from_json_view(v).0 == "string"@ && info_from_json_view(v).3 == v->Str_0@,
        v is Other ==> info_from_json_view(v).0 == "object"@ && info_from_json_view(v).2 == "Object"@
            && info_from_json_view(v).3 == v->Other_0@,
        !(v is Other) ==> info_from_json_view(v).2.len() == 0,
{
}

/// The remote object for a value returned by value.
pub fn info_from_json(value: &JsonValue) -> (r: RemoteObjectInfo)
    ensures
        r@ == info_from_json_view(*value),
{
    match value {
        JsonValue::Null => RemoteObjectInfo {
            js_type: string_from("object"),
            subtype: Some(string_from("null")),
            class_name: String::new(),
            description: string_from("null"),
            object_id: None,
            value: Some(string_from("null")),
        },
        JsonValue::Bool(b) => {
            let t = if *b {
                string_from("true")
            } else {
                string_from("false")
            };
            RemoteObjectInfo {
                js_type: string_from("boolean"),
                subtype: None,
                class_name: String::new(),
                description: t.clone(),
                object_id: None,
                value: Some(t),
            }
        },
        JsonValue::Number(n) => RemoteObjectInfo {
            js_type: string_from("number"),
            subtype: None,
            class_name: String::new(),
            description: n.clone(),
            object_id: None,
            value: Some(n.clone()),
        },
        JsonValue::Str(s) => RemoteObjectInfo {
            js_type: string_from("string"),
            subtype: None,
            class_name: String::new(),
            description: s.clone(),
            object_id: None,
            value: Some(crate::text::json_string(s.as_str())),
        },
        JsonValue::Other(t) => RemoteObjectInfo {
            js_type: string_from("object"),
            subtype: None,
            class_name: string_from("Object"),
            description: t.clone(),
            object_id: None,
            value: Some(t.clone()),
        },
    }
}

/// The fields of a value's description as the engine gave them (each
/// present where the description held it as a string).
pub struct MetaFields {
    pub js_type: Option<String>,
    pub subtype: Option<String>,
    pub class_name: Option<String>,
    pub description: Option<String>,
}

/// The text of an optional field, `default` where it is missing.
pub open spec fn text_or(o: Option<String>, default: Seq<char>) -> Seq<char> {
    match o {
        Some(s) => s@,
        None => default,
    }
}

/// The remote object for a described value kept under `object_id`: a
/// missing type reads `undefined`, a missing class name or description
/// empty; an undefined value, or an object of subtype `null`, has the value
/// `null`.
pub open spec fn info_from_meta_view(meta: MetaFields, object_id: Option<Seq<char>>) -> (Seq<char>, Option<Seq<char>>, Seq<char>, Seq<char>, Option<Seq<char>>, Option<Seq<char>>) {
    let t = text_or(meta.js_type, "undefined"@);
    let st = opt_text(meta.subtype);
    (
        t,
        st,
        text_or(meta.class_name, Seq::empty()),
        text_or(meta.description, Seq::empty()),
        object_id,
        if t == "undefined"@ || (t == "object"@ && st == Some("null"@)) {
            Some("null"@)
        } else {
            None
        },
    )
}

/// The remote object for a described value.
pub fn info_from_meta(meta: MetaFields, object_id: Option<String>) -> (r: RemoteObjectInfo)
    ensures
        r@ == info_from_meta_view(meta, opt_text(object_id)),
{
    let ghost m = meta;
    let js_type = match meta.js_type {
        Some(t) => t,
        None => string_from("undefined"),
    };
    let class_name = match meta.class_name {
        Some(c) => c,
        None => String::new(),
    };
    let description = match meta.description {
        Some(d) => d,
        None => String::new(),
    };
    let is_null_object = match &meta.subtype {
        Some(st) => same_text(js_type.as_str(), "object") && same_text(st.as_str(), "null"),
        None => false,
    };
    proof {
        reveal_strlit("null");
    }
    let value = if same_text(js_type.as_str(), "undefined") || is_null_object {
        Some(string_from("null"))
    } else {
        None
    };
    RemoteObjectInfo { js_type, subtype: meta.subtype, class_name, description, object_id, value }
}

// ---------------------------------------------------------------------------
// Outcomes
// ---------------------------------------------------------------------------

/// Whether an engine error says the script was interrupted.
pub open spec fn was_interrupted(e: Seq<char>) -> bool {
    crate::text::contains(e, "interrupted"@)
}

/// Whether `e` mentions an interrupt.
fn mentions_interrupt(e: &str) -> (r: bool)
    ensures
        r == was_interrupted(e@),
{
    let ec = chars_of(e);
    let i = chars_of("interrupted");
    crate::text::contains_exec(&ec, &i)
}

/// The outcome of an evaluation under a watchdog: a value is kept unless
/// the watchdog fired; an error, or a value after the watchdog fired, is a
/// timeout when the watchdog fired or the engine reports an interrupt.
pub fn eval_outcome(result: Result<JsonValue, String>, fired: bool) -> (r: Result<JsonValue, String>)
    ensures
        match result {
            Ok(v) => if fired {
                r matches Err(e) && e@ == "eval timed out"@
            } else {
                r == Ok::<JsonValue, String>(v)
            },
            Err(e) => if fired || was_interrupted(e@) {
                r matches Err(t) && t@ == "eval timed out"@
            } else {
                r == Err::<JsonValue, String>(e)
            },
        },
{
    match result {
        Ok(v) => if fired {
            Err(string_from("eval timed out"))
        } else {
            Ok(v)
        },
        Err(e) => if fired || mentions_interrupt(e.as_str()) {
            Err(string_from("eval timed out"))
        } else {
            Err(e)
        },
    }
}

/// The outcome of a script run under a watchdog: a run that the watchdog
/// cut short counts as done; any other engine error is reported.
pub fn script_outcome(result: Result<(), String>, fired: bool) -> (r: Result<(), String>)
    ensures
        match result {
            Ok(()) => r is Ok,
            Err(e) => if fired || was_interrupted(e@) {
                r is Ok
            } else {
                r matches Err(m) && m@ == "JS error: "@ + e@
            },
        },
{
    match result {
        Ok(()) => Ok(()),
        Err(e) => if fired || mentions_interrupt(e.as_str()) {
            Ok(())
        } else {
            let mut m = string_from("JS error: ");
            push_str(&mut m, e.as_str());
            Err(m)
        },
    }
}

/// Whether a script is long enough (10 000 bytes or more) to run under the
/// watchdog.
pub fn needs_guard(source: &str) -> (r: bool)
    ensures
        r == (source.len() >= 10000),
{
    source.len() >= 10000
}

/// The bootstrap's outcome: its report starts with `ERR:` when it threw,
/// followed by the error.
pub fn bootstrap_outcome(report: &str) -> (r: Result<(), String>)
    ensures
        match r {
            Ok(()) => !starts_with(report@, "ERR:"@),
            Err(e) => starts_with(report@, "ERR:"@) && e@ == report@.subrange(4, report@.len() as int),
        },
{
    let cs = chars_of(report);
    let p = chars_of("ERR:");
    proof {
        reveal_strlit("ERR:");
    }
    if starts_with_exec(&cs, &p) {
        Err(string_of(&cs, 4, cs.len()))
    } else {
        Ok(())
    }
}

/// What a one-shot watchdog does next.
#[derive(Debug, PartialEq, Eq, Structural)]
pub enum TokenWatch {
    /// It was cancelled: stop without firing.
    Stop,
    /// The deadline has come: interrupt the script.
    Fire,
    /// Wait this many nanoseconds (or until cancelled).
    Wait(u64),
}

/// One step of a one-shot watchdog at time `now` with its `deadline`.
pub fn token_watch_step(cancelled: bool, now: u64, deadline: u64) -> (r: TokenWatch)
    ensures
        r == if cancelled {
            TokenWatch::Stop
        } else if deadline <= now {
            TokenWatch::Fire
        } else {
            TokenWatch::Wait((deadline - now) as u64)
        },
{
    if cancelled {
        TokenWatch::Stop
    } else if deadline <= now {
        TokenWatch::Fire
    } else {
        TokenWatch::Wait(deadline - now)
    }
}

/// A fetch request taken from the page's queue.
pub struct FetchRequest {
    pub id: u64,
    pub url: String,
    pub method: String,
    pub headers: String,
    pub body: String,
    pub origin: String,
    pub mode: String,
}

/// A queued fetch with each field as the page gave it (missing where it
/// was absent or not of the right type).
pub struct QueuedFetch {
    pub id: Option<u64>,
    pub url: Option<String>,
    pub method: Option<String>,
    pub headers: Option<String>,
    pub body: Option<String>,
    pub origin: Option<String>,
    pub mode: Option<String>,
}

/// The request for a queued fetch: id 0, method `GET`, headers `{}` and
/// empty url, body, origin and mode where missing.
pub fn fetch_request_from(q: QueuedFetch) -> (r: FetchRequest)
    ensures
        r.id == match q.id {
            Some(i) => i,
            None => 0,
        },
        r.url@ == text_or(q.url, Seq::empty()),
        r.method@ == text_or(q.method, "GET"@),
        r.headers@ == text_or(q.headers, "{}"@),
        r.body@ == text_or(q.body, Seq::empty()),
        r.origin@ == text_or(q.origin, Seq::empty()),
        r.mode@ == text_or(q.mode, Seq::empty()),
{
    let ghost g = q;
    FetchRequest {
        id: match q.id {
            Some(i) => i,
            None => 0,
        },
        url: match q.url {
            Some(s) => s,
            None => String::new(),
        },
        method: match q.method {
            Some(s) => s,
            None => string_from("GET"),
        },
        headers: match q.headers {
            Some(s) => s,
            None => string_from("{}"),
        },
        body: match q.body {
            Some(s) => s,
            None => String::new(),
        },
        origin: match q.origin {
            Some(s) => s,
            None => String::new(),
        },
        mode: match q.mode {
            Some(s) => s,
            None => String::new(),
        },
    }
}

} // verus!
