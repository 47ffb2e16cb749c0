//! References to environment variables in configured values.

use crate::json;
use crate::lists;
use crate::text::same_text;
use vstd::prelude::*;

verus! {

/// The contents of a table of environment variables.
pub open spec fn variables(env: Seq<(String, String)>) -> Seq<(Seq<char>, Seq<char>)> {
    env.map_values(|entry: (String, String)| (entry.0@, entry.1@))
}

/// The value of a variable, where it is set.
pub open spec fn value_of(env: Seq<(Seq<char>, Seq<char>)>, name: Seq<char>) -> Option<Seq<char>> {
    lists::entry(env, name)
}

pub open spec fn opens_at(s: Seq<char>, i: int) -> bool {
    0 <= i && i + 1 < s.len() && s[i] == '$' && s[i + 1] == '{'
}

/// Where the first `${` of a text stands, or the text's length.
pub open spec fn opening(s: Seq<char>) -> int
    decreases s.len(),
{
    if s.len() == 0 || opens_at(s, 0) {
        0
    } else {
        1 + opening(s.skip(1))
    }
}

/// Where the first `}` of a text stands, or the text's length.
pub open spec fn closing(s: Seq<char>) -> int {
    lists::first_where(s, |c: char| c == '}')
}

/// A text in which the first reference to a variable that is set has been
/// replaced by the value. `None` where there is no such reference.
pub open spec fn expanded_once(s: Seq<char>, env: Seq<(Seq<char>, Seq<char>)>) -> Option<Seq<char>>
    decreases s.len(),
{
    let open = opening(s);
    let close = open + closing(s.skip(open));
    if 0 <= open < s.len() && open < close < s.len() {
        match value_of(env, s.subrange(open + 2, close)) {
            Some(value) => Some(s.take(open) + value + s.skip(close + 1)),
            None => match expanded_once(s.skip(close + 1), env) {
                Some(rest) => Some(s.take(close + 1) + rest),
                None => None,
            },
        }
    } else {
        None
    }
}

/// A text after its references to variables that are set have been replaced,
/// one after the other, in at most so many steps. `None` where these are not
/// enough. A reference in a value that was put in is replaced too.
pub open spec fn expanded(s: Seq<char>, env: Seq<(Seq<char>, Seq<char>)>, steps: nat) -> Option<
    Seq<char>,
>
    decreases steps,
{
    match expanded_once(s, env) {
        Some(next) => if steps > 0 {
            expanded(next, env, (steps - 1) as nat)
        } else {
            None
        },
        None => Some(s),
    }
}

/// Whether replacing references comes to an end. It does not where the value of
/// a variable leads back to the variable.
pub open spec fn settles(s: Seq<char>, env: Seq<(Seq<char>, Seq<char>)>) -> bool {
    exists|steps: nat| #[trigger] expanded(s, env, steps) is Some
}

/// A text after all its references to variables that are set have been
/// replaced.
pub open spec fn expansion(s: Seq<char>, env: Seq<(Seq<char>, Seq<char>)>) -> Seq<char> {
    let steps = choose|steps: nat| #[trigger] expanded(s, env, steps) is Some;
    expanded(s, env, steps)->0
}

/// The number of steps does not matter, where it is enough.
proof fn lemma_enough_steps(
    s: Seq<char>,
    env: Seq<(Seq<char>, Seq<char>)>,
    few: nat,
    many: nat,
)
    requires
        expanded(s, env, few) is Some,
        few <= many,
    ensures
        expanded(s, env, many) == expanded(s, env, few),
    decreases few,
{
    match expanded_once(s, env) {
        Some(next) => {
            lemma_enough_steps(next, env, (few - 1) as nat, (many - 1) as nat);
        },
        None => {},
    }
}

/// Any number of steps that is enough gives the expansion.
pub proof fn lemma_expansion(s: Seq<char>, env: Seq<(Seq<char>, Seq<char>)>, steps: nat)
    requires
        expanded(s, env, steps) is Some,
    ensures
        settles(s, env),
        expansion(s, env) == expanded(s, env, steps)->0,
{
    let chosen = choose|steps: nat| #[trigger] expanded(s, env, steps) is Some;
    if chosen <= steps {
        lemma_enough_steps(s, env, chosen, steps);
    } else {
        lemma_enough_steps(s, env, steps, chosen);
    }
}

proof fn lemma_opening(s: Seq<char>, i: int)
    requires
        0 <= i <= s.len(),
        forall|j: int| 0 <= j < i ==> !opens_at(s, j),
        i < s.len() ==> opens_at(s, i),
    ensures
        opening(s) == i,
    decreases s.len(),
{
    if i > 0 {
        assert(!opens_at(s, 0));
        let rest = s.skip(1);
        assert forall|j: int| 0 <= j < i - 1 implies !opens_at(rest, j) by {
            assert(!opens_at(s, j + 1));
        }
        lemma_opening(rest, i - 1);
    }
}

proof fn lemma_opening_found(s: Seq<char>)
    ensures
        0 <= opening(s) <= s.len(),
        opening(s) < s.len() ==> opens_at(s, opening(s)),
    decreases s.len(),
{
    if s.len() > 0 && !opens_at(s, 0) {
        lemma_opening_found(s.skip(1));
    }
}

/// The value of a variable in a table.
fn look_up<'a>(env: &'a Vec<(String, String)>, name: &str) -> (r: Option<&'a str>)
    ensures
        json::text_of(r) == value_of(variables(env@), name@),
{
    let ghost vars = variables(env@);
    let ghost wanted = lists::keyed::<Seq<char>>(name@);
    for i in 0..env.len()
        invariant
            vars == variables(env@),
            wanted == lists::keyed::<Seq<char>>(name@),
            forall|j: int| 0 <= j < i ==> !wanted(#[trigger] vars[j]),
    {
        if same_text(env[i].0.as_str(), name) {
            proof {
                lists::lemma_first_where(vars, wanted, i as int);
            }
            return Some(env[i].1.as_str());
        }
    }
    proof {
        lists::lemma_first_where(vars, wanted, vars.len() as int);
    }
    None
}

/// Where the first `${` of a text stands at or after an index, or the text's
/// length.
fn find_opening(s: &str, from: usize) -> (r: usize)
    requires
        from <= s@.len(),
    ensures
        from <= r <= s@.len(),
        r - from == opening(s@.skip(from as int)),
{
    let len: usize = s.unicode_len();
    let ghost rest = s@.skip(from as int);
    let mut i: usize = from;
    while i < len && !(len - i >= 2 && s.get_char(i) == '$' && s.get_char(i + 1) == '{')
        invariant
            len == s@.len(),
            from <= i <= len,
            rest == s@.skip(from as int),
            forall|j: int| 0 <= j < i - from ==> !opens_at(rest, j),
        decreases len - i,
    {
        assert(!opens_at(rest, i - from));
        i = i + 1;
    }
    proof {
        lemma_opening(rest, i - from);
    }
    i
}

/// Where the first `}` of a text stands at or after an index, or the text's
/// length.
fn find_closing(s: &str, from: usize) -> (r: usize)
    requires
        from <= s@.len(),
    ensures
        from <= r <= s@.len(),
        r - from == closing(s@.skip(from as int)),
{
    let len: usize = s.unicode_len();
    let ghost rest = s@.skip(from as int);
    let ghost wanted = |c: char| c == '}';
    let mut i: usize = from;
    while i < len && s.get_char(i) != '}'
        invariant
            len == s@.len(),
            from <= i <= len,
            rest == s@.skip(from as int),
            wanted == (|c: char| c == '}'),
            forall|j: int| 0 <= j < i - from ==> !wanted(#[trigger] rest[j]),
        decreases len - i,
    {
        assert(rest[i - from] == s@[i as int]);
        i = i + 1;
    }
    proof {
        lists::lemma_first_where(rest, wanted, i - from);
    }
    i
}

/// Replaces the first reference to a variable that is set.
fn expand_once(s: &str, env: &Vec<(String, String)>) -> (r: Option<String>)
    ensures
        json::string_of(r) == expanded_once(s@, variables(env@)),
{
    let len: usize = s.unicode_len();
    let ghost vars = variables(env@);
    let mut from: usize = 0;
    assert(s@.skip(0) =~= s@);
    proof {
        if expanded_once(s@, vars) is Some {
            assert(s@.take(0) + expanded_once(s@, vars)->0 =~= expanded_once(s@, vars)->0);
        }
    }
    loop
        invariant
            len == s@.len(),
            vars == variables(env@),
            from <= len,
            expanded_once(s@, vars) == (match expanded_once(s@.skip(from as int), vars) {
                Some(rest) => Some(s@.take(from as int) + rest),
                None => None,
            }),
        decreases len - from,
    {
        let ghost rest = s@.skip(from as int);
        let open: usize = find_opening(s, from);
        proof {
            lemma_opening_found(rest);
        }
        if open == len {
            return None;
        }
        let close: usize = find_closing(s, open);
        assert(rest.skip(open - from) =~= s@.skip(open as int));
        if close == len {
            return None;
        }
        proof {
            assert(opens_at(rest, open - from));
            let tail = s@.skip(open as int);
            lists::lemma_first_where_found(tail, |c: char| c == '}');
            assert(tail[0] == '$' && tail[1] == '{');
            assert(tail[close - open] == '}');
            assert(close >= open + 2);
            assert(rest.subrange(open - from + 2, close - from) =~= s@.subrange(
                open + 2,
                close as int,
            ));
            assert(rest.skip(close - from + 1) =~= s@.skip(close + 1));
        }
        match look_up(env, s.substring_char(open + 2, close)) {
            Some(value) => {
                let mut r = s.substring_char(0, open).to_string();
                r.append(value);
                r.append(s.substring_char(close + 1, len));
                proof {
                    assert(s@.subrange(0, open as int) =~= s@.take(from as int) + rest.take(
                        open - from,
                    ));
                    assert(s@.subrange(close + 1, len as int) =~= s@.skip(close + 1));
                    assert(r@ =~= s@.take(from as int) + (rest.take(open - from) + value@
                        + rest.skip(close - from + 1)));
                }
                return Some(r);
            },
            None => {
                proof {
                    match expanded_once(s@.skip(close + 1), vars) {
                        Some(later) => {
                            assert(s@.take(close + 1) + later =~= s@.take(from as int) + (
                            rest.take(close - from + 1) + later));
                        },
                        None => {},
                    }
                }
                from = close + 1;
            },
        }
    }
}

/// Expands `${ENV_VAR}` references in a string value, in at most so many steps.
/// `None` where these are not enough.
pub fn expand_env_vars_within(s: &str, env: &Vec<(String, String)>, steps: usize) -> (r: Option<
    String,
>)
    ensures
        json::string_of(r) == expanded(s@, variables(env@), steps as nat),
        r is Some ==> settles(s@, variables(env@)) && r->0@ == expansion(s@, variables(env@)),
{
    let ghost vars = variables(env@);
    let mut result = s.to_string();
    let mut left: usize = steps;
    loop
        invariant
            vars == variables(env@),
            expanded(s@, vars, steps as nat) == expanded(result@, vars, left as nat),
        decreases left,
    {
        match expand_once(result.as_str(), env) {
            Some(next) => {
                if left == 0 {
                    return None;
                }
                result = next;
                left = left - 1;
            },
            None => {
                proof {
                    lemma_expansion(s@, vars, steps as nat);
                }
                return Some(result);
            },
        }
    }
}

/// Expands `${ENV_VAR}` references in a string value.
/// If the env var is not set, leaves the reference as-is.
pub fn expand_env_vars(s: &str, env: &Vec<(String, String)>) -> (r: String)
    requires
        settles(s@, variables(env@)),
    ensures
        r@ == expansion(s@, variables(env@)),
{
    let ghost vars = variables(env@);
    let ghost steps = choose|steps: nat| #[trigger] expanded(s@, vars, steps) is Some;
    let mut result = s.to_string();
    let ghost mut left = steps;
    loop
        invariant
            vars == variables(env@),
            expanded(s@, vars, steps) is Some,
            expansion(s@, vars) == expanded(s@, vars, steps)->0,
            expanded(s@, vars, steps) == expanded(result@, vars, left),
        decreases left,
    {
        match expand_once(result.as_str(), env) {
            Some(next) => {
                proof {
                    assert(left > 0);
                    left = (left - 1) as nat;
                }
                result = next;
            },
            None => {
                return result;
            },
        }
    }
}

/// An expanded text holds no reference to a variable that is set.
pub proof fn lemma_nothing_left_to_expand(s: Seq<char>, env: Seq<(Seq<char>, Seq<char>)>)
    requires
        settles(s, env),
    ensures
        expanded_once(expansion(s, env), env) is None,
{
    let steps = choose|steps: nat| #[trigger] expanded(s, env, steps) is Some;
    lemma_last_step(s, env, steps);
}

proof fn lemma_last_step(s: Seq<char>, env: Seq<(Seq<char>, Seq<char>)>, steps: nat)
    requires
        expanded(s, env, steps) is Some,
    ensures
        expanded_once(expanded(s, env, steps)->0, env) is None,
    decreases steps,
{
    match expanded_once(s, env) {
        Some(next) => {
            lemma_last_step(next, env, (steps - 1) as nat);
        },
        None => {},
    }
}

/// To expand an expanded text again changes nothing.
pub proof fn lemma_expansion_stable(s: Seq<char>, env: Seq<(Seq<char>, Seq<char>)>)
    requires
        settles(s, env),
    ensures
        settles(expansion(s, env), env),
        expansion(expansion(s, env), env) == expansion(s, env),
{
    lemma_nothing_left_to_expand(s, env);
    lemma_expansion(expansion(s, env), env, 0);
}

/// Where no variable is set, every reference is left as it is.
pub proof fn lemma_unset_left_as_is(s: Seq<char>)
    ensures
        settles(s, Seq::empty()),
        expansion(s, Seq::empty()) == s,
{
    lemma_no_reference(s, Seq::empty());
    lemma_expansion(s, Seq::empty(), 0);
}

proof fn lemma_no_reference(s: Seq<char>, env: Seq<(Seq<char>, Seq<char>)>)
    requires
        env.len() == 0,
    ensures
        expanded_once(s, env) is None,
    decreases s.len(),
{
    let open = opening(s);
    let close = open + closing(s.skip(open));
    if 0 <= open < s.len() && open < close < s.len() {
        lemma_no_reference(s.skip(close + 1), env);
    }
}

/// A reference to a variable that is set is replaced by the value, and what
/// stands around it stays.
pub proof fn lemma_reference_replaced(
    before: Seq<char>,
    name: Seq<char>,
    after: Seq<char>,
    env: Seq<(Seq<char>, Seq<char>)>,
)
    requires
        opening(before) == before.len(),
        !name.contains('}'),
        value_of(env, name) is Some,
        opening(before + value_of(env, name)->0 + after) == (before + value_of(env, name)->0
            + after).len(),
    ensures
        settles(before + "${"@ + name + "}"@ + after, env),
        expansion(before + "${"@ + name + "}"@ + after, env) == before + value_of(env, name)->0
            + after,
{
    reveal_strlit("${");
    reveal_strlit("}");
    let s = before + "${"@ + name + "}"@ + after;
    let open = before.len() as int;
    let close = open + 2 + name.len();
    assert forall|j: int| 0 <= j < open implies !opens_at(s, j) by {
        lemma_none_before(before, j);
        assert(s[j] == before[j]);
        if j + 1 < open {
            assert(s[j + 1] == before[j + 1]);
        } else {
            assert(s[j + 1] == '$');
        }
    }
    assert(s[open] == '$' && s[open + 1] == '{');
    lemma_opening(s, open);
    let tail = s.skip(open);
    assert forall|j: int| 0 <= j < name.len() + 2 implies tail[j] != '}' by {
        if j >= 2 {
            assert(tail[j] == name[j - 2]);
        }
    }
    assert(s[close] == '}');
    lists::lemma_first_where(tail, |c: char| c == '}', (name.len() + 2) as int);
    assert(s.subrange(open + 2, close) =~= name);
    assert(s.take(open) =~= before);
    assert(s.skip(close + 1) =~= after);
    let next = before + value_of(env, name)->0 + after;
    assert(expanded_once(s, env) == Some(next));
    assert(expanded_once(next, env) is None);
    assert(expanded(next, env, 0) == Some(next));
    assert(expanded(s, env, 1) == Some(next)) by {
        reveal_with_fuel(expanded, 2);
    }
    lemma_expansion(s, env, 1);
}

/// Before the first `${` there is none.
proof fn lemma_none_before(s: Seq<char>, j: int)
    requires
        0 <= j < opening(s),
    ensures
        !opens_at(s, j),
    decreases s.len(),
{
    if j > 0 {
        lemma_none_before(s.skip(1), j - 1);
        assert(opens_at(s, j) ==> opens_at(s.skip(1), j - 1));
    }
}

pub open spec fn is_dollar(c: char) -> bool {
    c == '$'
}

/// The number of `$` in a text.
pub open spec fn dollars(s: Seq<char>) -> nat {
    s.filter(|c: char| is_dollar(c)).len()
}

proof fn lemma_dollars_add(a: Seq<char>, b: Seq<char>)
    ensures
        dollars(a + b) == dollars(a) + dollars(b),
{
    Seq::filter_distributes_over_add(a, b, |c: char| is_dollar(c));
}

/// Values without a `$`.
pub open spec fn plain_values(env: Seq<(Seq<char>, Seq<char>)>) -> bool {
    forall|i: int| 0 <= i < env.len() ==> dollars((#[trigger] env[i]).1) == 0
}

proof fn lemma_fewer_dollars(s: Seq<char>, env: Seq<(Seq<char>, Seq<char>)>)
    requires
        plain_values(env),
    ensures
        expanded_once(s, env) matches Some(next) ==> dollars(next) < dollars(s),
    decreases s.len(),
{
    let open = opening(s);
    let close = open + closing(s.skip(open));
    if 0 <= open < s.len() && open < close < s.len() {
        let head = s.take(open);
        let reference = s.subrange(open, close + 1);
        let tail = s.skip(close + 1);
        assert(s =~= head + reference + tail);
        lemma_dollars_add(head + reference, tail);
        lemma_dollars_add(head, reference);
        lemma_opening_found(s);
        assert(reference[0] == '$');
        reference.lemma_filter_contains(|c: char| is_dollar(c), 0);
        lists::lemma_entry(env, s.subrange(open + 2, close));
        match value_of(env, s.subrange(open + 2, close)) {
            Some(value) => {
                let at = choose|i: int|
                    0 <= i < env.len() && env[i] == (s.subrange(open + 2, close), value);
                assert(dollars(env[at].1) == 0);
                lemma_dollars_add(head + value, tail);
                lemma_dollars_add(head, value);
            },
            None => {
                lemma_fewer_dollars(tail, env);
                match expanded_once(tail, env) {
                    Some(rest) => {
                        assert(s.take(close + 1) =~= head + reference);
                        lemma_dollars_add(head + reference, rest);
                    },
                    None => {},
                }
            },
        }
    }
}

/// Where no value holds a `$`, expansion comes to an end, after at most one step
/// for each `$` of the text.
pub proof fn lemma_plain_values_settle(s: Seq<char>, env: Seq<(Seq<char>, Seq<char>)>)
    requires
        plain_values(env),
    ensures
        expanded(s, env, dollars(s)) is Some,
        settles(s, env),
    decreases dollars(s),
{
    lemma_fewer_dollars(s, env);
    match expanded_once(s, env) {
        Some(next) => {
            lemma_plain_values_settle(next, env);
            lemma_enough_steps(next, env, dollars(next), (dollars(s) - 1) as nat);
        },
        None => {},
    }
}

/// A reference to a variable that is set is replaced first; one to a variable that
/// is not set stays, and the references behind it are looked at.
pub proof fn lemma_first_reference(
    before: Seq<char>,
    name: Seq<char>,
    after: Seq<char>,
    env: Seq<(Seq<char>, Seq<char>)>,
)
    requires
        opening(before) == before.len(),
        !name.contains('}'),
    ensures
        ({
            let s = before + "${"@ + name + "}"@ + after;
            match value_of(env, name) {
                Some(value) => expanded_once(s, env) == Some(before + value + after),
                None => match expanded_once(after, env) {
                    Some(rest) => expanded_once(s, env) == Some(
                        before + "${"@ + name + "}"@ + rest,
                    ),
                    None => expanded_once(s, env) is None,
                },
            }
        }),
{
    reveal_strlit("${");
    reveal_strlit("}");
    let s = before + "${"@ + name + "}"@ + after;
    let open = before.len() as int;
    let close = open + 2 + name.len();
    assert forall|j: int| 0 <= j < open implies !opens_at(s, j) by {
        lemma_none_before(before, j);
        assert(s[j] == before[j]);
        if j + 1 < open {
            assert(s[j + 1] == before[j + 1]);
        } else {
            assert(s[j + 1] == '$');
        }
    }
    assert(s[open] == '$' && s[open + 1] == '{');
    lemma_opening(s, open);
    let tail = s.skip(open);
    assert forall|j: int| 0 <= j < name.len() + 2 implies tail[j] != '}' by {
        if j >= 2 {
            assert(tail[j] == name[j - 2]);
        }
    }
    assert(s[close] == '}');
    lists::lemma_first_where(tail, |c: char| c == '}', (name.len() + 2) as int);
    assert(s.subrange(open + 2, close) =~= name);
    assert(s.take(open) =~= before);
    assert(s.skip(close + 1) =~= after);
    assert(s.take(close + 1) =~= before + "${"@ + name + "}"@);
}

/// What a text stands for, where it stands for something: itself, where it has no
/// reference to a variable that is set, and otherwise what it stands for with the
/// first such reference replaced.
pub proof fn lemma_expansion_goes_on(s: Seq<char>, env: Seq<(Seq<char>, Seq<char>)>)
    requires
        settles(s, env),
    ensures
        match expanded_once(s, env) {
            Some(next) => settles(next, env) && expansion(s, env) == expansion(next, env),
            None => expansion(s, env) == s,
        },
{
    let steps = choose|steps: nat| #[trigger] expanded(s, env, steps) is Some;
    lemma_expansion(s, env, steps);
    match expanded_once(s, env) {
        Some(next) => {
            assert(steps > 0);
            let fewer = (steps - 1) as nat;
            assert(expanded(next, env, fewer) is Some);
            lemma_expansion(next, env, fewer);
        },
        None => {},
    }
}

/// The value of a variable is the one that the environment gives it.
pub proof fn lemma_value_of(env: Seq<(Seq<char>, Seq<char>)>, i: int)
    requires
        0 <= i < env.len(),
        forall|j: int| 0 <= j < i ==> (#[trigger] env[j]).0 != env[i].0,
    ensures
        value_of(env, env[i].0) == Some(env[i].1),
{
    lists::lemma_first_where(env, lists::keyed::<Seq<char>>(env[i].0), i);
}

/// What the environment is: each variable with its own value, one by one.
pub proof fn lemma_variables(env: Seq<(String, String)>)
    ensures
        variables(env).len() == env.len(),
        forall|i: int|
            0 <= i < env.len() ==> #[trigger] variables(env)[i] == (env[i].0@, env[i].1@),
{
}

} // verus!
