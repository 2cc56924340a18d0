//! The adjacency and balance rules of the expression buffer, as spec
//! functions, together with the lemmas that relate the two validation paths
//! (the pre-insertion guards and the retroactive check on typed text).

use vstd::prelude::*;

verus! {

/// A decimal digit `0`..=`9`.
pub open spec fn is_digit(c: char) -> bool {
    ('0' as u32) <= (c as u32) && (c as u32) <= ('9' as u32)
}

/// A digit `1`..=`9` (a leading `0` press is treated separately).
pub open spec fn is_nonzero_digit(c: char) -> bool {
    ('1' as u32) <= (c as u32) && (c as u32) <= ('9' as u32)
}

/// An operator or the decimal point: the characters that may not be chained
/// freely one after another.
pub open spec fn is_sign_or_dot(c: char) -> bool {
    c == '-' || c == '+' || c == '*' || c == '/' || c == '.'
}

/// A binary operator (minus doubling as the unary sign).
pub open spec fn is_operator(c: char) -> bool {
    c == '-' || c == '+' || c == '*' || c == '/'
}

/// How many times `c` occurs in `s`.
pub open spec fn char_count(s: Seq<char>, c: char) -> nat
    decreases s.len(),
{
    if s.len() == 0 {
        0
    } else {
        char_count(s.drop_last(), c) + (if s.last() == c {
            1nat
        } else {
            0nat
        })
    }
}

/// The insertion guard for a digit, operator or decimal-point press:
/// may `c` be appended to the buffer `s`?
pub open spec fn accepts_token(s: Seq<char>, c: char) -> bool {
    if is_nonzero_digit(c) {
        s.len() == 0 || s.last() != ')'
    } else if c == '-' {
        s.len() == 0 || (s.last() != '.' && (s.len() == 1 || !(is_operator(s[s.len() - 2])
            && is_operator(s.last()))))
    } else if c == '+' || c == '*' || c == '/' {
        s.len() > 0 && !is_sign_or_dot(s.last())
    } else if c == '0' {
        s.len() > 0 && s.last() != ')'
    } else if c == '.' {
        s.len() > 0 && is_digit(s.last())
    } else {
        false
    }
}

/// The bracket guard for an open-parenthesis press.
pub open spec fn accepts_open(s: Seq<char>) -> bool {
    s.len() == 0 || !(is_digit(s.last()) || s.last() == '.' || s.last() == ')')
}

/// The bracket guard for a close-parenthesis press: the buffer must end in a
/// completed sub-expression and have an open bracket left to match.
pub open spec fn accepts_close(s: Seq<char>) -> bool {
    s.len() > 0 && (is_digit(s.last()) || s.last() == ')') && char_count(s, ')') < char_count(
        s,
        '(',
    )
}

/// The retroactive validator: is the last character of `s` legal in its
/// context?  Applied after text reaches the buffer without going through the
/// guards; an empty buffer is valid.
pub open spec fn tail_valid(s: Seq<char>) -> bool {
    if s.len() == 0 {
        true
    } else {
        let last = s[s.len() - 1];
        if is_digit(last) {
            s.len() == 1 || s[s.len() - 2] != ')'
        } else if last == '-' {
            s.len() == 1 || (s[s.len() - 2] != '.' && (s.len() == 2 || !(is_operator(
                s[s.len() - 3],
            ) && is_operator(s[s.len() - 2]))))
        } else if last == '(' {
            s.len() == 1 || !(is_digit(s[s.len() - 2]) || s[s.len() - 2] == ')' || s[s.len() - 2]
                == '.')
        } else if last == ')' {
            s.len() >= 2 && (is_digit(s[s.len() - 2]) || s[s.len() - 2] == ')') && char_count(
                s,
                ')',
            ) <= char_count(s, '(')
        } else if last == '.' {
            s.len() >= 2 && is_digit(s[s.len() - 2])
        } else if last == '+' || last == '*' || last == '/' {
            s.len() >= 2 && !is_sign_or_dot(s[s.len() - 2])
        } else {
            false
        }
    }
}

/// Completeness: the buffer is ready for evaluation exactly when its
/// brackets balance and it ends in a digit or a close parenthesis.
pub open spec fn complete(s: Seq<char>) -> bool {
    char_count(s, '(') == char_count(s, ')') && s.len() > 0 && (is_digit(s.last()) || s.last()
        == ')')
}

/// The bracket invariant of reachable buffers: every prefix has at most as
/// many close as open parentheses (so removing trailing characters can never
/// expose an excess close bracket).
pub open spec fn brackets_ok(s: Seq<char>) -> bool
    decreases s.len(),
{
    s.len() == 0 || (char_count(s, ')') <= char_count(s, '(') && brackets_ok(s.drop_last()))
}

/// Appending one character adds one to its own count and leaves every other
/// count unchanged.
pub proof fn lemma_char_count_push(s: Seq<char>, c: char, x: char)
    ensures
        char_count(s.push(c), x) == char_count(s, x) + (if c == x {
            1int
        } else {
            0int
        }),
{
    assert(s.push(c).drop_last() =~= s);
    assert(s.push(c).last() == c);
}

/// A buffer satisfying the bracket invariant has no excess close bracket.
pub proof fn lemma_brackets_ok_bound(s: Seq<char>)
    requires
        brackets_ok(s),
    ensures
        char_count(s, ')') <= char_count(s, '('),
{
}

/// Appending anything but a close parenthesis preserves the bracket
/// invariant.
pub proof fn lemma_push_keeps_brackets_ok(s: Seq<char>, c: char)
    requires
        brackets_ok(s),
        c != ')',
    ensures
        brackets_ok(s.push(c)),
{
    lemma_brackets_ok_bound(s);
    lemma_char_count_push(s, c, ')');
    lemma_char_count_push(s, c, '(');
    assert(s.push(c).drop_last() =~= s);
}

/// Appending a close parenthesis preserves the bracket invariant whenever an
/// open bracket is still unmatched, as the close-bracket guard demands.
pub proof fn lemma_push_close_keeps_brackets_ok(s: Seq<char>)
    requires
        brackets_ok(s),
        char_count(s, ')') < char_count(s, '('),
    ensures
        brackets_ok(s.push(')')),
{
    lemma_char_count_push(s, ')', ')');
    lemma_char_count_push(s, ')', '(');
    assert(s.push(')').drop_last() =~= s);
}

/// Removing the last character preserves the bracket invariant.
pub proof fn lemma_drop_last_keeps_brackets_ok(s: Seq<char>)
    requires
        brackets_ok(s),
        s.len() > 0,
    ensures
        brackets_ok(s.drop_last()),
{
}

/// Guard parity for digit, operator and decimal-point presses: a character
/// the insertion guard accepts also satisfies the retroactive validator on
/// the extended buffer.
pub proof fn lemma_token_guard_parity(s: Seq<char>, c: char)
    requires
        accepts_token(s, c),
    ensures
        tail_valid(s.push(c)),
{
    let t = s.push(c);
    assert(t[t.len() - 1] == c);
    if s.len() >= 1 {
        assert(t[t.len() - 2] == s[s.len() - 1]);
    }
    if s.len() >= 2 {
        assert(t[t.len() - 3] == s[s.len() - 2]);
    }
}

/// Guard parity for an open-parenthesis press.
pub proof fn lemma_open_guard_parity(s: Seq<char>)
    requires
        accepts_open(s),
    ensures
        tail_valid(s.push('(')),
{
    let t = s.push('(');
    assert(t[t.len() - 1] == '(');
    if s.len() >= 1 {
        assert(t[t.len() - 2] == s[s.len() - 1]);
    }
}

/// Guard parity for a close-parenthesis press.
pub proof fn lemma_close_guard_parity(s: Seq<char>)
    requires
        accepts_close(s),
    ensures
        tail_valid(s.push(')')),
{
    let t = s.push(')');
    assert(t[t.len() - 1] == ')');
    assert(t[t.len() - 2] == s[s.len() - 1]);
    lemma_char_count_push(s, ')', ')');
    lemma_char_count_push(s, ')', '(');
}

/// A complete buffer has balanced brackets, is nonempty, and ends in a
/// digit or a close parenthesis.
pub proof fn lemma_complete_shape(s: Seq<char>)
    requires
        complete(s),
    ensures
        char_count(s, '(') == char_count(s, ')'),
        s.len() > 0,
        is_digit(s.last()) || s.last() == ')',
{
}

/// A character that occurs nowhere in `s` has count zero.
pub proof fn lemma_char_count_absent(s: Seq<char>, c: char)
    requires
        forall|i: int| 0 <= i < s.len() ==> s[i] != c,
    ensures
        char_count(s, c) == 0,
    decreases s.len(),
{
    if s.len() > 0 {
        assert(forall|i: int| 0 <= i < s.drop_last().len() ==> s.drop_last()[i] != c);
        lemma_char_count_absent(s.drop_last(), c);
    }
}

/// One user action on the buffer: a digit/operator/decimal-point button, a
/// bracket button, removal of the last character, or a full clear.
pub enum Press {
    Token(char),
    Open,
    Close,
    Remove,
    Clear,
}

/// The buffer after one guarded action: an accepted character is appended,
/// a rejected press leaves the buffer unchanged.
pub open spec fn apply_press(s: Seq<char>, p: Press) -> Seq<char> {
    match p {
        Press::Token(c) => if accepts_token(s, c) {
            s.push(c)
        } else {
            s
        },
        Press::Open => if accepts_open(s) {
            s.push('(')
        } else {
            s
        },
        Press::Close => if accepts_close(s) {
            s.push(')')
        } else {
            s
        },
        Press::Remove => if s.len() > 0 {
            s.drop_last()
        } else {
            s
        },
        Press::Clear => Seq::empty(),
    }
}

/// The buffer after a whole sequence of guarded actions.
pub open spec fn apply_presses(s: Seq<char>, ps: Seq<Press>) -> Seq<char>
    decreases ps.len(),
{
    if ps.len() == 0 {
        s
    } else {
        apply_presses(apply_press(s, ps.first()), ps.drop_first())
    }
}

/// Every prefix of the buffer passes the retroactive validator, i.e. the
/// buffer could also have been typed character by character without any
/// rollback.
pub open spec fn all_prefixes_valid(s: Seq<char>) -> bool {
    forall|i: int| 0 <= i <= s.len() ==> tail_valid(#[trigger] s.take(i))
}

/// Pushing a character whose extended buffer passes the retroactive check
/// keeps every prefix valid.
proof fn lemma_prefixes_of_push(s: Seq<char>, c: char)
    requires
        all_prefixes_valid(s),
        tail_valid(s.push(c)),
    ensures
        all_prefixes_valid(s.push(c)),
{
    let t = s.push(c);
    assert forall|i: int| 0 <= i <= t.len() implies tail_valid(#[trigger] t.take(i)) by {
        if i <= s.len() {
            assert(t.take(i) =~= s.take(i));
        } else {
            assert(t.take(i) =~= t);
        }
    }
}

/// One guarded action of any kind keeps every prefix of the buffer valid.
pub proof fn lemma_press_preserves_validity(s: Seq<char>, p: Press)
    requires
        all_prefixes_valid(s),
    ensures
        all_prefixes_valid(apply_press(s, p)),
{
    let t = apply_press(s, p);
    match p {
        Press::Token(c) => {
            if accepts_token(s, c) {
                lemma_token_guard_parity(s, c);
                lemma_prefixes_of_push(s, c);
            }
        },
        Press::Open => {
            if accepts_open(s) {
                lemma_open_guard_parity(s);
                lemma_prefixes_of_push(s, '(');
            }
        },
        Press::Close => {
            if accepts_close(s) {
                lemma_close_guard_parity(s);
                lemma_prefixes_of_push(s, ')');
            }
        },
        Press::Remove => {
            if s.len() > 0 {
                assert forall|i: int| 0 <= i <= t.len() implies tail_valid(#[trigger] t.take(i)) by {
                    assert(t.take(i) =~= s.take(i));
                    assert(tail_valid(s.take(i)));
                }
            }
        },
        Press::Clear => {
            assert forall|i: int| 0 <= i <= t.len() implies tail_valid(#[trigger] t.take(i)) by {
                assert(t.take(i) =~= Seq::<char>::empty());
            }
        },
    }
}

/// Guard parity over whole sessions: starting from a buffer whose prefixes
/// are all valid, any sequence of guarded actions leaves a buffer that the
/// retroactive validator accepts — no buffer built through the guards is
/// ever rejected by the typed-text check.
pub proof fn lemma_button_sequence_valid(s: Seq<char>, ps: Seq<Press>)
    requires
        all_prefixes_valid(s),
    ensures
        all_prefixes_valid(apply_presses(s, ps)),
        tail_valid(apply_presses(s, ps)),
    decreases ps.len(),
{
    let t = apply_presses(s, ps);
    if ps.len() == 0 {
        assert(t == s);
        assert(s.take(s.len() as int) =~= s);
        assert(tail_valid(s.take(s.len() as int)));
    } else {
        lemma_press_preserves_validity(s, ps.first());
        lemma_button_sequence_valid(apply_press(s, ps.first()), ps.drop_first());
    }
}

/// Guard parity from an empty session: the form of the statement for a
/// buffer built from scratch.
pub proof fn lemma_guard_parity_reachable(ps: Seq<Press>)
    ensures
        tail_valid(apply_presses(Seq::empty(), ps)),
{
    let e = Seq::<char>::empty();
    assert forall|i: int| 0 <= i <= e.len() implies tail_valid(#[trigger] e.take(i)) by {
        assert(e.take(i) =~= e);
    }
    lemma_button_sequence_valid(e, ps);
}

/// Clearing twice in a row yields the same empty state as clearing once.
pub proof fn lemma_clear_idempotent(s: Seq<char>)
    ensures
        apply_press(apply_press(s, Press::Clear), Press::Clear) == apply_press(s, Press::Clear),
{
}

/// One guarded action of any kind preserves the bracket invariant.
pub proof fn lemma_press_preserves_brackets(s: Seq<char>, p: Press)
    requires
        brackets_ok(s),
    ensures
        brackets_ok(apply_press(s, p)),
{
    match p {
        Press::Token(c) => {
            if accepts_token(s, c) {
                lemma_push_keeps_brackets_ok(s, c);
            }
        },
        Press::Open => {
            if accepts_open(s) {
                lemma_push_keeps_brackets_ok(s, '(');
            }
        },
        Press::Close => {
            if accepts_close(s) {
                lemma_push_close_keeps_brackets_ok(s);
            }
        },
        Press::Remove => {
            if s.len() > 0 {
                lemma_drop_last_keeps_brackets_ok(s);
            }
        },
        Press::Clear => {
        },
    }
}

/// The bracket bound over whole sessions: after any sequence of guarded
/// actions the buffer never holds more close than open parentheses.
pub proof fn lemma_bracket_invariant_along_sequence(s: Seq<char>, ps: Seq<Press>)
    requires
        brackets_ok(s),
    ensures
        brackets_ok(apply_presses(s, ps)),
        char_count(apply_presses(s, ps), ')') <= char_count(apply_presses(s, ps), '('),
    decreases ps.len(),
{
    if ps.len() == 0 {
        lemma_brackets_ok_bound(s);
    } else {
        lemma_press_preserves_brackets(s, ps.first());
        lemma_bracket_invariant_along_sequence(apply_press(s, ps.first()), ps.drop_first());
    }
}

/// Round trip: a buffer holding a plain number — no parentheses, ending in
/// a digit, as a successful evaluation leaves behind — passes the
/// completeness check and so can open a fresh guarded session that is
/// immediately eligible for evaluation again.
pub proof fn lemma_plain_number_complete(s: Seq<char>)
    requires
        s.len() > 0,
        is_digit(s.last()),
        forall|i: int| 0 <= i < s.len() ==> s[i] != '(' && s[i] != ')',
    ensures
        complete(s),
{
    lemma_char_count_absent(s, '(');
    lemma_char_count_absent(s, ')');
}

} // verus!
