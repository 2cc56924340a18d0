//! The calculator session state: an expression buffer mutated only through
//! guarded operations, plus the lookback accessors the guards are built on.

use vstd::prelude::*;
use vstd::string::StrSliceExecFns;

use crate::rules::accepts_close;
use crate::rules::accepts_open;
use crate::rules::accepts_token;
use crate::rules::apply_press;
use crate::rules::brackets_ok;
use crate::rules::char_count;
use crate::rules::complete;
use crate::rules::is_digit;
use crate::rules::is_operator;
use crate::rules::is_sign_or_dot;
use crate::rules::lemma_push_close_keeps_brackets_ok;
use crate::rules::lemma_push_keeps_brackets_ok;
use crate::rules::tail_valid;
use crate::rules::Press;

verus! {

/// One calculator session: the in-progress expression text.
pub struct Calculator {
    user_input: Vec<char>,
}

impl View for Calculator {
    type V = Seq<char>;

    closed spec fn view(&self) -> Seq<char> {
        self.user_input@
    }
}

/// Is `c` a decimal digit?  Mirrors [`is_digit`].
pub fn digit_char(c: char) -> (r: bool)
    ensures
        r == is_digit(c),
{
    ('0' as u32) <= (c as u32) && (c as u32) <= ('9' as u32)
}

/// Is `c` an operator or the decimal point?  Mirrors [`is_sign_or_dot`].
pub fn sign_or_dot_char(c: char) -> (r: bool)
    ensures
        r == is_sign_or_dot(c),
{
    c == '-' || c == '+' || c == '*' || c == '/' || c == '.'
}

/// Is `c` a binary operator?  Mirrors [`is_operator`].
pub fn operator_char(c: char) -> (r: bool)
    ensures
        r == is_operator(c),
{
    c == '-' || c == '+' || c == '*' || c == '/'
}

impl Calculator {
    /// A fresh session with an empty buffer.
    pub fn new() -> (r: Self)
        ensures
            r@ == Seq::<char>::empty(),
    {
        Calculator { user_input: Vec::new() }
    }

    /// The buffer contents, for display.
    pub fn buffer(&self) -> (r: &Vec<char>)
        ensures
            r@ == self@,
    {
        &self.user_input
    }

    /// Raw append, used by the guards once they approve a character and by
    /// the unguarded text-input path (which must then be revalidated).
    pub fn append(&mut self, c: char)
        ensures
            final(self)@ == old(self)@.push(c),
    {
        self.user_input.push(c);
    }

    /// Remove the last character; a no-op on an empty buffer.
    pub fn pop_last(&mut self)
        ensures
            final(self)@ == (if old(self)@.len() > 0 {
                old(self)@.drop_last()
            } else {
                old(self)@
            }),
            final(self)@ == apply_press(old(self)@, Press::Remove),
            brackets_ok(old(self)@) ==> brackets_ok(final(self)@),
    {
        self.user_input.pop();
    }

    /// Empty the buffer; the state afterwards does not depend on the state
    /// before, so clearing twice is the same as clearing once.
    pub fn clear(&mut self)
        ensures
            final(self)@ == Seq::<char>::empty(),
            final(self)@ == apply_press(old(self)@, Press::Clear),
            brackets_ok(final(self)@),
            tail_valid(final(self)@),
            !complete(final(self)@),
    {
        self.user_input.clear();
    }

    /// Replace the whole buffer: a successful evaluation installs the
    /// formatted result as the starting point of a fresh session, without
    /// re-running the guards.
    pub fn replace_with(&mut self, t: Vec<char>)
        ensures
            final(self)@ == t@,
    {
        self.user_input = t;
    }

    /// The last character, if any.
    pub fn last_char(&self) -> (r: Option<char>)
        ensures
            r == (if self@.len() > 0 {
                Some(self@[self@.len() - 1])
            } else {
                None::<char>
            }),
    {
        let n = self.user_input.len();
        if n > 0 {
            Some(self.user_input[n - 1])
        } else {
            None
        }
    }

    /// The character before the last, if any.
    pub fn second_to_last(&self) -> (r: Option<char>)
        ensures
            r == (if self@.len() >= 2 {
                Some(self@[self@.len() - 2])
            } else {
                None::<char>
            }),
    {
        let n = self.user_input.len();
        if n >= 2 {
            Some(self.user_input[n - 2])
        } else {
            None
        }
    }

    /// The character two before the last, if any.
    pub fn third_to_last(&self) -> (r: Option<char>)
        ensures
            r == (if self@.len() >= 3 {
                Some(self@[self@.len() - 3])
            } else {
                None::<char>
            }),
    {
        let n = self.user_input.len();
        if n >= 3 {
            Some(self.user_input[n - 3])
        } else {
            None
        }
    }

    /// How many open parentheses the buffer holds.
    pub fn open_count(&self) -> (n: usize)
        ensures
            n as nat == char_count(self@, '('),
    {
        count_char(&self.user_input, '(')
    }

    /// How many close parentheses the buffer holds.
    pub fn close_count(&self) -> (n: usize)
        ensures
            n as nat == char_count(self@, ')'),
    {
        count_char(&self.user_input, ')')
    }

    /// The insertion guard: append the first character of `digit` (a digit,
    /// operator or decimal-point button label) if the adjacency rules allow
    /// it after the current tail; otherwise leave the buffer untouched.
    pub fn check_input(&mut self, digit: &str)
        requires
            digit@.len() > 0,
        ensures
            final(self)@ == (if accepts_token(old(self)@, digit@[0]) {
                old(self)@.push(digit@[0])
            } else {
                old(self)@
            }),
            final(self)@ == apply_press(old(self)@, Press::Token(digit@[0])),
            brackets_ok(old(self)@) ==> brackets_ok(final(self)@),
    {
        let c = digit.get_char(0);
        if token_allowed(&self.user_input, c) {
            proof {
                if brackets_ok(self.user_input@) {
                    lemma_push_keeps_brackets_ok(self.user_input@, c);
                }
            }
            self.user_input.push(c);
        }
    }

    /// The bracket guard for `(`: append it unless the buffer ends in a
    /// digit, a decimal point or a close parenthesis.
    pub fn open_bracket(&mut self)
        ensures
            final(self)@ == (if accepts_open(old(self)@) {
                old(self)@.push('(')
            } else {
                old(self)@
            }),
            final(self)@ == apply_press(old(self)@, Press::Open),
            brackets_ok(old(self)@) ==> brackets_ok(final(self)@),
    {
        let n = self.user_input.len();
        let allowed: bool = if n == 0 {
            true
        } else {
            let last = self.user_input[n - 1];
            !(digit_char(last) || last == '.' || last == ')')
        };
        if allowed {
            proof {
                if brackets_ok(self.user_input@) {
                    lemma_push_keeps_brackets_ok(self.user_input@, '(');
                }
            }
            self.user_input.push('(');
        }
    }

    /// The bracket guard for `)`: append it only after a digit or a close
    /// parenthesis, and only while an open parenthesis is still unmatched.
    pub fn close_bracket(&mut self)
        ensures
            final(self)@ == (if accepts_close(old(self)@) {
                old(self)@.push(')')
            } else {
                old(self)@
            }),
            final(self)@ == apply_press(old(self)@, Press::Close),
            brackets_ok(old(self)@) ==> brackets_ok(final(self)@),
    {
        let op = count_char(&self.user_input, '(');
        let cl = count_char(&self.user_input, ')');
        let n = self.user_input.len();
        if n > 0 && cl < op {
            let last = self.user_input[n - 1];
            if digit_char(last) || last == ')' {
                proof {
                    if brackets_ok(self.user_input@) {
                        lemma_push_close_keeps_brackets_ok(self.user_input@);
                    }
                }
                self.user_input.push(')');
            }
        }
    }

    /// The retroactive validator: is the most recent character legal in its
    /// full context?  An empty buffer is valid.
    pub fn is_input_valid(&self) -> (r: bool)
        ensures
            r == tail_valid(self@),
    {
        let n = self.user_input.len();
        if n == 0 {
            return true;
        }
        let last = self.user_input[n - 1];
        if digit_char(last) {
            n == 1 || self.user_input[n - 2] != ')'
        } else if last == '-' {
            n == 1 || (self.user_input[n - 2] != '.' && (n == 2 || !(operator_char(
                self.user_input[n - 3],
            ) && operator_char(self.user_input[n - 2]))))
        } else if last == '(' {
            n == 1 || {
                let s2 = self.user_input[n - 2];
                !(digit_char(s2) || s2 == ')' || s2 == '.')
            }
        } else if last == ')' {
            if n < 2 {
                return false;
            }
            let s2 = self.user_input[n - 2];
            let op = count_char(&self.user_input, '(');
            let cl = count_char(&self.user_input, ')');
            (digit_char(s2) || s2 == ')') && cl <= op
        } else if last == '.' {
            n >= 2 && digit_char(self.user_input[n - 2])
        } else if last == '+' || last == '*' || last == '/' {
            n >= 2 && !sign_or_dot_char(self.user_input[n - 2])
        } else {
            false
        }
    }

    /// Roll back the unguarded text-input path: if the buffer's tail breaks
    /// the adjacency rules, drop the offending last character.
    pub fn rollback_invalid_input(&mut self)
        ensures
            final(self)@ == (if tail_valid(old(self)@) {
                old(self)@
            } else {
                old(self)@.drop_last()
            }),
    {
        if !self.is_input_valid() {
            self.user_input.pop();
        }
    }

    /// The completeness check: the buffer may be evaluated exactly when its
    /// brackets balance and it ends in a digit or a close parenthesis.
    pub fn correct_input(&self) -> (r: bool)
        ensures
            r == complete(self@),
    {
        let op = count_char(&self.user_input, '(');
        let cl = count_char(&self.user_input, ')');
        let n = self.user_input.len();
        if cl == op && n > 0 {
            let last = self.user_input[n - 1];
            digit_char(last) || last == ')'
        } else {
            false
        }
    }
}

impl Default for Calculator {
    /// A fresh session, identical to [`Calculator::new`].
    fn default() -> (r: Self)
        ensures
            r@ == Seq::<char>::empty(),
    {
        Calculator { user_input: Vec::new() }
    }
}

/// Does the insertion guard allow `c` after the buffer `v`?  Mirrors
/// [`accepts_token`].
fn token_allowed(v: &Vec<char>, c: char) -> (r: bool)
    ensures
        r == accepts_token(v@, c),
{
    let n = v.len();
    if ('1' as u32) <= (c as u32) && (c as u32) <= ('9' as u32) {
        n == 0 || v[n - 1] != ')'
    } else if c == '-' {
        n == 0 || (v[n - 1] != '.' && (n == 1 || !(operator_char(v[n - 2]) && operator_char(
            v[n - 1],
        ))))
    } else if c == '+' || c == '*' || c == '/' {
        n > 0 && !sign_or_dot_char(v[n - 1])
    } else if c == '0' {
        n > 0 && v[n - 1] != ')'
    } else if c == '.' {
        n > 0 && digit_char(v[n - 1])
    } else {
        false
    }
}

/// Count the occurrences of `c` in `v`.
fn count_char(v: &Vec<char>, c: char) -> (n: usize)
    ensures
        n as nat == char_count(v@, c),
{
    let mut n: usize = 0;
    let mut i: usize = 0;
    while i < v.len()
        invariant
            i <= v@.len(),
            n <= i,
            n as nat == char_count(v@.take(i as int), c),
        decreases v@.len() - i,
    {
        proof {
            assert(v@.take(i + 1).drop_last() =~= v@.take(i as int));
            assert(v@.take(i + 1).last() == v@[i as int]);
        }
        if v[i] == c {
            n = n + 1;
        }
        i = i + 1;
    }
    proof {
        assert(v@.take(v@.len() as int) =~= v@);
    }
    n
}

} // verus!
