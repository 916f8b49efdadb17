//! A list of tokens (the categories of a color space): no token is empty and
//! no two tokens are equal when ASCII case is ignored.
use vstd::prelude::*;
use crate::text::{contains_ignore_case, eq_ignore_ascii_case, eq_ignore_case, views};

verus! {

/// A stored token answers to `t` when `t` is not empty and equals it
/// without regard to ASCII case.
pub open spec fn token_matches(stored: Seq<char>, t: Seq<char>) -> bool {
    t.len() > 0 && eq_ignore_case(stored, t)
}

/// Some token of the list answers to `t`.
pub open spec fn has_token_in(tokens: Seq<Seq<char>>, t: Seq<char>) -> bool {
    exists|i: int| 0 <= i < tokens.len() && token_matches(#[trigger] tokens[i], t)
}

/// No token is empty and no two are equal without regard to ASCII case.
pub open spec fn tokens_wf(tokens: Seq<Seq<char>>) -> bool {
    &&& forall|i: int| 0 <= i < tokens.len() ==> (#[trigger] tokens[i]).len() > 0
    &&& forall|i: int, j: int|
        0 <= i < tokens.len() && 0 <= j < tokens.len() && i != j ==> !eq_ignore_case(
            #[trigger] tokens[i],
            #[trigger] tokens[j],
        )
}

/// Case-insensitive equality is symmetric and transitive.
pub proof fn lemma_eq_ignore_case(a: Seq<char>, b: Seq<char>, c: Seq<char>)
    ensures
        eq_ignore_case(a, b) ==> eq_ignore_case(b, a),
        eq_ignore_case(a, b) && eq_ignore_case(b, c) ==> eq_ignore_case(a, c),
        eq_ignore_case(a, a),
{
}

pub struct TokensManager {
    tokens: Vec<String>,
}

impl View for TokensManager {
    type V = Seq<Seq<char>>;

    closed spec fn view(&self) -> Seq<Seq<char>> {
        views(self.tokens@)
    }
}

impl TokensManager {
    pub open spec fn wf(&self) -> bool {
        tokens_wf(self@)
    }

    pub fn new() -> (r: TokensManager)
        ensures
            r@ == Seq::<Seq<char>>::empty(),
            r.wf(),
    {
        let r = TokensManager { tokens: Vec::new() };
        assert(r@ =~= Seq::<Seq<char>>::empty());
        r
    }

    /// A copy holding the same tokens.
    pub fn copy(&self) -> (r: TokensManager)
        ensures
            r@ == self@,
    {
        TokensManager { tokens: crate::text::copy_strings(&self.tokens) }
    }

    pub fn has_token(&self, token: &str) -> (r: bool)
        ensures
            r == has_token_in(self@, token@),
    {
        if token.unicode_len() == 0 {
            return false;
        }
        let r = contains_ignore_case(&self.tokens, token);
        assert(r == has_token_in(self@, token@)) by {
            if r {
                let j = choose|j: int| 0 <= j < self.tokens@.len() && eq_ignore_case(#[trigger] self.tokens@[j]@, token@);
                assert(token_matches(self@[j], token@));
            }
            if has_token_in(self@, token@) {
                let j = choose|j: int| 0 <= j < self@.len() && token_matches(#[trigger] self@[j], token@);
                assert(eq_ignore_case(self.tokens@[j]@, token@));
            }
        }
        r
    }

    /// Adds `token` unless it is empty or some token already answers to it.
    pub fn add_token(&mut self, token: &str)
        requires
            old(self).wf(),
        ensures
            final(self).wf(),
            final(self)@ == if token@.len() > 0 && !has_token_in(old(self)@, token@) {
                old(self)@.push(token@)
            } else {
                old(self)@
            },
    {
        if !self.has_token(token) && token.unicode_len() > 0 {
            let ghost before = self@;
            self.tokens.push(token.to_owned());
            assert(self@ =~= before.push(token@));
            assert forall|i: int, j: int|
                0 <= i < self@.len() && 0 <= j < self@.len() && i != j implies !eq_ignore_case(
                #[trigger] self@[i],
                #[trigger] self@[j],
            ) by {
                if j == before.len() {
                    assert(!token_matches(before[i], token@));
                } else if i == before.len() {
                    assert(!token_matches(before[j], token@));
                    lemma_eq_ignore_case(self@[i], self@[j], self@[i]);
                }
            }
        }
    }

    /// Removes the token that answers to `token`, if there is one.
    pub fn remove_token(&mut self, token: &str)
        requires
            old(self).wf(),
        ensures
            final(self).wf(),
            !has_token_in(old(self)@, token@) ==> final(self)@ == old(self)@,
            has_token_in(old(self)@, token@) ==> exists|k: int|
                0 <= k < old(self)@.len() && token_matches(#[trigger] old(self)@[k], token@)
                    && final(self)@ == old(self)@.remove(k),
            !has_token_in(final(self)@, token@),
    {
        if token.unicode_len() == 0 {
            return;
        }
        let ghost before = self@;
        let n = self.tokens.len();
        let mut i: usize = 0;
        while i < n
            invariant
                n == self.tokens@.len(),
                self@ == before,
                before == old(self)@,
                tokens_wf(before),
                token@.len() > 0,
                i <= n,
                forall|j: int| 0 <= j < i ==> !token_matches(#[trigger] before[j], token@),
            decreases n - i,
        {
            if eq_ignore_ascii_case(self.tokens[i].as_str(), token) {
                assert(token_matches(before[i as int], token@));
                self.tokens.remove(i);
                assert(self@ =~= before.remove(i as int));
                assert forall|j: int| 0 <= j < self@.len() implies !token_matches(
                    #[trigger] self@[j],
                    token@,
                ) by {
                    let jj = if j < i { j } else { j + 1 };
                    assert(self@[j] == before[jj]);
                    if token_matches(before[jj], token@) {
                        lemma_eq_ignore_case(before[jj], token@, before[i as int]);
                        lemma_eq_ignore_case(before[i as int], token@, before[i as int]);
                    }
                }
                assert forall|a: int, b: int|
                    0 <= a < self@.len() && 0 <= b < self@.len() && a != b implies !eq_ignore_case(
                    #[trigger] self@[a],
                    #[trigger] self@[b],
                ) by {
                    let aa = if a < i { a } else { a + 1 };
                    let bb = if b < i { b } else { b + 1 };
                    assert(self@[a] == before[aa]);
                    assert(self@[b] == before[bb]);
                }
                assert(has_token_in(before, token@));
                assert(token_matches(before[i as int], token@) && self@ == before.remove(i as int));
                return;
            }
            i = i + 1;
        }
        assert(!has_token_in(before, token@)) by {
            if has_token_in(before, token@) {
                let j = choose|j: int| 0 <= j < before.len() && token_matches(#[trigger] before[j], token@);
            }
        }
    }

    pub fn get_num_tokens(&self) -> (r: usize)
        ensures
            r == self@.len(),
    {
        self.tokens.len()
    }

    /// The token at `index`, or the empty string past the end.
    pub fn get_token(&self, index: usize) -> (r: &str)
        ensures
            r@ == if index < self@.len() {
                self@[index as int]
            } else {
                Seq::<char>::empty()
            },
    {
        if index < self.tokens.len() {
            self.tokens[index].as_str()
        } else {
            proof {
                reveal_strlit("");
            }
            ""
        }
    }

    pub fn clear_tokens(&mut self)
        ensures
            final(self)@ == Seq::<Seq<char>>::empty(),
            final(self).wf(),
    {
        self.tokens = Vec::new();
        assert(self@ =~= Seq::<Seq<char>>::empty());
    }
}

/// After `add_token(t)` with `t` not empty, some token answers to `t`.
pub proof fn lemma_added_token_is_present(tokens: Seq<Seq<char>>, t: Seq<char>)
    requires
        t.len() > 0,
    ensures
        has_token_in(
            if !has_token_in(tokens, t) {
                tokens.push(t)
            } else {
                tokens
            },
            t,
        ),
{
    if !has_token_in(tokens, t) {
        let p = tokens.push(t);
        lemma_eq_ignore_case(t, t, t);
        assert(token_matches(p[tokens.len() as int], t));
    }
}

/// Removing a token that was just added takes away that token and gives back
/// the tokens there were.
pub proof fn lemma_add_then_remove_token(tokens: Seq<Seq<char>>, t: Seq<char>, k: int)
    requires
        tokens_wf(tokens),
        t.len() > 0,
        !has_token_in(tokens, t),
        0 <= k < tokens.len() + 1,
        token_matches(tokens.push(t)[k], t),
    ensures
        k == tokens.len(),
        tokens.push(t).remove(k) == tokens,
{
    if k < tokens.len() {
        assert(tokens.push(t)[k] == tokens[k]);
        assert(token_matches(tokens[k], t));
    }
    assert(tokens.push(t).remove(k) =~= tokens);
}

} // verus!
