//! Strings as sequences of characters: the lexicographic order on them, and
//! the removal of the wildcard marker from a host name.

use vstd::prelude::*;
use vstd::std_specs::iter::IteratorSpec;

verus! {

/// The lexicographic order on strings: `a` comes strictly before `b`.
///
/// Characters are compared by their code points, which is the order that
/// `str` has in Rust.
pub open spec fn lex_lt(a: Seq<char>, b: Seq<char>) -> bool
    decreases a.len(),
{
    if b.len() == 0 {
        false
    } else if a.len() == 0 {
        true
    } else if a[0] == b[0] {
        lex_lt(a.drop_first(), b.drop_first())
    } else {
        a[0] < b[0]
    }
}

/// Decides whether `a` comes strictly before `b` in lexicographic order.
pub fn str_lt(a: &str, b: &str) -> (less: bool)
    ensures
        less == lex_lt(a@, b@),
{
    let mut left = a.chars();
    let mut right = b.chars();
    loop
        invariant
            left.obeys_prophetic_iter_laws(),
            right.obeys_prophetic_iter_laws(),
            left.decrease() is Some,
            lex_lt(a@, b@) == lex_lt(left.remaining(), right.remaining()),
        decreases left.decrease()->0,
    {
        match right.next() {
            None => {
                return false;
            },
            Some(cb) => {
                match left.next() {
                    None => {
                        return true;
                    },
                    Some(ca) => {
                        if ca != cb {
                            return ca < cb;
                        }
                    },
                }
            },
        }
    }
}

/// No string comes before itself.
pub proof fn lemma_lex_lt_irreflexive(a: Seq<char>)
    ensures
        !lex_lt(a, a),
    decreases a.len(),
{
    if a.len() > 0 {
        lemma_lex_lt_irreflexive(a.drop_first());
    }
}

/// The order is transitive.
pub proof fn lemma_lex_lt_transitive(a: Seq<char>, b: Seq<char>, c: Seq<char>)
    requires
        lex_lt(a, b),
        lex_lt(b, c),
    ensures
        lex_lt(a, c),
    decreases a.len(),
{
    if a.len() > 0 && a[0] == b[0] && b[0] == c[0] {
        lemma_lex_lt_transitive(a.drop_first(), b.drop_first(), c.drop_first());
    }
}

/// The order is total: of two different strings one comes before the other.
pub proof fn lemma_lex_lt_total(a: Seq<char>, b: Seq<char>)
    ensures
        lex_lt(a, b) || lex_lt(b, a) || a == b,
    decreases a.len(),
{
    if a.len() > 0 && b.len() > 0 && a[0] == b[0] {
        lemma_lex_lt_total(a.drop_first(), b.drop_first());
        if a.drop_first() == b.drop_first() {
            assert(a =~= seq![a[0]] + a.drop_first());
            assert(b =~= seq![b[0]] + b.drop_first());
        }
    } else if a.len() == 0 && b.len() == 0 {
        assert(a =~= b);
    }
}

/// Whether `s` begins with the wildcard marker `*.`.
pub open spec fn has_wildcard_prefix(s: Seq<char>) -> bool {
    s.len() >= 2 && s[0] == '*' && s[1] == '.'
}

/// `s` without the wildcard marker that it begins with. One marker is taken
/// off: what follows it is kept as it is, also where that begins with a
/// marker again.
pub open spec fn strip_wildcard(s: Seq<char>) -> Seq<char> {
    if has_wildcard_prefix(s) {
        s.skip(2)
    } else {
        s
    }
}

/// Returns `host` without its leading wildcard marker, or as it is where it
/// begins with none.
pub fn trim_wildcard(host: &str) -> (rest: String)
    ensures
        rest@ == strip_wildcard(host@),
{
    let mut chars = host.chars();
    let first = chars.next();
    let second = chars.next();
    if first == Some('*') && second == Some('.') {
        let total: usize = host.unicode_len();
        let rest = host.substring_char(2, total);
        assert(rest@ =~= host@.skip(2));
        rest.to_owned()
    } else {
        host.to_owned()
    }
}

} // verus!
